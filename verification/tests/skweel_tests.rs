use kvstore::copy_store::CopyStore;
use kvstore::enums::{Command, HandleResult};
use kvstore::skweel_store::SkweelStore;
use kvstore::store::Store;

#[test]
fn skweel_store_write_then_read() {
    let mut store = SkweelStore::new().unwrap();
    assert_eq!(HandleResult::Success, store.write("foo".to_owned(), "bar".to_owned()));
    assert_eq!(HandleResult::Value("bar".to_owned()), store.read("foo".to_owned()));
}

#[test]
fn skweel_store_not_found() {
    let store = SkweelStore::new().unwrap();
    assert_eq!(
        HandleResult::Failure("Key not found: missing".to_owned()),
        store.read("missing".to_owned())
    );
}

#[test]
fn skweel_store_duplicate_write_fails_and_changes_nothing() {
    let mut store = SkweelStore::new().unwrap();
    assert_eq!(HandleResult::Success, store.write("foo".to_owned(), "bar".to_owned()));
    let second = store.write("foo".to_owned(), "baz".to_owned());
    assert!(matches!(second, HandleResult::Failure(_)));
    assert_eq!(HandleResult::Value("bar".to_owned()), store.read("foo".to_owned()));
}

#[test]
fn skweel_store_delete_is_idempotent() {
    let mut store = SkweelStore::new().unwrap();
    assert_eq!(HandleResult::Success, store.delete("ghost".to_owned()));
    assert_eq!(HandleResult::Success, store.delete("ghost".to_owned()));
    store.write("foo".to_owned(), "bar".to_owned());
    assert_eq!(HandleResult::Success, store.delete("foo".to_owned()));
    assert_eq!(HandleResult::Success, store.delete("foo".to_owned()));
    assert_eq!(
        HandleResult::Failure("Key not found: foo".to_owned()),
        store.read("foo".to_owned())
    );
}

#[test]
fn skweel_store_depth_zero_guard() {
    let mut store = SkweelStore::new().unwrap();
    store.write("foo".to_owned(), "bar".to_owned());
    assert_eq!(HandleResult::Failure("no transaction to abort".to_owned()), store.abort());
    assert_eq!(HandleResult::Failure("no transaction to commit".to_owned()), store.commit());
    assert_eq!(HandleResult::Value("bar".to_owned()), store.read("foo".to_owned()));
}

#[test]
fn skweel_store_abort_reverts() {
    let mut store = SkweelStore::new().unwrap();
    assert_eq!(HandleResult::Success, store.start());
    store.write("foo".to_owned(), "bar".to_owned());
    assert_eq!(HandleResult::Value("bar".to_owned()), store.read("foo".to_owned()));
    assert_eq!(HandleResult::Success, store.abort());
    assert_eq!(
        HandleResult::Failure("Key not found: foo".to_owned()),
        store.read("foo".to_owned())
    );
}

#[test]
fn skweel_store_commit_keeps_changes() {
    let mut store = SkweelStore::new().unwrap();
    store.start();
    store.write("foo".to_owned(), "bar".to_owned());
    assert_eq!(HandleResult::Success, store.commit());
    assert_eq!(HandleResult::Value("bar".to_owned()), store.read("foo".to_owned()));
}

#[test]
fn skweel_store_nested_inner_abort() {
    let mut store = SkweelStore::new().unwrap();
    store.start();
    store.write("foo".to_owned(), "bar".to_owned());
    store.start();
    store.write("bar".to_owned(), "baz".to_owned());
    store.abort();
    assert_eq!(HandleResult::Value("bar".to_owned()), store.read("foo".to_owned()));
    assert_eq!(
        HandleResult::Failure("Key not found: bar".to_owned()),
        store.read("bar".to_owned())
    );
    store.commit();
    assert_eq!(HandleResult::Value("bar".to_owned()), store.read("foo".to_owned()));
}

#[test]
fn skweel_store_nested_commit_then_outer_abort() {
    let mut store = SkweelStore::new().unwrap();
    store.start();
    store.write("foo".to_owned(), "bar".to_owned());
    store.start();
    store.write("bar".to_owned(), "baz".to_owned());
    store.commit();
    assert_eq!(HandleResult::Value("bar".to_owned()), store.read("foo".to_owned()));
    assert_eq!(HandleResult::Value("baz".to_owned()), store.read("bar".to_owned()));
    store.abort();
    assert_eq!(
        HandleResult::Failure("Key not found: foo".to_owned()),
        store.read("foo".to_owned())
    );
    assert_eq!(
        HandleResult::Failure("Key not found: bar".to_owned()),
        store.read("bar".to_owned())
    );
}

#[test]
fn skweel_store_savepoint_names_survive_reuse() {
    // abort leaves the engine's old savepoint behind; a fresh start at the
    // same depth must still roll back to the newest one.
    let mut store = SkweelStore::new().unwrap();
    store.start();
    store.write("a".to_owned(), "1".to_owned());
    store.abort();
    store.write("b".to_owned(), "2".to_owned());
    store.start();
    store.write("c".to_owned(), "3".to_owned());
    store.abort();
    assert_eq!(
        HandleResult::Failure("Key not found: a".to_owned()),
        store.read("a".to_owned())
    );
    assert_eq!(HandleResult::Value("2".to_owned()), store.read("b".to_owned()));
    assert_eq!(
        HandleResult::Failure("Key not found: c".to_owned()),
        store.read("c".to_owned())
    );
}

fn run_ops<S: Store>(store: &mut S, ops: &[Command]) -> Vec<HandleResult> {
    let mut results = Vec::new();
    for op in ops {
        let r = match op {
            Command::Read(k) => store.read(k.clone()),
            Command::Write(k, v) => store.write(k.clone(), v.clone()),
            Command::Delete(k) => store.delete(k.clone()),
            Command::Start => store.start(),
            Command::Abort => store.abort(),
            Command::Commit => store.commit(),
            _ => panic!("not a store operation"),
        };
        results.push(r);
    }
    results
}

#[test]
fn two_backend_equivalence_on_a_fixed_sequence() {
    let ops = vec![
        Command::Read("a".to_owned()),
        Command::Write("a".to_owned(), "1".to_owned()),
        Command::Read("a".to_owned()),
        Command::Start,
        Command::Delete("a".to_owned()),
        Command::Write("a".to_owned(), "2".to_owned()),
        Command::Start,
        Command::Write("b".to_owned(), "3".to_owned()),
        Command::Read("b".to_owned()),
        Command::Abort,
        Command::Read("a".to_owned()),
        Command::Read("b".to_owned()),
        Command::Start,
        Command::Write("c".to_owned(), "4".to_owned()),
        Command::Commit,
        Command::Read("c".to_owned()),
        Command::Abort,
        Command::Read("a".to_owned()),
        Command::Read("c".to_owned()),
        Command::Commit,
        Command::Abort,
        Command::Delete("a".to_owned()),
        Command::Delete("a".to_owned()),
        Command::Read("a".to_owned()),
    ];
    let mut copy = CopyStore::new();
    let mut skweel = SkweelStore::new().unwrap();
    let copy_results = run_ops(&mut copy, &ops);
    let skweel_results = run_ops(&mut skweel, &ops);
    assert_eq!(copy_results, skweel_results);
}
