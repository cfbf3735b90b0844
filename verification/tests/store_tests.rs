use kvstore::copy_store::CopyStore;
use kvstore::dummy_store::DummyStore;
use kvstore::enums::HandleResult;
use kvstore::simple_store::SimpleStore;
use kvstore::store::Store;

#[test]
fn copy_store_test_read() {
    let mut store = CopyStore::new();
    store.write("foo".to_owned(), "bar".to_owned());
    assert_eq!(HandleResult::Value("bar".to_owned()), store.read("foo".to_owned()));
}

#[test]
fn test_commit() {
    let mut store = CopyStore::new();
    store.start();
    store.write("foo".to_owned(), "bar".to_owned());
    assert_eq!(HandleResult::Value("bar".to_owned()), store.read("foo".to_owned()));
    store.commit();
    assert_eq!(HandleResult::Value("bar".to_owned()), store.read("foo".to_owned()));
}

#[test]
fn test_abort() {
    let mut store = CopyStore::new();
    store.start();
    store.write("foo".to_owned(), "bar".to_owned());
    assert_eq!(HandleResult::Value("bar".to_owned()), store.read("foo".to_owned()));
    store.abort();
    assert_eq!(
        HandleResult::Failure("Key not found: foo".to_owned()),
        store.read("foo".to_owned())
    );
}

#[test]
fn test_nested_inner_abort() {
    let mut store = CopyStore::new();
    store.start();
    store.write("foo".to_owned(), "bar".to_owned());
    assert_eq!(HandleResult::Value("bar".to_owned()), store.read("foo".to_owned()));
    store.start();
    store.write("bar".to_owned(), "baz".to_owned());
    store.abort();
    assert_eq!(HandleResult::Value("bar".to_owned()), store.read("foo".to_owned()));
    assert_eq!(
        HandleResult::Failure("Key not found: bar".to_owned()),
        store.read("bar".to_owned())
    );
    store.commit();
    assert_eq!(HandleResult::Value("bar".to_owned()), store.read("foo".to_owned()));
}

#[test]
fn test_nested_outer_abort() {
    let mut store = CopyStore::new();
    store.start();
    store.write("foo".to_owned(), "bar".to_owned());
    assert_eq!(HandleResult::Value("bar".to_owned()), store.read("foo".to_owned()));
    store.start();
    store.write("bar".to_owned(), "baz".to_owned());
    store.commit();
    assert_eq!(HandleResult::Value("bar".to_owned()), store.read("foo".to_owned()));
    assert_eq!(HandleResult::Value("baz".to_owned()), store.read("bar".to_owned()));
    store.abort();
    assert_eq!(
        HandleResult::Failure("Key not found: foo".to_owned()),
        store.read("foo".to_owned())
    );
    assert_eq!(
        HandleResult::Failure("Key not found: bar".to_owned()),
        store.read("bar".to_owned())
    );
}

#[test]
fn dummy_store_test_read() {
    let store = DummyStore {};
    assert_eq!(HandleResult::Value("READ: `foo`".to_owned()), store.read("foo".to_owned()));
}

#[test]
fn dummy_store_echoes_every_operation() {
    let mut store = DummyStore {};
    assert_eq!(
        HandleResult::Value("WRITE: `foo` `bar`".to_owned()),
        store.write("foo".to_owned(), "bar".to_owned())
    );
    assert_eq!(HandleResult::Value("DELETE: `foo`".to_owned()), store.delete("foo".to_owned()));
    assert_eq!(HandleResult::Value("START".to_owned()), store.start());
    assert_eq!(HandleResult::Value("ABORT".to_owned()), store.abort());
    assert_eq!(HandleResult::Value("COMMIT".to_owned()), store.commit());
}

#[test]
fn simple_store_test_read() {
    let mut store = SimpleStore::new();
    store.write("foo".to_owned(), "bar".to_owned());
    assert_eq!(HandleResult::Value("bar".to_owned()), store.read("foo".to_owned()));
}

#[test]
fn simple_store_rejects_transactions() {
    let mut store = SimpleStore::new();
    let msg = "Transactions not supported by this backend".to_owned();
    assert_eq!(HandleResult::Failure(msg.clone()), store.start());
    assert_eq!(HandleResult::Failure(msg.clone()), store.abort());
    assert_eq!(HandleResult::Failure(msg), store.commit());
}

#[test]
fn copy_store_not_found_on_fresh_store() {
    let store = CopyStore::new();
    assert_eq!(
        HandleResult::Failure("Key not found: missing".to_owned()),
        store.read("missing".to_owned())
    );
}

#[test]
fn copy_store_depth_zero_guard() {
    let mut store = CopyStore::new();
    store.write("foo".to_owned(), "bar".to_owned());
    assert_eq!(HandleResult::Failure("no transaction to abort".to_owned()), store.abort());
    assert_eq!(HandleResult::Failure("no transaction to commit".to_owned()), store.commit());
    assert_eq!(HandleResult::Value("bar".to_owned()), store.read("foo".to_owned()));
}

#[test]
fn copy_store_delete_is_idempotent() {
    let mut store = CopyStore::new();
    assert_eq!(HandleResult::Success, store.delete("ghost".to_owned()));
    assert_eq!(HandleResult::Success, store.delete("ghost".to_owned()));
    store.write("foo".to_owned(), "bar".to_owned());
    assert_eq!(HandleResult::Success, store.delete("foo".to_owned()));
    assert_eq!(HandleResult::Success, store.delete("foo".to_owned()));
    assert_eq!(
        HandleResult::Failure("Key not found: foo".to_owned()),
        store.read("foo".to_owned())
    );
}

#[test]
fn copy_store_abort_restores_previous_value() {
    let mut store = CopyStore::new();
    store.write("k".to_owned(), "v1".to_owned());
    store.start();
    store.write("k".to_owned(), "v2".to_owned());
    assert_eq!(HandleResult::Value("v2".to_owned()), store.read("k".to_owned()));
    store.abort();
    assert_eq!(HandleResult::Value("v1".to_owned()), store.read("k".to_owned()));
}

#[test]
fn copy_store_overwrite_in_place() {
    let mut store = CopyStore::new();
    assert_eq!(HandleResult::Success, store.write("k".to_owned(), "v1".to_owned()));
    assert_eq!(HandleResult::Success, store.write("k".to_owned(), "v2".to_owned()));
    assert_eq!(HandleResult::Value("v2".to_owned()), store.read("k".to_owned()));
}
