//! The transactional laws, proved once over the abstract model — which
//! every backend's contract follows — and the equivalence of the two
//! transactional backends.

use vstd::prelude::*;

use crate::copy_store::CopyStore;
use crate::enums::{CommandModel, Outcome};
use crate::model::{
    model_abort, model_commit, model_delete, model_read, model_start, model_write, not_found_msg,
    stack_wf, StackModel,
};
use crate::skweel_store::SkweelStore;
use crate::store::Store;

verus! {

/// Base read/write round-trip: writing a value and then reading the same
/// key yields exactly that value, at any nesting depth.
pub proof fn lemma_write_read_round_trip(stk: StackModel, key: Seq<char>, value: Seq<char>)
    requires
        stack_wf(stk),
    ensures
        model_read(model_write(stk, key, value), key) == Outcome::Value(value),
{
    assert(model_write(stk, key, value).last() == stk.last().insert(key, value));
}

/// Not-found: reading a key absent from the current level yields the
/// not-found failure naming that key.
pub proof fn lemma_read_not_found(stk: StackModel, key: Seq<char>)
    requires
        stack_wf(stk),
        !stk.last().contains_key(key),
    ensures
        model_read(stk, key) == Outcome::Failure(not_found_msg(key)),
{
}

/// A single-level commit is a no-op on visible state: start, write, commit
/// leaves exactly the state a bare write would have left.
pub proof fn lemma_single_commit_no_op(stk: StackModel, key: Seq<char>, value: Seq<char>)
    requires
        stack_wf(stk),
    ensures
        model_commit(model_write(model_start(stk), key, value)) == model_write(stk, key, value),
{
    assert(model_commit(model_write(model_start(stk), key, value)) =~= model_write(
        stk,
        key,
        value,
    ));
}

/// A single-level abort reverts everything: start, write, abort restores
/// exactly the state as of the start, whatever was written.
pub proof fn lemma_single_abort_reverts(stk: StackModel, key: Seq<char>, value: Seq<char>)
    requires
        stack_wf(stk),
    ensures
        model_abort(model_write(model_start(stk), key, value)) == stk,
{
    assert(model_abort(model_write(model_start(stk), key, value)) =~= stk);
}

/// Nested abort isolation: an inner transaction's write disappears with its
/// abort, while the outer transaction's write stays visible — also after
/// the outer commit.
pub proof fn lemma_nested_abort_isolation(
    stk: StackModel,
    a: Seq<char>,
    va: Seq<char>,
    b: Seq<char>,
    vb: Seq<char>,
)
    requires
        stack_wf(stk),
        a != b,
        !stk.last().contains_key(b),
    ensures
        ({
            let outer = model_write(model_start(stk), a, va);
            let after_abort = model_abort(model_write(model_start(outer), b, vb));
            &&& after_abort == outer
            &&& model_read(after_abort, a) == Outcome::Value(va)
            &&& model_read(after_abort, b) == Outcome::Failure(not_found_msg(b))
            &&& model_read(model_commit(after_abort), a) == Outcome::Value(va)
        }),
{
    let outer = model_write(model_start(stk), a, va);
    lemma_single_abort_reverts(outer, b, vb);
    assert(outer.last() == stk.last().insert(a, va));
    assert(model_commit(outer).last() == outer.last());
}

/// Nested commit then outer abort discards both writes: a committed inner
/// transaction is visible at the outer level, yet not durable until every
/// enclosing transaction commits.
pub proof fn lemma_nested_commit_outer_abort(
    stk: StackModel,
    a: Seq<char>,
    va: Seq<char>,
    b: Seq<char>,
    vb: Seq<char>,
)
    requires
        stack_wf(stk),
        a != b,
        !stk.last().contains_key(a),
        !stk.last().contains_key(b),
    ensures
        ({
            let outer = model_write(model_start(stk), a, va);
            let after_commit = model_commit(model_write(model_start(outer), b, vb));
            &&& model_read(after_commit, a) == Outcome::Value(va)
            &&& model_read(after_commit, b) == Outcome::Value(vb)
            &&& model_abort(after_commit) == stk
            &&& model_read(model_abort(after_commit), a) == Outcome::Failure(not_found_msg(a))
            &&& model_read(model_abort(after_commit), b) == Outcome::Failure(not_found_msg(b))
        }),
{
    let outer = model_write(model_start(stk), a, va);
    let after_commit = model_commit(model_write(model_start(outer), b, vb));
    assert(outer.last() == stk.last().insert(a, va));
    assert(after_commit.last() == outer.last().insert(b, vb));
    assert(model_abort(after_commit) =~= stk);
}

/// Delete is idempotent: deleting a key a second time changes nothing, and
/// the key is gone after the first delete.
pub proof fn lemma_delete_idempotent(stk: StackModel, key: Seq<char>)
    requires
        stack_wf(stk),
    ensures
        model_delete(model_delete(stk, key), key) == model_delete(stk, key),
        !model_delete(stk, key).last().contains_key(key),
{
    assert(model_delete(stk, key).last() == stk.last().remove(key));
    assert(model_delete(model_delete(stk, key), key) =~= model_delete(stk, key)) by {
        assert(stk.last().remove(key).remove(key) =~= stk.last().remove(key));
    }
}

/// Whether `op` names one of the six contract operations.
pub open spec fn is_store_op(op: CommandModel) -> bool {
    match op {
        CommandModel::Quit => false,
        CommandModel::ParseError(_) => false,
        _ => true,
    }
}

/// How one contract operation relates a backend's old state, new state and
/// result; a read leaves the state as it was.
pub open spec fn step_post<S: Store>(pre: S, post: S, op: CommandModel, r: Outcome) -> bool {
    match op {
        CommandModel::Read(k) => post == pre && pre.read_post(k, r),
        CommandModel::Write(k, v) => pre.write_post(post, k, v, r),
        CommandModel::Delete(k) => pre.delete_post(post, k, r),
        CommandModel::Start => pre.start_post(post, r),
        CommandModel::Abort => pre.abort_post(post, r),
        CommandModel::Commit => pre.commit_post(post, r),
        CommandModel::Quit => false,
        CommandModel::ParseError(_) => false,
    }
}

/// Whether `op` is a write whose key is already present at the current
/// level — the one case where the savepoint-backed store's engine reports a
/// constraint violation.
pub open spec fn write_collides(op: CommandModel, stk: StackModel) -> bool {
    match op {
        CommandModel::Write(k, _) => stk.last().contains_key(k),
        _ => false,
    }
}

/// Two-backend equivalence: from equal visible states, any one contract
/// operation that no backend-internal failure is expected for produces the
/// same result on the snapshot-stack backend and on the savepoint-backed
/// store, and leaves their visible states equal again.
pub proof fn lemma_backend_equivalence(
    c_pre: CopyStore,
    c_post: CopyStore,
    s_pre: SkweelStore,
    s_post: SkweelStore,
    op: CommandModel,
    rc: Outcome,
    rs: Outcome,
)
    requires
        stack_wf(c_pre@),
        c_pre@ == s_pre@,
        is_store_op(op),
        !write_collides(op, s_pre@),
        step_post(c_pre, c_post, op, rc),
        step_post(s_pre, s_post, op, rs),
    ensures
        rc == rs,
        c_post@ == s_post@,
{
}

} // verus!
