//! The abstract model of a transactional key/value store: a non-empty stack
//! of key/value maps.  Index 0 is the base (committed) level; the last
//! element is the current level, and every operation acts on it alone.
//!
//! Each backend's contract states how its view follows these transition
//! functions, so the model is the one place where the transaction semantics
//! is written down.

use vstd::prelude::*;
use vstd::string::StringExecFns;

use crate::enums::Outcome;

verus! {

/// The whole visible state of a transactional store: base level first,
/// current level last.
pub type StackModel = Seq<Map<Seq<char>, Seq<char>>>;

/// The stack invariant: the base level is always present.
pub open spec fn stack_wf(stk: StackModel) -> bool {
    stk.len() >= 1
}

/// The state of a freshly created store: only an empty base level.
pub open spec fn fresh_stack() -> StackModel {
    seq![Map::empty()]
}

/// The diagnostic for a read or delete of an absent key.
pub open spec fn not_found_msg(key: Seq<char>) -> Seq<char> {
    "Key not found: "@ + key
}

/// The diagnostic for an abort with no open transaction.
pub open spec fn no_tx_abort_msg() -> Seq<char> {
    "no transaction to abort"@
}

/// The diagnostic for a commit with no open transaction.
pub open spec fn no_tx_commit_msg() -> Seq<char> {
    "no transaction to commit"@
}

/// The diagnostic of a backend without transaction support.
pub open spec fn no_tx_support_msg() -> Seq<char> {
    "Transactions not supported by this backend"@
}

/// What a read returns: the value stored at the current level, or the
/// not-found failure.
pub open spec fn model_read(stk: StackModel, key: Seq<char>) -> Outcome
    recommends
        stack_wf(stk),
{
    if stk.last().contains_key(key) {
        Outcome::Value(stk.last()[key])
    } else {
        Outcome::Failure(not_found_msg(key))
    }
}

/// A write sets (or overwrites) the key at the current level only.
pub open spec fn model_write(stk: StackModel, key: Seq<char>, value: Seq<char>) -> StackModel
    recommends
        stack_wf(stk),
{
    stk.update(stk.len() - 1, stk.last().insert(key, value))
}

/// A delete removes the key from the current level only; an absent key is
/// not an error.
pub open spec fn model_delete(stk: StackModel, key: Seq<char>) -> StackModel
    recommends
        stack_wf(stk),
{
    stk.update(stk.len() - 1, stk.last().remove(key))
}

/// A start pushes a copy of the current level: the new transaction sees the
/// same state and is perfectly isolated from its parent.
pub open spec fn model_start(stk: StackModel) -> StackModel
    recommends
        stack_wf(stk),
{
    stk.push(stk.last())
}

/// An abort discards the current level, restoring exactly the state as of
/// the matching start.
pub open spec fn model_abort(stk: StackModel) -> StackModel
    recommends
        stack_wf(stk),
        stk.len() >= 2,
{
    stk.drop_last()
}

/// A commit makes the current level's state the parent's state, collapsing
/// two levels into one.
pub open spec fn model_commit(stk: StackModel) -> StackModel
    recommends
        stack_wf(stk),
        stk.len() >= 2,
{
    stk.drop_last().update(stk.len() - 2, stk.last())
}

/// Builds the not-found diagnostic for a key.
pub fn not_found_message(key: &String) -> (r: String)
    ensures
        r@ == not_found_msg(key@),
{
    let mut msg: String = "Key not found: ".to_owned();
    msg.append(key.as_str());
    msg
}

} // verus!
