//! The storage contract: the six operations every backend implements.
//!
//! Each backend supplies spec functions describing its own behaviour (an
//! invariant and one post-relation per operation); the executable methods
//! are then bound to those relations for every implementation.  Callers
//! code only against this trait.

use vstd::prelude::*;

use crate::enums::{HandleResult, Outcome};

verus! {

pub trait Store: Sized {
    /// The backend's internal invariant, established by its constructor and
    /// preserved by every operation.
    spec fn wf(&self) -> bool;

    /// When one more transaction may be opened (a machine limit only; the
    /// contract itself puts no bound on nesting).
    spec fn start_enabled(&self) -> bool;

    /// What a read of `key` returns.
    spec fn read_post(&self, key: Seq<char>, r: Outcome) -> bool;

    /// How a write of `key`/`value` relates the old state, the new state
    /// and the result.
    spec fn write_post(&self, post: Self, key: Seq<char>, value: Seq<char>, r: Outcome) -> bool;

    /// How a delete of `key` relates the old state, the new state and the
    /// result.
    spec fn delete_post(&self, post: Self, key: Seq<char>, r: Outcome) -> bool;

    /// How opening a transaction relates the old state, the new state and
    /// the result.
    spec fn start_post(&self, post: Self, r: Outcome) -> bool;

    /// How aborting relates the old state, the new state and the result.
    spec fn abort_post(&self, post: Self, r: Outcome) -> bool;

    /// How committing relates the old state, the new state and the result.
    spec fn commit_post(&self, post: Self, r: Outcome) -> bool;

    /// Reads the value stored under `key` at the current level.
    fn read(&self, key: String) -> (r: HandleResult)
        requires
            self.wf(),
        ensures
            self.read_post(key@, r@),
    ;

    /// Sets `key` to `value` at the current level.
    fn write(&mut self, key: String, value: String) -> (r: HandleResult)
        requires
            old(self).wf(),
        ensures
            final(self).wf(),
            old(self).write_post(*final(self), key@, value@, r@),
    ;

    /// Removes `key` from the current level; an absent key is not an error.
    fn delete(&mut self, key: String) -> (r: HandleResult)
        requires
            old(self).wf(),
        ensures
            final(self).wf(),
            old(self).delete_post(*final(self), key@, r@),
    ;

    /// Opens one new nested transaction level.
    fn start(&mut self) -> (r: HandleResult)
        requires
            old(self).wf(),
            old(self).start_enabled(),
        ensures
            final(self).wf(),
            old(self).start_post(*final(self), r@),
    ;

    /// Discards the current level's changes and returns to the parent.
    fn abort(&mut self) -> (r: HandleResult)
        requires
            old(self).wf(),
        ensures
            final(self).wf(),
            old(self).abort_post(*final(self), r@),
    ;

    /// Makes the current level's changes the parent level's state.
    fn commit(&mut self) -> (r: HandleResult)
        requires
            old(self).wf(),
        ensures
            final(self).wf(),
            old(self).commit_post(*final(self), r@),
    ;
}

} // verus!
