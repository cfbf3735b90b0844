//! The snapshot-stack backend: a stack of full key/value snapshots, one per
//! open transaction level plus the base level.
//!
//! `start` copies the whole current level and pushes the copy — a
//! deliberate copy-on-start design that buys perfect isolation.  `abort`
//! pops the top level; `commit` pops the top and makes it the parent's
//! state.  Both are rejected at depth 0, so the base level can never
//! underflow.

use vstd::prelude::*;

use crate::enums::{HandleResult, Outcome};
use crate::kv_map::KvMap;
use crate::model::{
    model_abort, model_commit, model_delete, model_read, model_start, model_write, fresh_stack,
    no_tx_abort_msg, no_tx_commit_msg, not_found_message, StackModel,
};
use crate::store::Store;

verus! {

/// In-memory backend that copies the entire current level when a
/// transaction starts.
pub struct CopyStore {
    stack: Vec<KvMap>,
}

impl View for CopyStore {
    type V = StackModel;

    closed spec fn view(&self) -> StackModel {
        self.stack@.map_values(|m: KvMap| m@)
    }
}

impl CopyStore {
    /// Creates a store holding exactly one empty base level.
    pub fn new() -> (r: CopyStore)
        ensures
            r.wf(),
            r@ == fresh_stack(),
    {
        let mut stack: Vec<KvMap> = Vec::new();
        stack.push(KvMap::new());
        let r = CopyStore { stack };
        proof {
            assert(r@ =~= fresh_stack());
        }
        r
    }
}

impl Store for CopyStore {
    /// The base level is always present, and every level's representation
    /// is well formed.
    closed spec fn wf(&self) -> bool {
        &&& self.stack@.len() >= 1
        &&& forall|i: int| 0 <= i < self.stack@.len() ==> (#[trigger] self.stack@[i]).wf()
    }

    /// Nesting is limited by machine memory alone.
    open spec fn start_enabled(&self) -> bool {
        true
    }

    open spec fn read_post(&self, key: Seq<char>, r: Outcome) -> bool {
        r == model_read(self@, key)
    }

    open spec fn write_post(&self, post: Self, key: Seq<char>, value: Seq<char>, r: Outcome) -> bool {
        post@ == model_write(self@, key, value) && r == Outcome::Success
    }

    open spec fn delete_post(&self, post: Self, key: Seq<char>, r: Outcome) -> bool {
        post@ == model_delete(self@, key) && r == Outcome::Success
    }

    open spec fn start_post(&self, post: Self, r: Outcome) -> bool {
        post@ == model_start(self@) && r == Outcome::Success
    }

    open spec fn abort_post(&self, post: Self, r: Outcome) -> bool {
        if self@.len() == 1 {
            post@ == self@ && r == Outcome::Failure(no_tx_abort_msg())
        } else {
            post@ == model_abort(self@) && r == Outcome::Success
        }
    }

    open spec fn commit_post(&self, post: Self, r: Outcome) -> bool {
        if self@.len() == 1 {
            post@ == self@ && r == Outcome::Failure(no_tx_commit_msg())
        } else {
            post@ == model_commit(self@) && r == Outcome::Success
        }
    }

    fn read(&self, key: String) -> (r: HandleResult) {
        let top = &self.stack[self.stack.len() - 1];
        match top.get(&key) {
            Some(value) => HandleResult::Value(value.clone()),
            None => HandleResult::Failure(not_found_message(&key)),
        }
    }

    fn write(&mut self, key: String, value: String) -> (r: HandleResult) {
        let ghost pre = self@;
        let mut top = self.stack.pop().unwrap();
        top.insert(key, value);
        self.stack.push(top);
        proof {
            assert(self@ =~= model_write(pre, key@, value@));
        }
        HandleResult::Success
    }

    fn delete(&mut self, key: String) -> (r: HandleResult) {
        let ghost pre = self@;
        let mut top = self.stack.pop().unwrap();
        top.remove(&key);
        self.stack.push(top);
        proof {
            assert(self@ =~= model_delete(pre, key@));
        }
        HandleResult::Success
    }

    fn start(&mut self) -> (r: HandleResult) {
        let ghost pre = self@;
        let copy = self.stack[self.stack.len() - 1].duplicate();
        self.stack.push(copy);
        proof {
            assert(self@ =~= model_start(pre));
        }
        HandleResult::Success
    }

    fn abort(&mut self) -> (r: HandleResult) {
        let ghost pre = self@;
        if self.stack.len() == 1 {
            return HandleResult::Failure("no transaction to abort".to_owned());
        }
        self.stack.pop();
        proof {
            assert(self@ =~= model_abort(pre));
        }
        HandleResult::Success
    }

    fn commit(&mut self) -> (r: HandleResult) {
        let ghost pre = self@;
        if self.stack.len() == 1 {
            return HandleResult::Failure("no transaction to commit".to_owned());
        }
        let state = self.stack.pop().unwrap();
        self.stack.pop();
        self.stack.push(state);
        proof {
            assert(self@ =~= model_commit(pre));
        }
        HandleResult::Success
    }
}

} // verus!
