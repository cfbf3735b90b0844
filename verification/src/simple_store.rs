//! The flat backend: a single mapping, with transactions disabled.

use vstd::prelude::*;

use crate::enums::{HandleResult, Outcome};
use crate::kv_map::KvMap;
use crate::model::{no_tx_support_msg, not_found_message, not_found_msg};
use crate::store::Store;

verus! {

/// Backend with read/write/delete support but no transactions: every
/// `start`, `abort` or `commit` is rejected.
pub struct SimpleStore {
    store: KvMap,
}

impl View for SimpleStore {
    type V = Map<Seq<char>, Seq<char>>;

    closed spec fn view(&self) -> Map<Seq<char>, Seq<char>> {
        self.store@
    }
}

impl SimpleStore {
    /// Creates an empty store.
    pub fn new() -> (r: SimpleStore)
        ensures
            r.wf(),
            r@ == Map::<Seq<char>, Seq<char>>::empty(),
    {
        SimpleStore { store: KvMap::new() }
    }
}

impl Store for SimpleStore {
    closed spec fn wf(&self) -> bool {
        self.store.wf()
    }

    /// `start` never succeeds here, but it is always safe to ask.
    open spec fn start_enabled(&self) -> bool {
        true
    }

    open spec fn read_post(&self, key: Seq<char>, r: Outcome) -> bool {
        r == if self@.contains_key(key) {
            Outcome::Value(self@[key])
        } else {
            Outcome::Failure(not_found_msg(key))
        }
    }

    open spec fn write_post(&self, post: Self, key: Seq<char>, value: Seq<char>, r: Outcome) -> bool {
        post@ == self@.insert(key, value) && r == Outcome::Success
    }

    open spec fn delete_post(&self, post: Self, key: Seq<char>, r: Outcome) -> bool {
        post@ == self@.remove(key) && r == Outcome::Success
    }

    open spec fn start_post(&self, post: Self, r: Outcome) -> bool {
        post@ == self@ && r == Outcome::Failure(no_tx_support_msg())
    }

    open spec fn abort_post(&self, post: Self, r: Outcome) -> bool {
        post@ == self@ && r == Outcome::Failure(no_tx_support_msg())
    }

    open spec fn commit_post(&self, post: Self, r: Outcome) -> bool {
        post@ == self@ && r == Outcome::Failure(no_tx_support_msg())
    }

    fn read(&self, key: String) -> (r: HandleResult) {
        match self.store.get(&key) {
            Some(value) => HandleResult::Value(value.clone()),
            None => HandleResult::Failure(not_found_message(&key)),
        }
    }

    fn write(&mut self, key: String, value: String) -> (r: HandleResult) {
        self.store.insert(key, value);
        HandleResult::Success
    }

    fn delete(&mut self, key: String) -> (r: HandleResult) {
        self.store.remove(&key);
        HandleResult::Success
    }

    fn start(&mut self) -> (r: HandleResult) {
        HandleResult::Failure("Transactions not supported by this backend".to_owned())
    }

    fn abort(&mut self) -> (r: HandleResult) {
        HandleResult::Failure("Transactions not supported by this backend".to_owned())
    }

    fn commit(&mut self) -> (r: HandleResult) {
        HandleResult::Failure("Transactions not supported by this backend".to_owned())
    }
}

} // verus!
