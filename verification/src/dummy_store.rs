//! The echo backend: stores nothing, describes every call it receives.
//! Used only for protocol and wiring verification.

use vstd::prelude::*;
use vstd::string::StringExecFns;

use crate::enums::{HandleResult, Outcome};
use crate::store::Store;

verus! {

/// What the echo backend answers to a read.
pub open spec fn echo_read_msg(key: Seq<char>) -> Seq<char> {
    "READ: `"@ + key + "`"@
}

/// What the echo backend answers to a write.
pub open spec fn echo_write_msg(key: Seq<char>, value: Seq<char>) -> Seq<char> {
    "WRITE: `"@ + key + "` `"@ + value + "`"@
}

/// What the echo backend answers to a delete.
pub open spec fn echo_delete_msg(key: Seq<char>) -> Seq<char> {
    "DELETE: `"@ + key + "`"@
}

/// Backend that keeps no state at all and echoes back each call.
pub struct DummyStore {}

impl Store for DummyStore {
    open spec fn wf(&self) -> bool {
        true
    }

    open spec fn start_enabled(&self) -> bool {
        true
    }

    open spec fn read_post(&self, key: Seq<char>, r: Outcome) -> bool {
        r == Outcome::Value(echo_read_msg(key))
    }

    open spec fn write_post(&self, post: Self, key: Seq<char>, value: Seq<char>, r: Outcome) -> bool {
        r == Outcome::Value(echo_write_msg(key, value))
    }

    open spec fn delete_post(&self, post: Self, key: Seq<char>, r: Outcome) -> bool {
        r == Outcome::Value(echo_delete_msg(key))
    }

    open spec fn start_post(&self, post: Self, r: Outcome) -> bool {
        r == Outcome::Value("START"@)
    }

    open spec fn abort_post(&self, post: Self, r: Outcome) -> bool {
        r == Outcome::Value("ABORT"@)
    }

    open spec fn commit_post(&self, post: Self, r: Outcome) -> bool {
        r == Outcome::Value("COMMIT"@)
    }

    fn read(&self, key: String) -> (r: HandleResult) {
        let mut msg: String = "READ: `".to_owned();
        msg.append(key.as_str());
        msg.append("`");
        HandleResult::Value(msg)
    }

    fn write(&mut self, key: String, value: String) -> (r: HandleResult) {
        let mut msg: String = "WRITE: `".to_owned();
        msg.append(key.as_str());
        msg.append("` `");
        msg.append(value.as_str());
        msg.append("`");
        HandleResult::Value(msg)
    }

    fn delete(&mut self, key: String) -> (r: HandleResult) {
        let mut msg: String = "DELETE: `".to_owned();
        msg.append(key.as_str());
        msg.append("`");
        HandleResult::Value(msg)
    }

    fn start(&mut self) -> (r: HandleResult) {
        HandleResult::Value("START".to_owned())
    }

    fn abort(&mut self) -> (r: HandleResult) {
        HandleResult::Value("ABORT".to_owned())
    }

    fn commit(&mut self) -> (r: HandleResult) {
        HandleResult::Value("COMMIT".to_owned())
    }
}

} // verus!
