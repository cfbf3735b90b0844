//! An interactive key/value store with pluggable storage backends.
//!
//! Every backend implements the one storage contract ([`store::Store`]):
//! six operations (read, write, delete, start, abort, commit), each of
//! which returns a [`enums::HandleResult`].  The hard part is the nested
//! transaction semantics, realised twice: by an in-memory stack of
//! snapshots ([`copy_store::CopyStore`]) and by savepoints of an embedded
//! relational engine ([`skweel_store::SkweelStore`]).  Both are specified
//! against the same abstract model, a stack of key/value maps
//! ([`model`]), and proved to agree with each other.

pub mod copy_store;
pub mod dummy_store;
pub mod enums;
pub mod kv_map;
pub mod laws;
pub mod model;
pub mod parser;
pub mod simple_store;
pub mod skweel_store;
pub mod store;
