//! An embedded, single-node transactional key-value store.
//!
//! Tables map signed 64-bit keys to opaque byte values. Writes are staged in a
//! transaction and reach the committed store only when the transaction
//! validates at commit. Commands and responses travel in length-prefixed
//! frames; the payload encoding itself is left to the embedding program.

pub mod db;
pub mod error;
pub mod executor;
pub mod frame;
pub mod laws;
pub mod model;
pub mod protocol;
pub mod session;
pub mod store;
pub mod table;
pub mod txn;
