//! Client-side core for a ledger node: schema interpretation, call encoding,
//! storage-key derivation and the decisions of the transaction submission
//! protocol.

pub mod assoc;
pub mod codec;
pub mod error;
pub mod event_arg;
pub mod events;
pub mod extrinsic;
pub mod frame;
pub mod hashing;
pub mod interpret;
pub mod metadata;
pub mod ordinals;
pub mod rpc;
pub mod schema;
pub mod storage;
pub mod submission;
pub mod text;
