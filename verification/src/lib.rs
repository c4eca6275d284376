//! An in-memory, space-scoped key-value store with a deterministic binary
//! wire protocol and crash recovery by replay of an append-only command log.

use vstd::prelude::*;

pub mod aof;
pub mod client;
pub mod codec;
pub mod engine;
pub mod frame;
pub mod error;
pub mod hashed_key;
pub mod proto;
pub mod settings;
pub mod store;

verus! {

/// Largest value, in bytes, that `Set` accepts.
pub const MAX_VALUE_LEN: usize = 1048576;

/// Largest space name, in bytes, that `CreateSpace` accepts.
pub const MAX_SPACE_NAME_LEN: usize = 255;

/// Largest command frame a server accepts from a client.
pub const MAX_COMMAND_FRAME_LEN: u32 = 1048576;

/// Largest response frame a client accepts from a server.
pub const MAX_RESPONSE_FRAME_LEN: u32 = 16777216;

} // verus!
