//! A deliberately weak 32-byte digest, and the generator of messages that
//! collide under it.
//!
//! The digest keeps 32 independent state bytes. Each block of 32 message bytes
//! is folded into the state position by position, with no mixing between
//! positions and no commitment to the message length beyond one marker byte in
//! a short final block. `model` states what the digest and the generator
//! compute, `hasher` and `attack` compute it, `hex` writes a digest out as
//! text, and `laws` proves what follows:
//! the compression step is plain addition modulo 256, so a message repeated 256
//! times always digests to the initial state.

pub mod model;
pub mod hasher;
pub mod attack;
pub mod hex;
pub mod laws;

pub use crate::attack::xor_hash_attack;
pub use crate::hex::to_hex;
pub use crate::hasher::{next_block, xor_hash, XorHasher};
pub use crate::model::{BLOCK_SIZE, HASH_SIZE};
