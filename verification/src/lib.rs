//! Proof-of-work search over a bounded range of nonces.
//!
//! A block template (previous hash, payout address, merkle root, timestamp,
//! difficulty) and a nonce are laid out as a fixed sequence of bytes. The
//! SHA-256 digest of those bytes, written as lowercase hexadecimal text, is
//! held against a difficulty predicate. [`mine_range`] walks a range of nonces
//! and reports the first one whose digest passes, together with the lowest
//! digest that it saw; [`build_block_content`] lays out a single block.
//!
//! Hexadecimal and base58 decoding and the digest come from the `hex`, `bs58`
//! and `sha2` crates. What is assumed of them is stated where they are called:
//! in `encoding`, `address` and `digest`. Everything else is verified.

pub mod address;
pub mod block;
pub mod difficulty;
pub mod digest;
pub mod encoding;
pub mod error;
pub mod order;
pub mod search;

pub use crate::address::string_to_bytes;
pub use crate::block::{build_block_content, encode_block};
pub use crate::difficulty::{check_difficulty, Difficulty};
pub use crate::error::{HexField, MinerError};
pub use crate::search::{mine_range, search_range, MinerResult};
