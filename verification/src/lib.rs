//! Prefix-collision mining for hash-indexed tries.
//!
//! The library searches for 20-byte candidates whose Keccak-256 derived key
//! shares a prefix, counted in nibbles, with a target key, and chains such
//! candidates into branches that force a trie to its worst-case depth.

pub mod prefix;
pub mod keccak;
pub mod derivation;
pub mod clock;
pub mod search;
pub mod cuda_miner;
pub mod hex_text;
pub mod storage_miner;
pub mod account_miner;
pub mod initcode;
pub mod report;
