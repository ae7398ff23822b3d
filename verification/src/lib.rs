//! Two authenticated trees over SHA-256 digests, each of 256 levels.
//!
//! [`smt`] holds the content-addressed tree, which stores the leaf digest of an account
//! under the digest of its public key; [`smt_solana`] holds the position-addressed tree,
//! which stores the leaf digest of a transfer under the index of its arrival. Both
//! rewrite one path per insert and keep its top as their root.

pub mod digest;
pub mod digest_map;
pub mod record;
pub mod smt;
pub mod smt_solana;
