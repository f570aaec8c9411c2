//! A 128-bit digest built from a block-mixing compression function with
//! length padding, a proof-of-work search over that digest, and a block record
//! that is sealed by such a proof.
//!
//! Every executable function carries a contract over the mathematical model
//! that stands beside it: byte strings are `Seq<u8>`, the digest of a message
//! is the spec function `digest::digest`, and a proof of work is described by
//! `pow::is_proof`.

pub mod block;
pub mod compress;
pub mod digest;
pub mod encoding;
pub mod hex;
pub mod pow;

pub use crate::block::Block;
pub use crate::digest::SMCHash;
pub use crate::hex::hash_to_hex;
pub use crate::pow::PowError;
