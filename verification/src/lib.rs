//! Signing keys of a node and the header of a block's part set.
//!
//! A private key is read from a tagged pair of texts, the second of which is
//! the Base64 form of a 64-byte Ed25519 keypair. The keypair answers for its
//! public key and its seed, and its bytes are overwritten with zeros when it
//! is erased or dropped. A parts header pairs a count of parts with a hash
//! and is ordered by the count first.

pub mod base64;
pub mod block;
pub mod codec;
pub mod ed25519;
pub mod erase;
pub mod error;
pub mod hash;
pub mod private_key;
pub mod public_key;
pub mod seed;
pub mod serializers;
pub mod text;

pub use crate::error::ErrorKind;
