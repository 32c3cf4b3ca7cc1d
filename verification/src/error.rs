//! Errors

use vstd::prelude::*;

verus! {

/// Why a text was not accepted
#[derive(Clone, Copy, Debug, PartialEq, Eq, Structural)]
pub enum ErrorKind {
    /// The payload is not a text that the Base64 codec decodes
    InvalidEncoding,
    /// The payload decodes to another number of bytes than the scheme asks for
    InvalidKeyLength,
    /// The name of the key's scheme is not a known one
    UnknownScheme,
    /// The count of parts is not a decimal number that fits in 64 bits
    MalformedCount,
}

} // verus!
