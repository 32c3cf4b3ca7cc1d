//! Overwriting secret bytes, by `zeroize`

use vstd::prelude::*;
use zeroize::Zeroize;

verus! {

/// Whether every byte is zero
pub open spec fn all_zero(bytes: Seq<u8>) -> bool {
    forall|i: int| 0 <= i < bytes.len() ==> #[trigger] bytes[i] == 0
}

/// `Zeroize::zeroize` of `zeroize`, on a slice of bytes: it writes a zero
/// over every byte of the slice.
#[verifier::external_body]
pub(crate) fn zeroize_bytes(bytes: &mut [u8])
    ensures
        final(bytes)@.len() == old(bytes)@.len(),
        all_zero(final(bytes)@),
    opens_invariants none
    no_unwind
{
    bytes.zeroize()
}

/// `Zeroize::zeroize` of `zeroize`, on a vector of bytes: it writes zeros
/// over all that the vector has allocated and leaves the vector empty.
#[verifier::external_body]
pub(crate) fn zeroize_vec(bytes: &mut Vec<u8>)
    ensures
        final(bytes)@.len() == 0,
{
    bytes.zeroize()
}

} // verus!
