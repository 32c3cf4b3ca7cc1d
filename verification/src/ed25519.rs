//! The calls into `ed25519-dalek` and `signatory`

use vstd::prelude::*;

verus! {

/// The error type of `ed25519-dalek`
#[verifier::external_type_specification]
#[verifier::external_body]
pub struct ExSignatureError(ed25519_dalek::SignatureError);

/// `Keypair::from_bytes` of `ed25519-dalek`, and the bytes that
/// `PublicKey::to_bytes` gives of the public key of the keypair returned.
/// Of 64 bytes it keeps the last 32 as the public key, unchanged. It returns
/// an error where they are not the encoding of a point of the curve; when it
/// does so is not stated here.
#[verifier::external_body]
pub(crate) fn dalek_public_bytes(keypair: &[u8; 64]) -> (r: Result<
    [u8; 32],
    ed25519_dalek::SignatureError,
>)
    ensures
        r matches Ok(public) ==> public@ == keypair@.subrange(32, 64),
{
    match ed25519_dalek::Keypair::from_bytes(keypair) {
        Ok(pair) => Ok(pair.public.to_bytes()),
        Err(e) => Err(e),
    }
}

/// `Seed::from_keypair` of `signatory`, and the bytes of the seed that it
/// returns. Given 64 bytes it always returns a seed, which holds the first
/// 32 of them.
#[verifier::external_body]
pub(crate) fn signatory_seed_bytes(keypair: &[u8; 64]) -> (r: Option<[u8; 32]>)
    ensures
        r is Some,
        r matches Some(seed) ==> seed@ == keypair@.subrange(0, 32),
{
    match signatory::ed25519::Seed::from_keypair(keypair) {
        Some(seed) => Some(seed.0),
        None => None,
    }
}

} // verus!
