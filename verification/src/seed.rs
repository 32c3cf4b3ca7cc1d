//! Ed25519 seeds

use crate::erase::all_zero;
use crate::erase::zeroize_bytes;
use crate::private_key::Ed25519Keypair;
use vstd::prelude::*;
use vstd::std_specs::convert::FromSpecImpl;

verus! {

/// Size of an Ed25519 seed in bytes
pub const SEED_SIZE: usize = 32;

/// The secret from which an Ed25519 signer derives its scalar and its nonce
/// prefix. Its bytes are overwritten with zeros when it is dropped.
pub struct Seed([u8; 32]);

impl View for Seed {
    type V = Seq<u8>;

    closed spec fn view(&self) -> Seq<u8> {
        self.0@
    }
}

impl Seed {
    /// The seed that holds the given bytes
    pub fn new(bytes: [u8; 32]) -> (seed: Seed)
        ensures
            seed@ == bytes@,
    {
        Seed(bytes)
    }

    /// The secret bytes of the seed
    pub fn as_secret_slice(&self) -> (bytes: &[u8])
        ensures
            bytes@ == self@,
    {
        self.0.as_slice()
    }

    /// Overwrites the seed with zeros.
    pub fn zeroize(&mut self)
        ensures
            final(self)@.len() == 32,
            all_zero(final(self)@),
        opens_invariants none
        no_unwind
    {
        zeroize_bytes(&mut self.0);
    }
}

/// Two seeds with the same bytes are the same seed.
pub proof fn lemma_same_bytes_same_seed(a: Seed, b: Seed)
    requires
        a@ == b@,
    ensures
        a == b,
{
    assert(a.0 =~= b.0);
}

/// The seed that holds the first 32 bytes of a keypair
pub open spec fn seed_of(keypair: Seq<u8>) -> Seed {
    choose|seed: Seed| seed@ == keypair.subrange(0, 32)
}

impl<'a> From<&'a Ed25519Keypair> for Seed {
    /// The seed of the keypair
    fn from(keypair: &'a Ed25519Keypair) -> (seed: Seed) {
        let seed = keypair.to_seed();
        proof {
            lemma_same_bytes_same_seed(seed, seed_of(keypair@));
        }
        seed
    }
}

impl<'a> FromSpecImpl<&'a Ed25519Keypair> for Seed {
    open spec fn obeys_from_spec() -> bool {
        true
    }

    open spec fn from_spec(keypair: &'a Ed25519Keypair) -> Seed {
        seed_of(keypair@)
    }
}

impl Drop for Seed {
    /// Overwrites the seed with zeros when it goes out of scope.
    fn drop(&mut self)
        ensures
            all_zero(final(self)@),
        opens_invariants none
        no_unwind
    {
        self.zeroize();
    }
}

} // verus!
