//! Public keys

use vstd::prelude::*;
use vstd::std_specs::cmp::PartialEqSpecImpl;

verus! {

/// Size of an Ed25519 public key in bytes
pub const ED25519_PUBLIC_KEY_SIZE: usize = 32;

/// The public key of a node, by signature scheme
#[derive(Clone, Copy, Debug, Eq)]
pub enum PublicKey {
    /// Ed25519 keys
    Ed25519([u8; 32]),
}

impl View for PublicKey {
    type V = Seq<u8>;

    open spec fn view(&self) -> Seq<u8> {
        match self {
            PublicKey::Ed25519(bytes) => bytes@,
        }
    }
}

impl PublicKey {
    /// The Ed25519 public key that holds the given bytes, if they are 32
    pub fn from_raw_ed25519(bytes: &[u8]) -> (key: Option<PublicKey>)
        ensures
            key is Some <==> bytes@.len() == 32,
            key matches Some(k) ==> k@ == bytes@,
    {
        if bytes.len() != ED25519_PUBLIC_KEY_SIZE {
            return None;
        }
        let mut raw = [0u8; 32];
        let mut i: usize = 0;
        while i < 32
            invariant
                i <= 32,
                bytes@.len() == 32,
                forall|j: int| 0 <= j < i ==> raw@[j] == bytes@[j],
            decreases 32 - i,
        {
            raw[i] = bytes[i];
            i += 1;
        }
        assert(raw@ =~= bytes@);
        Some(PublicKey::Ed25519(raw))
    }

    /// The bytes of the key
    pub fn as_bytes(&self) -> (bytes: &[u8])
        ensures
            bytes@ == self@,
    {
        match self {
            PublicKey::Ed25519(raw) => raw.as_slice(),
        }
    }
}

impl PartialEq for PublicKey {
    fn eq(&self, other: &PublicKey) -> (r: bool) {
        let a = self.as_bytes();
        let b = other.as_bytes();
        let mut i: usize = 0;
        while i < 32
            invariant
                i <= 32,
                a@ == self@,
                b@ == other@,
                a@.len() == 32,
                b@.len() == 32,
                forall|j: int| 0 <= j < i ==> a@[j] == b@[j],
            decreases 32 - i,
        {
            if a[i] != b[i] {
                return false;
            }
            i += 1;
        }
        assert(a@ =~= b@);
        true
    }
}

impl PartialEqSpecImpl for PublicKey {
    open spec fn obeys_eq_spec() -> bool {
        true
    }

    open spec fn eq_spec(&self, other: &PublicKey) -> bool {
        self@ == other@
    }
}

/// Two public keys with the same bytes are the same key.
pub proof fn lemma_same_bytes_same_key(a: PublicKey, b: PublicKey)
    requires
        a@ == b@,
    ensures
        a == b,
{
    assert(a->Ed25519_0 =~= b->Ed25519_0);
}

} // verus!
