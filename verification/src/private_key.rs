//! Cryptographic private keys

use crate::base64::decoded;
use crate::codec::base64_encoding;
use crate::ed25519::dalek_public_bytes;
use crate::ed25519::signatory_seed_bytes;
use crate::erase::all_zero;
use crate::erase::zeroize_bytes;
use crate::erase::zeroize_vec;
use crate::error::ErrorKind;
use crate::public_key::lemma_same_bytes_same_key;
use crate::public_key::PublicKey;
use crate::seed::Seed;
use crate::text::ascii_text;
use crate::text::lemma_ascii_text_bytes;
use crate::text::same_text;
use crate::text::string_of_ascii;
use vstd::prelude::*;
use vstd::string::StringSliceAdditionalSpecFns;
use vstd::utf8::encode_utf8;

verus! {

/// Size of an Ed25519 keypair (private + public key) in bytes
pub const ED25519_KEYPAIR_SIZE: usize = 64;

/// The name under which an Ed25519 private key is written
pub const ED25519_SCHEME: &'static str = "tendermint/PrivKeyEd25519";

/// What a Base64 text holds as an Ed25519 keypair: its 64 bytes, or why it
/// holds none
pub open spec fn keypair_in(text: Seq<u8>) -> Result<Seq<u8>, ErrorKind> {
    match decoded(text) {
        None => Err(ErrorKind::InvalidEncoding),
        Some(bytes) => if bytes.len() == 64 {
            Ok(bytes)
        } else {
            Err(ErrorKind::InvalidKeyLength)
        },
    }
}

/// What a scheme's name and a Base64 text hold as a private key: the bytes
/// of its keypair, or why they hold none
pub open spec fn private_key_in(scheme: Seq<char>, value: Seq<u8>) -> Result<
    Seq<u8>,
    ErrorKind,
> {
    if scheme == ED25519_SCHEME@ {
        keypair_in(value)
    } else {
        Err(ErrorKind::UnknownScheme)
    }
}

/// Ed25519 keypairs: 32 bytes of private key, then the 32 bytes of the
/// public key. The bytes are overwritten with zeros when the keypair is
/// dropped.
pub struct Ed25519Keypair([u8; 64]);

impl View for Ed25519Keypair {
    type V = Seq<u8>;

    closed spec fn view(&self) -> Seq<u8> {
        self.0@
    }
}

impl Ed25519Keypair {
    /// Every keypair holds 64 bytes.
    pub broadcast proof fn lemma_len(self)
        ensures
            #[trigger] self@.len() == 64,
    {
    }

    /// The keypair that holds the given bytes, if they are 64
    pub fn from_bytes(bytes: &[u8]) -> (r: Result<Ed25519Keypair, ErrorKind>)
        ensures
            match r {
                Ok(keypair) => bytes@.len() == 64 && keypair@ == bytes@,
                Err(e) => bytes@.len() != 64 && e == ErrorKind::InvalidKeyLength,
            },
    {
        if bytes.len() != ED25519_KEYPAIR_SIZE {
            return Err(ErrorKind::InvalidKeyLength);
        }
        let mut keypair = Ed25519Keypair([0u8; 64]);
        let mut i: usize = 0;
        while i < 64
            invariant
                i <= 64,
                bytes@.len() == 64,
                forall|j: int| 0 <= j < i ==> keypair.0@[j] == bytes@[j],
            decreases 64 - i,
        {
            keypair.0[i] = bytes[i];
            i += 1;
        }
        assert(keypair@ =~= bytes@);
        Ok(keypair)
    }

    /// Reads a keypair from its Base64 text. The bytes decoded on the way
    /// are overwritten with zeros before this returns.
    pub fn from_base64(text: &str) -> (r: Result<Ed25519Keypair, ErrorKind>)
        ensures
            match r {
                Ok(keypair) => keypair_in(text.spec_bytes()) == Ok::<Seq<u8>, ErrorKind>(keypair@),
                Err(e) => keypair_in(text.spec_bytes()) == Err::<Seq<u8>, ErrorKind>(e),
            },
    {
        match crate::base64::decode(text.as_bytes()) {
            Ok(mut bytes) => {
                let r = Ed25519Keypair::from_bytes(bytes.as_slice());
                zeroize_vec(&mut bytes);
                r
            },
            Err(e) => Err(e),
        }
    }

    /// Writes the keypair as Base64 text. Read back, the text gives this
    /// keypair.
    pub fn to_base64(&self) -> (text: String)
        ensures
            text@ == ascii_text(base64_encoding(self@)),
            keypair_in(encode_utf8(text@)) == Ok::<Seq<u8>, ErrorKind>(self@),
    {
        let mut encoded = crate::base64::encode(self.0.as_slice());
        let text = string_of_ascii(encoded.as_slice());
        proof {
            lemma_ascii_text_bytes(encoded@);
        }
        zeroize_vec(&mut encoded);
        text
    }

    /// Get the public key associated with this keypair: its last 32 bytes.
    ///
    /// `ed25519-dalek` reads the keypair and hands these bytes back where
    /// they encode a point of the curve. Where they do not, it reports an
    /// error, and the bytes are copied from the keypair here: this function
    /// does not fail.
    pub fn public_key(&self) -> (key: PublicKey)
        ensures
            key@ == self@.subrange(32, 64),
    {
        match dalek_public_bytes(&self.0) {
            Ok(public) => PublicKey::Ed25519(public),
            Err(_) => {
                let mut public = [0u8; 32];
                let mut i: usize = 0;
                while i < 32
                    invariant
                        i <= 32,
                        forall|j: int| 0 <= j < i ==> public@[j] == self.0@[32 + j],
                    decreases 32 - i,
                {
                    public[i] = self.0[32 + i];
                    i += 1;
                }
                assert(public@ =~= self@.subrange(32, 64));
                PublicKey::Ed25519(public)
            },
        }
    }

    /// Get the Ed25519 "seed" for this signer: the first 32 bytes of the
    /// keypair.
    pub fn to_seed(&self) -> (seed: Seed)
        ensures
            seed@ == self@.subrange(0, 32),
    {
        Seed::new(signatory_seed_bytes(&self.0).unwrap())
    }

    /// Overwrites the keypair with zeros.
    pub fn zeroize(&mut self)
        ensures
            final(self)@.len() == 64,
            all_zero(final(self)@),
        opens_invariants none
        no_unwind
    {
        zeroize_bytes(&mut self.0);
    }
}

impl Drop for Ed25519Keypair {
    /// Overwrites the keypair with zeros when it goes out of scope.
    fn drop(&mut self)
        ensures
            all_zero(final(self)@),
        opens_invariants none
        no_unwind
    {
        self.zeroize();
    }
}

/// The public key is decided by the bytes of the keypair: whatever two calls
/// of `public_key` on one keypair return is one and the same key, of 32
/// bytes.
pub proof fn lemma_public_key_determined(keypair: Ed25519Keypair, first: PublicKey, second: PublicKey)
    requires
        first@ == keypair@.subrange(32, 64),
        second@ == keypair@.subrange(32, 64),
    ensures
        first == second,
        first@.len() == 32,
{
    keypair.lemma_len();
    lemma_same_bytes_same_key(first, second);
}

/// Private keys as parsed from configuration files
pub enum PrivateKey {
    /// Ed25519 keys
    Ed25519(Ed25519Keypair),
}

impl View for PrivateKey {
    type V = Seq<u8>;

    /// The bytes of the keypair
    open spec fn view(&self) -> Seq<u8> {
        match self {
            PrivateKey::Ed25519(keypair) => keypair@,
        }
    }
}

impl PrivateKey {
    /// Get the public key associated with this private key
    pub fn public_key(&self) -> (key: PublicKey)
        ensures
            key@ == self@.subrange(32, 64),
    {
        match self {
            PrivateKey::Ed25519(private_key) => private_key.public_key(),
        }
    }

    /// If applicable, borrow the Ed25519 keypair
    pub fn ed25519_keypair(&self) -> (keypair: Option<&Ed25519Keypair>)
        ensures
            keypair == Some(&self->Ed25519_0),
    {
        match self {
            PrivateKey::Ed25519(keypair) => Some(keypair),
        }
    }

    /// The name under which the key's scheme is written
    pub fn scheme(&self) -> (name: &'static str)
        ensures
            name@ == ED25519_SCHEME@,
    {
        match self {
            PrivateKey::Ed25519(_) => ED25519_SCHEME,
        }
    }

    /// The Base64 text under which the key is written
    pub fn to_base64(&self) -> (value: String)
        ensures
            value@ == ascii_text(base64_encoding(self@)),
            private_key_in(ED25519_SCHEME@, encode_utf8(value@)) == Ok::<Seq<u8>, ErrorKind>(
                self@,
            ),
    {
        match self {
            PrivateKey::Ed25519(keypair) => keypair.to_base64(),
        }
    }

    /// Reads a private key from the name of its scheme and its Base64 text.
    pub fn from_tagged(scheme: &str, value: &str) -> (r: Result<PrivateKey, ErrorKind>)
        ensures
            match r {
                Ok(key) => private_key_in(scheme@, value.spec_bytes()) == Ok::<
                    Seq<u8>,
                    ErrorKind,
                >(key@),
                Err(e) => private_key_in(scheme@, value.spec_bytes()) == Err::<
                    Seq<u8>,
                    ErrorKind,
                >(e),
            },
    {
        if !same_text(scheme, ED25519_SCHEME) {
            return Err(ErrorKind::UnknownScheme);
        }
        match Ed25519Keypair::from_base64(value) {
            Ok(keypair) => Ok(PrivateKey::Ed25519(keypair)),
            Err(e) => Err(e),
        }
    }
}

} // verus!
