//! Base64 text, encoded and decoded by `subtle-encoding`
//!
//! The codec reads a text in groups of four symbols and stops at the first
//! `=` of the last group. It is called only on texts whose last group it can
//! read and whose length it can multiply by three: the others are refused
//! here, before the call.

use crate::codec::base64_decoding;
use crate::codec::base64_encoding;
use crate::codec::codec_decode_to_slice;
use crate::codec::codec_encode;
use crate::erase::zeroize_vec;
use crate::error::ErrorKind;
use crate::text::all_ascii;
use vstd::prelude::*;

verus! {

/// The character `=`, which fills the last group of an encoded text
pub const PAD: u8 = 0x3d;

/// Whether the byte is one of the 64 symbols: a letter, a digit, `+` or `/`
pub open spec fn is_symbol(b: u8) -> bool {
    ||| 0x41 <= b <= 0x5a
    ||| 0x61 <= b <= 0x7a
    ||| 0x30 <= b <= 0x39
    ||| b == 0x2b
    ||| b == 0x2f
}

/// Where the last group of a text of `len` bytes begins, for `len` above 0.
/// The last group holds one to four bytes.
pub open spec fn last_group_start(len: int) -> int {
    (len - 1) / 4 * 4
}

/// Whether a text is empty, or its last group begins with a byte other than
/// `=` and holds nothing but `=` after its first `=`
pub open spec fn framed(text: Seq<u8>) -> bool {
    text.len() > 0 ==> {
        &&& text[last_group_start(text.len() as int)] != PAD
        &&& forall|i: int, j: int|
            last_group_start(text.len() as int) <= i <= j < text.len() && #[trigger] text[i] == PAD
                ==> #[trigger] text[j] == PAD
    }
}

/// Whether three times the length of the text fits in `usize`, as the
/// codec's arithmetic needs
pub open spec fn fits(text: Seq<u8>) -> bool {
    text.len() * 3 <= usize::MAX
}

/// The bytes that a text stands for: those that the codec decodes it to,
/// where the text is framed, fits and the codec accepts it
pub open spec fn decoded(text: Seq<u8>) -> Option<Seq<u8>> {
    if framed(text) && fits(text) {
        base64_decoding(text)
    } else {
        None
    }
}

/// The length of the text that `n` bytes are encoded to
pub open spec fn encoded_len(n: nat) -> nat {
    4 * ((n + 2) / 3)
}

/// The number of `=` at the end of the text that `n` bytes are encoded to
pub open spec fn padding_len(n: nat) -> nat {
    if n % 3 == 1 {
        2
    } else if n % 3 == 2 {
        1
    } else {
        0
    }
}

/// Whether a text has the shape of `n` encoded bytes: four symbols for every
/// three bytes begun, with `=` in place of the last symbols that no byte
/// reaches
pub open spec fn padded_form(text: Seq<u8>, n: nat) -> bool {
    &&& text.len() == encoded_len(n)
    &&& forall|i: int|
        0 <= i < text.len() ==> if i < text.len() - padding_len(n) {
            is_symbol(#[trigger] text[i])
        } else {
            text[i] == PAD
        }
}

/// A text in the shape of encoded bytes is framed, and all of it is ASCII.
pub proof fn lemma_padded_form_is_framed(text: Seq<u8>, n: nat)
    requires
        padded_form(text, n),
    ensures
        framed(text),
        all_ascii(text),
{
    if text.len() > 0 {
        let start = last_group_start(text.len() as int);
        assert(start == text.len() - 4);
        assert(padding_len(n) <= 2);
        assert(is_symbol(text[start]));
        assert forall|i: int, j: int|
            start <= i <= j < text.len() && #[trigger] text[i] == PAD implies #[trigger] text[j]
            == PAD by {
            if i < text.len() - padding_len(n) {
                assert(is_symbol(text[i]));
            }
        }
    }
    assert forall|i: int| 0 <= i < text.len() implies #[trigger] text[i] < 128 by {
        if i < text.len() - padding_len(n) {
            assert(is_symbol(text[i]));
        }
    }
}

/// Whether the text is framed
pub fn is_framed(text: &[u8]) -> (ok: bool)
    ensures
        ok == framed(text@),
{
    let len = text.len();
    if len == 0 {
        return true;
    }
    let start = (len - 1) / 4 * 4;
    if text[start] == PAD {
        return false;
    }
    let mut j: usize = start + 1;
    let mut padded = false;
    while j < len
        invariant
            start < j <= len,
            len == text@.len(),
            start == last_group_start(len as int),
            text@[start as int] != PAD,
            padded <==> exists|i: int| start <= i < j && text@[i] == PAD,
            forall|i: int, k: int|
                start <= i <= k < j && #[trigger] text@[i] == PAD ==> #[trigger] text@[k] == PAD,
        decreases len - j,
    {
        if text[j] == PAD {
            padded = true;
        } else if padded {
            let ghost i = choose|i: int| start <= i < j && text@[i] == PAD;
            assert(text@[i] == PAD && text@[j as int] != PAD);
            return false;
        }
        j += 1;
    }
    true
}

/// Decodes a Base64 text. The buffer that the codec writes to is handed
/// back, cut to the bytes decoded, or overwritten with zeros where the codec
/// reports an error.
pub fn decode(text: &[u8]) -> (r: Result<Vec<u8>, ErrorKind>)
    ensures
        match r {
            Ok(bytes) => decoded(text@) == Some(bytes@),
            Err(e) => e == ErrorKind::InvalidEncoding && decoded(text@) is None,
        },
{
    if text.len() > usize::MAX / 3 || !is_framed(text) {
        return Err(ErrorKind::InvalidEncoding);
    }
    let mut buffer: Vec<u8> = vec![0u8; text.len()];
    match codec_decode_to_slice(text, buffer.as_mut_slice()) {
        Ok(n) => {
            buffer.truncate(n);
            Ok(buffer)
        },
        Err(_) => {
            zeroize_vec(&mut buffer);
            Err(ErrorKind::InvalidEncoding)
        },
    }
}

/// Encodes bytes as Base64 text. The text is decoded to the same bytes.
pub fn encode(bytes: &[u8]) -> (text: Vec<u8>)
    requires
        bytes@.len() * 4 <= usize::MAX,
    ensures
        text@ == base64_encoding(bytes@),
        padded_form(text@, bytes@.len()),
        all_ascii(text@),
        decoded(text@) == Some(bytes@),
{
    let text = codec_encode(bytes);
    proof {
        lemma_padded_form_is_framed(text@, bytes@.len());
    }
    text
}

} // verus!
