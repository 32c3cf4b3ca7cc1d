//! The calls into `subtle-encoding`

use crate::base64::fits;
use crate::base64::framed;
use crate::base64::padded_form;
use subtle_encoding::Encoding;
use vstd::prelude::*;

verus! {

/// The error type of `subtle-encoding`
#[verifier::external_type_specification]
#[verifier::external_body]
pub struct ExCodecError(subtle_encoding::Error);

/// What `Base64::decode_to_slice` of `subtle-encoding` decodes a text to:
/// the bytes that it writes, or `None` where it reports an error. It stands
/// for the codec's answer on the texts that meet [`framed`] and [`fits`].
pub uninterp spec fn base64_decoding(text: Seq<u8>) -> Option<Seq<u8>>;

/// The text that `Base64::encode` of `subtle-encoding` encodes bytes to
pub uninterp spec fn base64_encoding(bytes: Seq<u8>) -> Seq<u8>;

/// `Base64::decode_to_slice` of `subtle-encoding`, on a framed text that
/// fits and a buffer no shorter than the text. It writes the decoded bytes
/// to the front of the buffer and returns their number, or it returns the
/// codec's error; what the buffer then holds is not stated.
///
/// On a text that is not framed the codec would count down past zero or
/// pass over the bytes that follow a `=`; on one that does not fit, its
/// length arithmetic would overflow. It refuses a buffer shorter than the
/// decoded bytes, which are fewer than the text's. Such texts and buffers
/// are left out.
#[verifier::external_body]
pub(crate) fn codec_decode_to_slice(text: &[u8], buffer: &mut [u8]) -> (r: Result<
    usize,
    subtle_encoding::Error,
>)
    requires
        framed(text@),
        fits(text@),
        old(buffer)@.len() >= text@.len(),
    ensures
        final(buffer)@.len() == old(buffer)@.len(),
        r matches Ok(n) ==> n <= final(buffer)@.len() && base64_decoding(text@) == Some(
            final(buffer)@.subrange(0, n as int),
        ),
        r is Err ==> base64_decoding(text@) is None,
{
    subtle_encoding::Base64::default().decode_to_slice(text, buffer)
}

/// `Base64::encode` of `subtle-encoding`, on bytes whose number the codec
/// can multiply by four. The text it returns has four symbols for every
/// three bytes begun, ends in as many `=` as the last three lack bytes, and
/// is decoded by the same codec to the bytes given.
#[verifier::external_body]
pub(crate) fn codec_encode(bytes: &[u8]) -> (text: Vec<u8>)
    requires
        bytes@.len() * 4 <= usize::MAX,
    ensures
        text@ == base64_encoding(bytes@),
        padded_form(text@, bytes@.len()),
        base64_decoding(text@) == Some(bytes@),
{
    subtle_encoding::Base64::default().encode(bytes)
}

} // verus!
