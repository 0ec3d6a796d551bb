//! Base64 with the standard alphabet and padding, as the `base64` crate
//! provides it. The calls into the crate are not proved: each states what
//! the crate's engine is relied on to do.

use base64::prelude::BASE64_STANDARD;
use base64::DecodeError;
use base64::Engine;
use vstd::prelude::*;
use vstd::utf8::*;

verus! {

/// The text that `base64::Engine::encode` of the standard engine produces
/// for `input`.
pub uninterp spec fn base64_text(input: Seq<u8>) -> Seq<char>;

/// The bytes that `base64::Engine::decode` of the standard engine produces
/// for `input`, or `None` where it reports a `DecodeError`.
pub uninterp spec fn base64_bytes(input: Seq<u8>) -> Option<Seq<u8>>;

/// The error of `base64::Engine::decode`.
#[verifier::external_type_specification]
#[verifier::external_body]
pub struct ExDecodeError(DecodeError);

/// Input lengths from here on give an encoded text that is larger than a
/// buffer can be.
pub open spec fn encode_limit() -> int {
    3 * (isize::MAX as int / 4)
}

/// Whether an input of `len` bytes is short enough for the encoder.
pub fn within_encode_limit(len: usize) -> (b: bool)
    ensures
        b == (len < encode_limit()),
{
    len < 3 * (usize::MAX / 2 / 4)
}

/// Calls `base64::Engine::encode` on the standard engine.
///
/// Relied on: the result is a function of the input bytes alone, consists
/// of ASCII characters only, and is decoded by the same engine to the bytes
/// it was made from. The engine panics when the encoded size overflows or
/// is more than a buffer can hold, which `requires` rules out.
#[verifier::external_body]
pub(crate) fn encode_standard(input: &[u8]) -> (text: String)
    requires
        input@.len() < encode_limit(),
    ensures
        text@ == base64_text(input@),
        is_ascii_chars(text@),
        base64_bytes(encode_utf8(text@)) == Some(input@),
{
    BASE64_STANDARD.encode(input)
}

/// Calls `base64::Engine::decode` on the standard engine.
///
/// Relied on: whether the input is accepted, and the bytes that come out,
/// are a function of the input bytes alone.
#[verifier::external_body]
pub(crate) fn decode_standard(input: &[u8]) -> (r: Result<Vec<u8>, DecodeError>)
    ensures
        match r {
            Ok(bytes) => base64_bytes(input@) == Some(bytes@),
            Err(_) => base64_bytes(input@) is None,
        },
{
    BASE64_STANDARD.decode(input)
}

/// Calls the `Display` implementation of `base64::DecodeError`. Nothing is
/// claimed of the text.
#[verifier::external_body]
pub(crate) fn decode_error_text(error: &DecodeError) -> (text: String) {
    error.to_string()
}

} // verus!
