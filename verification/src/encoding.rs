//! Base64 by way of the `base64` crate.

use base64::Engine;
use vstd::string::StringSliceAdditionalSpecFns;
use vstd::prelude::*;

verus! {

/// The standard base64 text of a sequence of bytes, with padding.
pub uninterp spec fn base64_text(bytes: Seq<u8>) -> Seq<char>;

/// Whether the base64 text of `len` bytes has a length that fits in `usize`.
pub open spec fn encodable(len: nat) -> bool {
    len / 3 * 4 + 4 <= usize::MAX
}

/// `Engine::encode` of `base64::engine::general_purpose::STANDARD`: the
/// standard base64 text with padding. The crate panics where the length of
/// the text overflows; `requires` leaves those inputs out.
#[verifier::external_body]
pub(crate) fn encode(bytes: &[u8]) -> (r: String)
    requires
        encodable(bytes@.len()),
    ensures
        r@ == base64_text(bytes@),
{
    base64::engine::general_purpose::STANDARD.encode(bytes)
}

/// The base64 text of `text`'s bytes, or `None` where it would be too long
/// to hold.
pub fn encode_text(text: &str) -> (r: Option<String>)
    ensures
        match r {
            Some(s) => encodable(text.spec_bytes().len()) && s@ == base64_text(text.spec_bytes()),
            None => !encodable(text.spec_bytes().len()),
        },
{
    let bytes = text.as_bytes();
    if bytes.len() / 3 > (usize::MAX - 4) / 4 {
        None
    } else {
        Some(encode(bytes))
    }
}

} // verus!
