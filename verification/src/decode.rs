//! From the bytes of a datagram to text.

use vstd::prelude::*;
use vstd::utf8::{decode_utf8, valid_utf8};

verus! {

/// The text that lossy decoding makes of `bytes`: well-formed UTF-8 is read
/// as it stands, and each ill-formed stretch gives way to U+FFFD.
pub uninterp spec fn lossy_text(bytes: Seq<u8>) -> Seq<char>;

/// Decodes `raw` as UTF-8 without ever failing.
///
/// Trusted: `String::from_utf8_lossy` of std. Its result depends on the
/// bytes alone and is named [`lossy_text`]; for bytes that are valid UTF-8
/// it is the text they encode.
#[verifier::external_body]
pub(crate) fn decode_lossy(raw: &[u8]) -> (text: String)
    ensures
        text@ == lossy_text(raw@),
        valid_utf8(raw@) ==> text@ == decode_utf8(raw@),
{
    String::from_utf8_lossy(raw).into_owned()
}

} // verus!
