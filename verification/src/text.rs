//! Text utilities relied on from the standard library.
//!
//! Protocol lines arrive as raw bytes and are decoded as UTF-8 before being
//! parsed; a line whose bytes are not valid UTF-8 is treated as the empty
//! string, which no parse accepts.

use vstd::prelude::*;

verus! {

/// What `String::from_utf8` yields on the given bytes: the decoded characters,
/// or nothing when the bytes are not valid UTF-8. The result depends on the
/// bytes alone.
pub uninterp spec fn utf8_decoded(bytes: Seq<u8>) -> Option<Seq<char>>;

/// Relies on `String::from_utf8`: decodes the bytes as UTF-8, or fails when
/// they are not valid UTF-8; the result depends on the bytes alone.
#[verifier::external_body]
fn decode_utf8(bytes: Vec<u8>) -> (r: Option<String>)
    ensures
        match r {
            Some(s) => utf8_decoded(bytes@) == Some(s@),
            None => utf8_decoded(bytes@) is None,
        },
{
    String::from_utf8(bytes).ok()
}

/// The characters a line's bytes decode to: the UTF-8 decoding, or the empty
/// string when the bytes are not valid UTF-8.
pub open spec fn decoded_or_empty(bytes: Seq<u8>) -> Seq<char> {
    match utf8_decoded(bytes) {
        Some(s) => s,
        None => Seq::empty(),
    }
}

/// Decodes a line's bytes, substituting the empty string when they are not
/// valid UTF-8 (an empty line then fails every parse downstream).
pub fn decode_line(bytes: Vec<u8>) -> (r: String)
    ensures
        r@ == decoded_or_empty(bytes@),
{
    match decode_utf8(bytes) {
        Some(s) => s,
        None => String::new(),
    }
}

/// Relies on `str`'s `PartialEq`: two string slices are equal exactly when
/// their characters are.
#[verifier::external_body]
pub(crate) fn str_eq(a: &str, b: &str) -> (r: bool)
    ensures
        r == (a@ == b@),
{
    a == b
}

} // verus!
