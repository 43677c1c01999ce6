//! Small services of the standard library and of the header types.
use vstd::prelude::*;
use vstd::utf8::{decode_utf8, encode_utf8, valid_utf8};

verus! {

/// A text in quotes, with what cannot be printed escaped.
pub uninterp spec fn quoted(s: Seq<char>) -> Seq<char>;

/// Bytes that are not UTF-8 as text, with replacement characters.
pub uninterp spec fn lossy_text(bytes: Seq<u8>) -> Seq<char>;

/// The `Debug` form of a string: quoted and escaped.
#[verifier::external_body]
pub(crate) fn quote(s: &str) -> (r: String)
    ensures
        r@ == quoted(s@),
{
    format!("{s:?}")
}

/// Bytes as text: decoded where they are UTF-8, else with replacement characters.
pub open spec fn text_of_bytes(bytes: Seq<u8>) -> Seq<char> {
    if valid_utf8(bytes) {
        decode_utf8(bytes)
    } else {
        lossy_text(bytes)
    }
}

/// `String::from_utf8_lossy` decodes valid UTF-8, and puts replacement characters for what is
/// not valid in other bytes.
#[verifier::external_body]
pub(crate) fn decode_lossy(bytes: &[u8]) -> (r: String)
    ensures
        valid_utf8(bytes@) ==> r@ == decode_utf8(bytes@),
        !valid_utf8(bytes@) ==> r@ == lossy_text(bytes@),
{
    String::from_utf8_lossy(bytes).into_owned()
}

/// A byte that may stand in a header value.
pub open spec fn header_byte(b: u8) -> bool {
    b >= 32 && b != 127 || b == 9
}

/// `HeaderValue::from_str` takes a text whose bytes may all stand in a header value, and holds
/// these bytes; it refuses any other.
#[verifier::external_body]
pub(crate) fn header_value(s: &str) -> (r: Option<Vec<u8>>)
    ensures
        r is Some <==> forall|i: int|
            0 <= i < encode_utf8(s@).len() ==> header_byte(#[trigger] encode_utf8(s@)[i]),
        r matches Some(v) ==> v@ == encode_utf8(s@),
{
    axum::http::HeaderValue::from_str(s).ok().map(|v| v.as_bytes().to_vec())
}

} // verus!
