//! Trusted boundary to the outside crates and the std functions vstd gives
//! no specification to: the random token generator behind login codes and
//! session identifiers, and the UTF-8 check behind decoding wire strings.
use vstd::prelude::*;

use vstd::utf8::{encode_utf8, valid_utf8};

verus! {

/// Characters of the URL-safe alphabet that minted tokens are drawn from:
/// letters, digits, `_` and `-`.
pub open spec fn is_token_char(c: char) -> bool {
    ('0' <= c && c <= '9') || ('a' <= c && c <= 'z') || ('A' <= c && c <= 'Z') || c == '_' || c
        == '-'
}

/// Relies on nanoid::format over nanoid::alphabet::SAFE: the id handed back
/// holds exactly 21 characters, each drawn from that URL-safe alphabet. The
/// id is random; nothing relates two calls.
#[verifier::external_body]
pub(crate) fn mint_token() -> (r: String)
    ensures
        r@.len() == 21,
        forall|i: int| 0 <= i < r@.len() ==> is_token_char(#[trigger] r@[i]),
{
    nanoid::format(nanoid::rngs::default, &nanoid::alphabet::SAFE, 21)
}

/// Relies on String::from_utf8: it succeeds exactly on valid UTF-8 input,
/// and the returned string is the one those bytes encode.
#[verifier::external_body]
pub(crate) fn string_from_utf8(bytes: Vec<u8>) -> (r: Option<String>)
    ensures
        (r is Some) <==> valid_utf8(bytes@),
        r matches Some(s) ==> encode_utf8(s@) =~= bytes@,
{
    String::from_utf8(bytes).ok()
}

/// The JSON codec's error type, declared so it can stand in signatures;
/// the library never inspects it beyond mapping it to its own error.
#[verifier::external_type_specification]
#[verifier::external_body]
pub struct ExJsonError(serde_json::Error);

impl From<serde_json::Error> for crate::BackendFnError {
    /// Any JSON failure reads as a parse failure, as the codec's caller
    /// cannot act on finer detail.
    fn from(value: serde_json::Error) -> (r: Self) {
        crate::BackendFnError::JsonParse
    }
}

impl vstd::std_specs::convert::FromSpecImpl<serde_json::Error> for crate::BackendFnError {
    open spec fn obeys_from_spec() -> bool {
        true
    }

    open spec fn from_spec(value: serde_json::Error) -> Self {
        crate::BackendFnError::JsonParse
    }
}

} // verus!
