//! Base64, left to the `base64` crate, and UTF-8, left to std.

use vstd::prelude::*;
use vstd::utf8::{decode_utf8, valid_utf8};

verus! {

/// The bytes that `text` stands for in padded base64 over the standard
/// alphabet; `None` where `text` is not such an encoding.
pub uninterp spec fn base64_decoded(text: Seq<char>) -> Option<Seq<u8>>;

/// Calls `Engine::decode` on `general_purpose::STANDARD`. The contract only
/// gives the outcome its name: the same text always yields the same bytes.
#[verifier::external_body]
pub(crate) fn decode_base64(text: &str) -> (bytes: Option<Vec<u8>>)
    ensures
        bytes matches Some(b) ==> base64_decoded(text@) == Some(b@),
        bytes is None ==> base64_decoded(text@) is None,
{
    base64::Engine::decode(&base64::engine::general_purpose::STANDARD, text).ok()
}

/// Calls `String::from_utf8`, which hands back the text that the bytes
/// encode, and fails exactly where they are not valid UTF-8.
#[verifier::external_body]
pub(crate) fn text_of_utf8(bytes: Vec<u8>) -> (text: Option<String>)
    ensures
        text is Some <==> valid_utf8(bytes@),
        text matches Some(t) ==> t@ == decode_utf8(bytes@),
{
    String::from_utf8(bytes).ok()
}

} // verus!
