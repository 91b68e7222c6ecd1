//! Base64 and UTF-8.

use vstd::prelude::*;

verus! {

/// The text that base64 writes bytes in, as
/// `base64::engine::general_purpose::STANDARD` encodes them.
pub uninterp spec fn base64_text(b: Seq<u8>) -> Seq<char>;

/// The bytes that a base64 text stands for, as
/// `base64::engine::general_purpose::STANDARD` decodes it; none where it is no
/// base64.
pub uninterp spec fn base64_bytes(s: Seq<char>) -> Option<Seq<u8>>;

/// Calls `base64::Engine::encode` with the standard alphabet and padding. The
/// text decodes to the bytes again; which it is is only named. The text must fit
/// into memory.
#[verifier::external_body]
pub(crate) fn base64_encode(b: &[u8]) -> (r: String)
    requires
        (b@.len() + 2) / 3 * 4 <= isize::MAX,
    ensures
        r@ == base64_text(b@),
        base64_bytes(r@) == Some(b@),
{
    base64::Engine::encode(&base64::engine::general_purpose::STANDARD, b)
}

/// Calls `base64::Engine::decode` with the standard alphabet and padding. Which
/// texts it takes, and what they stand for, is only named.
#[verifier::external_body]
pub(crate) fn base64_decode(s: &str) -> (r: Option<Vec<u8>>)
    ensures
        match r {
            Some(b) => base64_bytes(s@) == Some(b@),
            None => base64_bytes(s@) is None,
        },
{
    base64::Engine::decode(&base64::engine::general_purpose::STANDARD, s).ok()
}

/// Calls `String::from_utf8`: the text of bytes that are UTF-8, and nothing for
/// others.
#[verifier::external_body]
pub(crate) fn from_utf8(b: Vec<u8>) -> (r: Option<String>)
    ensures
        match r {
            Some(s) => vstd::utf8::valid_utf8(b@) && s@ == vstd::utf8::decode_utf8(b@),
            None => !vstd::utf8::valid_utf8(b@),
        },
{
    String::from_utf8(b).ok()
}

/// The text that a base64 text stands for.
pub open spec fn base64_utf8(bytes: Option<Seq<u8>>) -> Option<Seq<char>> {
    match bytes {
        Some(b) if vstd::utf8::valid_utf8(b) => Some(vstd::utf8::decode_utf8(b)),
        _ => None,
    }
}

} // verus!
