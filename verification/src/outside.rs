//! The trusted boundary: the few outside calls the verified pipeline relies
//! on, each behind a wrapper whose contract states what the callee's source
//! or documentation promises. Everything else in this crate is verified.

use vstd::prelude::*;

use vstd::utf8::{decode_utf8, valid_utf8};

verus! {

/// Whether `http`'s header-name grammar accepts these characters. The result
/// depends on the characters alone.
pub uninterp spec fn header_name_ok(s: Seq<char>) -> bool;

/// Whether `http`'s header-value grammar accepts these characters. The result
/// depends on the characters alone.
pub uninterp spec fn header_value_ok(s: Seq<char>) -> bool;

/// Whether `http`'s URI parser accepts these characters. The result depends
/// on the characters alone.
pub uninterp spec fn uri_ok(s: Seq<char>) -> bool;

/// What `String::from_utf8_lossy` decodes these bytes to: the decoded
/// characters, with each invalid sequence replaced. The result depends on the
/// bytes alone.
pub uninterp spec fn lossy_decode(bytes: Seq<u8>) -> Seq<char>;

/// Relies on hyper's `HeaderName::from_bytes` (http's header-name parser):
/// it accepts or rejects a candidate name by its bytes alone.
#[verifier::external_body]
pub fn check_header_name(s: &str) -> (r: bool)
    ensures
        r == header_name_ok(s@),
{
    hyper::header::HeaderName::from_bytes(s.as_bytes()).is_ok()
}

/// Relies on hyper's `HeaderValue::from_str` (http's header-value parser):
/// it accepts or rejects a candidate value by its characters alone.
#[verifier::external_body]
pub fn check_header_value(s: &str) -> (r: bool)
    ensures
        r == header_value_ok(s@),
{
    hyper::header::HeaderValue::from_str(s).is_ok()
}

/// Relies on hyper's `Uri::try_from` (http's URI parser): it accepts or
/// rejects a candidate URI by its characters alone.
#[verifier::external_body]
pub fn check_uri(s: &str) -> (r: bool)
    ensures
        r == uri_ok(s@),
{
    hyper::Uri::try_from(s).is_ok()
}

/// Relies on `String::from_utf8`: it returns the decoded string exactly when
/// the bytes are valid UTF-8, and rejects them otherwise.
#[verifier::external_body]
pub fn utf8_to_string(bytes: &Vec<u8>) -> (r: Option<String>)
    ensures
        r is Some <==> valid_utf8(bytes@),
        r matches Some(s) ==> s@ == decode_utf8(bytes@),
{
    match String::from_utf8(bytes.clone()) {
        Ok(s) => Some(s),
        Err(_) => None,
    }
}

/// Relies on `String::from_utf8_lossy`: valid UTF-8 decodes unchanged, and
/// invalid sequences are replaced rather than rejected.
#[verifier::external_body]
pub fn lossy_utf8(bytes: &[u8]) -> (r: String)
    ensures
        r@ == lossy_decode(bytes@),
        valid_utf8(bytes@) ==> r@ == decode_utf8(bytes@),
{
    String::from_utf8_lossy(bytes).into_owned()
}

/// Relies on `char::from_u32`: it returns the character with this code point
/// exactly when the value is a Unicode scalar value.
#[verifier::external_body]
pub fn char_from_u32(v: u32) -> (r: Option<char>)
    ensures
        r is Some <==> (v < 0xD800 || (0xE000 <= v && v < 0x110000)),
        r matches Some(c) ==> c as u32 == v,
{
    char::from_u32(v)
}

/// Relies on `String`'s `FromIterator<char>`: the string holds exactly the
/// characters of the iterator, in order.
#[verifier::external_body]
pub fn chars_to_string(v: Vec<char>) -> (r: String)
    ensures
        r@ == v@,
{
    String::from_iter(v)
}

} // verus!
