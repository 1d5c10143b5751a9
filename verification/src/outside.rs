//! The library's border with the crates it builds on. Nothing in this file
//! is proved: each contract states what the named function of the other crate
//! does, and the rest of the library relies on it.

use std::fmt::Write;
use vstd::prelude::*;

verus! {

/// What `uuid::Uuid::parse_str` makes of a text: the identifier's 128 bits,
/// or the text of the error that it reports.
pub uninterp spec fn uuid_parse(text: Seq<char>) -> Result<u128, Seq<char>>;

/// Sixteen to the power `k`.
pub open spec fn pow16(k: nat) -> nat
    decreases k,
{
    if k == 0 {
        1
    } else {
        16 * pow16((k - 1) as nat)
    }
}

/// The hexadecimal digit that stands for `d`, in lower case.
pub open spec fn hex_digit(d: int) -> char {
    if d < 10 {
        ('0' as int + d) as char
    } else {
        ('a' as int + d - 10) as char
    }
}

/// The digit of `id` at place `k` of its 32 hexadecimal digits, the most
/// significant first.
pub open spec fn uuid_digit(id: u128, k: int) -> int {
    (id as int / (pow16((31 - k) as nat) as int)) % 16
}

/// The text that `uuid::Uuid` displays for the identifier with these bits:
/// its hexadecimal digits in lower case, in groups of 8, 4, 4, 4 and 12
/// with hyphens between them.
pub open spec fn uuid_text(id: u128) -> Seq<char> {
    Seq::new(
        36,
        |i: int|
            if i == 8 || i == 13 || i == 18 || i == 23 {
                '-'
            } else if i < 8 {
                hex_digit(uuid_digit(id, i))
            } else if i < 13 {
                hex_digit(uuid_digit(id, i - 1))
            } else if i < 18 {
                hex_digit(uuid_digit(id, i - 2))
            } else if i < 23 {
                hex_digit(uuid_digit(id, i - 3))
            } else {
                hex_digit(uuid_digit(id, i - 4))
            },
    )
}

/// What chrono writes for the instant `millis` milliseconds after the epoch,
/// in UTC, under the pattern `pattern`; `None` where chrono cannot represent
/// the instant or cannot write it under the pattern.
pub uninterp spec fn stamp_text(millis: i64, pattern: Seq<char>) -> Option<Seq<char>>;

/// What `str::to_lowercase` of the standard library makes of a text.
pub uninterp spec fn lowercase(text: Seq<char>) -> Seq<char>;

/// The version and variant bits of a random (version 4) identifier.
pub open spec fn is_random_uuid(id: u128) -> bool {
    id & 0x0000_0000_0000_f000_c000_0000_0000_0000 == 0x0000_0000_0000_4000_8000_0000_0000_0000
}

/// Calls `uuid::Uuid::parse_str` and hands back the identifier as a number
/// (`Uuid::as_u128`) or the error as its text. The result is the one that
/// `uuid_parse` names: parsing depends on the text alone.
#[verifier::external_body]
pub(crate) fn parse_uuid(text: &str) -> (r: Result<u128, String>)
    ensures
        match r {
            Ok(id) => uuid_parse(text@) == Ok::<u128, Seq<char>>(id),
            Err(e) => uuid_parse(text@) == Err::<u128, Seq<char>>(e@),
        },
{
    match uuid::Uuid::parse_str(text) {
        Ok(id) => Ok(id.as_u128()),
        Err(e) => Err(e.to_string()),
    }
}

/// Calls `uuid::Uuid::from_u128` and displays the identifier, which gives the
/// lower-case hyphenated form that `uuid_text` spells out.
#[verifier::external_body]
pub(crate) fn format_uuid(id: u128) -> (r: String)
    ensures
        r@ == uuid_text(id),
{
    uuid::Uuid::from_u128(id).to_string()
}

/// Calls `uuid::Uuid::new_v4`. The bits are random but for the version and
/// the variant, which the function sets. uuid stops the program where the
/// system's source of random numbers fails.
#[verifier::external_body]
pub(crate) fn random_uuid() -> (id: u128)
    ensures
        is_random_uuid(id),
{
    uuid::Uuid::new_v4().as_u128()
}

/// Calls `chrono::Utc::now` and reads the instant in milliseconds since the
/// epoch. Nothing is known of the value. chrono stops the program where the
/// system clock stands before 1970.
#[verifier::external_body]
pub(crate) fn current_millis() -> i64 {
    chrono::Utc::now().timestamp_millis()
}

/// Calls `chrono::DateTime::from_timestamp_millis` and writes what
/// `DateTime::format` makes of the instant under `pattern`; `None` where the
/// first call gives none, or where the writing fails, as it does for a
/// pattern that chrono does not know.
#[verifier::external_body]
pub(crate) fn format_stamp(millis: i64, pattern: &str) -> (r: Option<String>)
    ensures
        r.deep_view() == stamp_text(millis, pattern@),
{
    let at = chrono::DateTime::<chrono::Utc>::from_timestamp_millis(millis)?;
    let mut text = String::new();
    match write!(text, "{}", at.format(pattern)) {
        Ok(()) => Some(text),
        Err(_) => None,
    }
}

/// Calls `str::to_lowercase` of the standard library: the text in lower
/// case, by the rules of Unicode, which `lowercase` names.
#[verifier::external_body]
pub(crate) fn to_lowercase(text: &str) -> (r: String)
    ensures
        r@ == lowercase(text@),
{
    text.to_lowercase()
}

/// Calls `std::str::from_utf8`: the text that the bytes encode, where they
/// are valid UTF-8, and nothing where they are not.
#[verifier::external_body]
pub(crate) fn decode_text(bytes: &[u8]) -> (r: Option<String>)
    ensures
        match r {
            Some(text) => vstd::utf8::valid_utf8(bytes@) && text@ == vstd::utf8::decode_utf8(bytes@),
            None => !vstd::utf8::valid_utf8(bytes@),
        },
{
    match std::str::from_utf8(bytes) {
        Ok(text) => Some(text.to_string()),
        Err(_) => None,
    }
}

/// A JSON value of serde_json. The library carries such values along and
/// never looks inside.
#[verifier::external_type_specification]
#[verifier::external_body]
pub struct ExJsonValue(serde_json::Value);

/// `serde_json::Value` derives `Clone`: the copy equals the value that it was
/// made from.
pub assume_specification[ <serde_json::Value as Clone>::clone ](v: &serde_json::Value) -> (r:
    serde_json::Value)
    ensures
        r == *v,
;

} // verus!
