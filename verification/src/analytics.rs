//! The analytics service's answer.

use crate::error::{AppError, ErrorView};
use crate::outside::decode_text;
use vstd::prelude::*;
use vstd::string::StringExecFns;
use vstd::utf8::{decode_utf8, valid_utf8};

verus! {

/// The status with which the service answers a request that it served.
pub const STATUS_OK: u16 = 200;

/// A digit as a text; what is no digit counts as nine.
pub open spec fn digit_text(d: nat) -> Seq<char> {
    if d == 0 {
        "0"@
    } else if d == 1 {
        "1"@
    } else if d == 2 {
        "2"@
    } else if d == 3 {
        "3"@
    } else if d == 4 {
        "4"@
    } else if d == 5 {
        "5"@
    } else if d == 6 {
        "6"@
    } else if d == 7 {
        "7"@
    } else if d == 8 {
        "8"@
    } else {
        "9"@
    }
}

/// A number in decimal digits.
pub open spec fn decimal_text(n: nat) -> Seq<char>
    decreases n,
{
    if n < 10 {
        digit_text(n)
    } else {
        decimal_text(n / 10) + digit_text(n % 10)
    }
}

/// What the error says of an answer with another status than 200: the
/// status, and the body where it is text.
pub open spec fn status_message(status: u16, body: Seq<u8>) -> Seq<char> {
    if valid_utf8(body) {
        "API returned status code "@ + decimal_text(status as nat) + ": "@ + decode_utf8(body)
    } else {
        "API returned status code: "@ + decimal_text(status as nat)
    }
}

/// A digit as a text; what is no digit counts as nine.
pub fn digit(d: u16) -> (text: &'static str)
    ensures
        text@ == digit_text(d as nat),
{
    match d {
        0 => "0",
        1 => "1",
        2 => "2",
        3 => "3",
        4 => "4",
        5 => "5",
        6 => "6",
        7 => "7",
        8 => "8",
        _ => "9",
    }
}

/// `n` in decimal digits.
pub fn decimal(n: u16) -> (text: String)
    ensures
        text@ == decimal_text(n as nat),
    decreases n,
{
    if n < 10 {
        String::from_str(digit(n))
    } else {
        decimal(n / 10).concat(digit(n % 10))
    }
}

/// Reads the service's answer: the body where the status is 200, else an
/// error that names the status.
pub fn check_analytics_response(status: u16, body: Vec<u8>) -> (r: Result<Vec<u8>, AppError>)
    ensures
        match r {
            Ok(bytes) => status == STATUS_OK && bytes@ == body@,
            Err(e) => status != STATUS_OK && e@ == ErrorView::Api(status_message(status, body@)),
        },
{
    if status == STATUS_OK {
        return Ok(body);
    }
    let code = decimal(status);
    match decode_text(body.as_slice()) {
        Some(text) => Err(
            AppError::Api(
                String::from_str("API returned status code ").concat(code.as_str()).concat(
                    ": ",
                ).concat(text.as_str()),
            ),
        ),
        None => Err(
            AppError::Api(String::from_str("API returned status code: ").concat(code.as_str())),
        ),
    }
}

} // verus!
