//! Identifier parsing and formatting, through the `uuid` crate.
//!
//! Identifiers are carried as their 128-bit value (`Uuid::as_u128`).

use vstd::prelude::*;

verus! {

/// The value `uuid::Uuid::parse_str` gives for a text, if it accepts it.
pub uninterp spec fn uuid_parse(s: Seq<char>) -> Option<u128>;

/// `16^n`.
pub open spec fn pow16(n: nat) -> nat
    decreases n,
{
    if n == 0 {
        1
    } else {
        16 * pow16((n - 1) as nat)
    }
}

/// The lower-case hexadecimal digit of `d` (`0 <= d < 16`).
pub open spec fn hex_char(d: int) -> char {
    if d < 10 {
        (48 + d) as char
    } else {
        (87 + d) as char
    }
}

/// Digit `k` (0 to 31, most significant first) of the 32 hexadecimal
/// digits of `u`.
pub open spec fn nibble(u: u128, k: int) -> int {
    (u as int / pow16((31 - k) as nat) as int) % 16
}

/// The digit shown at position `i` of the hyphenated form, which has
/// hyphens at 8, 13, 18 and 23.
pub open spec fn digit_at(i: int) -> int {
    if i < 8 {
        i
    } else if i < 13 {
        i - 1
    } else if i < 18 {
        i - 2
    } else if i < 23 {
        i - 3
    } else {
        i - 4
    }
}

/// The hyphenated lower-case spelling `Uuid::to_string` gives: the 32
/// hexadecimal digits of the value, most significant first, in groups
/// of 8, 4, 4, 4 and 12 joined by `-`.
pub open spec fn uuid_hyphenated(u: u128) -> Seq<char> {
    Seq::new(
        36,
        |i: int|
            if i == 8 || i == 13 || i == 18 || i == 23 {
                '-'
            } else {
                hex_char(nibble(u, digit_at(i)))
            },
    )
}

/// Calls `uuid::Uuid::parse_str` on the text and returns the parsed
/// value; the contract only names the result (`uuid_parse`), which
/// depends on the text alone.
#[verifier::external_body]
pub(crate) fn parse_uuid(s: &Vec<char>) -> (r: Option<u128>)
    ensures
        r == uuid_parse(s@),
{
    let text: String = s.iter().collect();
    match uuid::Uuid::parse_str(&text) {
        Ok(u) => Some(u.as_u128()),
        Err(_) => None,
    }
}

/// Calls `Uuid::to_string` on `Uuid::from_u128(u)`: the hyphenated
/// lower-case form of the value, as `uuid_hyphenated` spells it out.
#[verifier::external_body]
pub(crate) fn uuid_to_string(u: u128) -> (r: String)
    ensures
        r@ == uuid_hyphenated(u),
{
    uuid::Uuid::from_u128(u).to_string()
}

/// Calls `uuid::Uuid::new_v4`: a random identifier; nothing is known
/// of its value.
#[verifier::external_body]
pub(crate) fn fresh_id() -> (r: u128) {
    uuid::Uuid::new_v4().as_u128()
}

/// What `chrono::DateTime::parse_from_rfc3339` makes of a text: when
/// it accepts the text, the instant in microseconds since the Unix
/// epoch and the day number of its UTC date (`num_days_from_ce`:
/// 0001-01-01 is day 1); else the
/// `Display` text of its error. A function of the text alone.
pub uninterp spec fn rfc3339_parse(s: Seq<char>) -> Result<(i64, i32), Seq<char>>;

/// The instant and UTC date of an accepted RFC 3339 text.
pub open spec fn rfc3339_utc(s: Seq<char>) -> Option<(i64, i32)> {
    match rfc3339_parse(s) {
        Ok(p) => Some(p),
        Err(_) => None,
    }
}

/// Calls `chrono::DateTime::parse_from_rfc3339` and converts an accepted
/// text to UTC, or renders the error; the contract names the result
/// (`rfc3339_parse`).
#[verifier::external_body]
pub(crate) fn parse_rfc3339(s: &str) -> (r: Result<(i64, i32), String>)
    ensures
        match r {
            Ok(p) => rfc3339_parse(s@) == Ok::<(i64, i32), Seq<char>>(p),
            Err(t) => rfc3339_parse(s@) == Err::<(i64, i32), Seq<char>>(t@),
        },
{
    match chrono::DateTime::parse_from_rfc3339(s) {
        Ok(dt) => {
            let utc = dt.with_timezone(&chrono::Utc);
            Ok((utc.timestamp_micros(), chrono::Datelike::num_days_from_ce(&utc.date_naive())))
        },
        Err(e) => Err(e.to_string()),
    }
}

} // verus!
