//! The time of day and fresh identifiers.
use vstd::prelude::*;
use crate::text::ends;

verus! {

/// A point of time in UTC as text: digits, the marks between them and the
/// offset zero at the end.
pub open spec fn is_time_text(s: Seq<char>) -> bool {
    &&& ends(s, "+00:00"@)
    &&& forall|i: int|
        0 <= i < s.len() ==> {
            let c = #[trigger] s[i];
            '0' <= c <= '9' || c == '-' || c == ':' || c == '.' || c == '+' || c == 'T'
        }
}

/// `chrono::Utc::now` and `DateTime::to_rfc3339`: the current time as an
/// RFC 3339 text with the offset `+00:00`. Which time that is, is not stated;
/// a clock set before 1970 makes the call panic.
#[verifier::external_body]
pub(crate) fn now_iso() -> (r: String)
    ensures
        is_time_text(r@),
{
    chrono::Utc::now().to_rfc3339()
}

/// Digits and underscores, with a sign before a year that has not four digits.
pub open spec fn is_stamp(s: Seq<char>) -> bool {
    forall|i: int|
        0 <= i < s.len() ==> {
            let c = #[trigger] s[i];
            '0' <= c <= '9' || c == '_' || c == '+' || c == '-'
        }
}

/// `chrono::Utc::now` and `DateTime::format`: the current time as year, month,
/// day, an underscore, hour, minute and second. Which time that is, is not
/// stated; a clock set before 1970 makes the call panic.
#[verifier::external_body]
pub(crate) fn file_stamp() -> (r: String)
    ensures
        is_stamp(r@),
{
    chrono::Utc::now().format("%Y%m%d_%H%M%S").to_string()
}

/// A small hexadecimal digit.
pub open spec fn is_hex(c: char) -> bool {
    '0' <= c <= '9' || 'a' <= c <= 'f'
}

/// Thirty-two hexadecimal digits in five groups with dashes between them.
pub open spec fn is_uuid(s: Seq<char>) -> bool {
    &&& s.len() == 36
    &&& forall|i: int|
        0 <= i < 36 ==> (if i == 8 || i == 13 || i == 18 || i == 23 {
            #[trigger] s[i] == '-'
        } else {
            is_hex(s[i])
        })
}

/// `uuid::Uuid::new_v4` as text: a random identifier in the form with dashes.
/// Which one it is, is not stated.
#[verifier::external_body]
pub(crate) fn fresh_id() -> (r: String)
    ensures
        is_uuid(r@),
{
    uuid::Uuid::new_v4().to_string()
}

/// Thirty-two hexadecimal digits.
pub open spec fn is_simple_uuid(s: Seq<char>) -> bool {
    &&& s.len() == 32
    &&& forall|i: int| 0 <= i < 32 ==> is_hex(#[trigger] s[i])
}

/// `uuid::Uuid::as_simple` of a random identifier: the form without dashes.
/// Which one it is, is not stated.
#[verifier::external_body]
pub(crate) fn fresh_simple_id() -> (r: String)
    ensures
        is_simple_uuid(r@),
{
    uuid::Uuid::new_v4().as_simple().to_string()
}

/// An identifier and a time.
pub struct Draw {
    pub id: Seq<char>,
    pub now: Seq<char>,
}

/// Every draw is a fresh identifier with a time.
pub open spec fn are_drawn(draws: Seq<Draw>) -> bool {
    forall|i: int| 0 <= i < draws.len() ==> is_uuid((#[trigger] draws[i]).id) && is_time_text(
        draws[i].now,
    )
}

} // verus!
