//! The calendar: what the year is, how a time of a log line is written out with its
//! year, and which date that is.

use crate::entry::Timestamp;
use crate::text::{chars_of, string_from_chars};
use chrono::{Datelike, Local, NaiveDateTime, Timelike};
use vstd::prelude::*;

verus! {

/// The digit that stands for `d`, which is less than ten.
pub open spec fn digit_char(d: nat) -> char {
    (48u8 + d) as char
}

/// A natural number in decimal, without leading zeros.
pub open spec fn digits_of(n: nat) -> Seq<char>
    decreases n,
{
    if n < 10 {
        seq![digit_char(n)]
    } else {
        digits_of(n / 10).push(digit_char(n % 10))
    }
}

/// An integer in decimal, with a minus sign where it is negative.
pub open spec fn decimal(n: int) -> Seq<char> {
    if n < 0 {
        seq!['-'] + digits_of((-n) as nat)
    } else {
        digits_of(n as nat)
    }
}

/// The time of a log line with the year written before it, a space between the two.
pub open spec fn dated(year: int, stamp: Seq<char>) -> Seq<char> {
    decimal(year) + seq![' '] + stamp
}

/// The result of `chrono::NaiveDateTime::parse_from_str` on `text`, read under the
/// format `%Y %b %d %H:%M:%S`: the date and time field by field, or `None` where chrono
/// rejects the text.
pub uninterp spec fn resolved_date_time(text: Seq<char>) -> Option<Timestamp>;

/// The date and time that a time of a log line stands for in a given year.
pub open spec fn resolved_time(year: int, stamp: Seq<char>) -> Option<Timestamp> {
    resolved_date_time(dated(year, stamp))
}

/// Reads a date and time with `chrono::NaiveDateTime::parse_from_str`, under the format
/// `%Y %b %d %H:%M:%S`.
///
/// Trusted: the result is a function of the text alone, and the fields of a date that
/// chrono accepts, read with its `Datelike` and `Timelike` getters, lie in the ranges
/// that those document.
#[verifier::external_body]
pub(crate) fn parse_date_time(text: &str) -> (r: Option<Timestamp>)
    ensures
        r == resolved_date_time(text@),
        r matches Some(t) ==> t.wf(),
{
    match NaiveDateTime::parse_from_str(text, "%Y %b %d %H:%M:%S") {
        Ok(t) => Some(Timestamp {
            year: t.year(),
            month: t.month(),
            day: t.day(),
            hour: t.hour(),
            minute: t.minute(),
            second: t.second(),
            nanosecond: t.nanosecond(),
        }),
        Err(_) => None,
    }
}

/// The year of `chrono::Local::now()`: the current year by the clock and the time zone
/// of the machine. Nothing is claimed of it.
#[verifier::external_body]
pub(crate) fn current_year() -> i32 {
    Local::now().year()
}

/// Writes `n` in decimal at the end of `out`.
pub fn push_digits(n: u64, out: &mut Vec<char>)
    ensures
        final(out)@ == old(out)@ + digits_of(n as nat),
    decreases n,
{
    if n >= 10 {
        push_digits(n / 10, out);
    }
    let d: u8 = (n % 10) as u8;
    out.push((48u8 + d) as char);
}

/// The time of a log line with the year written before it, a space between the two.
pub fn write_dated(year: i32, stamp: &str) -> (text: String)
    ensures
        text@ == dated(year as int, stamp@),
{
    let mut out: Vec<char> = Vec::new();
    let n: i64 = year as i64;
    if n < 0 {
        out.push('-');
        push_digits((-n) as u64, &mut out);
    } else {
        push_digits(n as u64, &mut out);
    }
    out.push(' ');
    let mut rest = chars_of(stamp);
    out.append(&mut rest);
    string_from_chars(out.as_slice())
}

/// The date and time that a time of a log line stands for in a given year.
pub fn parse_time(year: i32, stamp: &str) -> (r: Option<Timestamp>)
    ensures
        r == resolved_time(year as int, stamp@),
        r matches Some(t) ==> t.wf(),
{
    let text = write_dated(year, stamp);
    parse_date_time(text.as_str())
}

} // verus!
