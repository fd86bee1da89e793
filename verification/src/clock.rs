//! The wall clock, as text.

use vstd::prelude::*;

verus! {

/// The pattern of a timestamp: year, month, day, then hour, minute and
/// second on a 24-hour clock, each padded with zeros.
pub open spec fn timestamp_pattern() -> Seq<char> {
    "%Y-%m-%d %H:%M:%S"@
}

/// Whether `c` is one of the numerals `0` to `9`.
pub open spec fn is_numeral(c: char) -> bool {
    0x30 <= c as u32 <= 0x39
}

/// Whether `s` is made of numerals alone.
pub open spec fn all_numerals(s: Seq<char>) -> bool {
    forall|i: int| 0 <= i < s.len() ==> is_numeral(#[trigger] s[i])
}

/// The number that the two numerals of `s` at `at` write.
pub open spec fn two_numerals(s: Seq<char>, at: int) -> int {
    (s[at] as u32 - 0x30) * 10 + (s[at + 1] as u32 - 0x30)
}

/// Whether `s` holds, at `at`, two numerals that write a number from `low`
/// to `high`.
pub open spec fn is_field(s: Seq<char>, at: int, low: int, high: int) -> bool {
    &&& is_numeral(s[at])
    &&& is_numeral(s[at + 1])
    &&& low <= two_numerals(s, at) <= high
}

/// Whether `year` writes a year: four numerals up to the year 9999, and a
/// plus sign before five or six numerals for a later one.
pub open spec fn is_year_text(year: Seq<char>) -> bool {
    ||| year.len() == 4 && all_numerals(year)
    ||| (year.len() == 6 || year.len() == 7) && year[0] == '+' && all_numerals(year.skip(1))
}

/// Whether `s` is a timestamp: a year, then `-MM-DD HH:MM:SS` with a month
/// from 01 to 12, a day from 01 to 31, an hour from 00 to 23, a minute
/// from 00 to 59 and a second from 00 to 60. Up to the year 9999 that is
/// `YYYY-MM-DD HH:MM:SS`, 19 characters wide.
pub open spec fn is_timestamp(s: Seq<char>) -> bool {
    let rest = s.len() - 15;
    &&& s.len() >= 19
    &&& is_year_text(s.take(rest))
    &&& s[rest] == '-'
    &&& is_field(s, rest + 1, 1, 12)
    &&& s[rest + 3] == '-'
    &&& is_field(s, rest + 4, 1, 31)
    &&& s[rest + 6] == ' '
    &&& is_field(s, rest + 7, 0, 23)
    &&& s[rest + 9] == ':'
    &&& is_field(s, rest + 10, 0, 59)
    &&& s[rest + 12] == ':'
    &&& is_field(s, rest + 13, 0, 60)
}

/// `chrono::Utc::now`, rendered through `chrono::DateTime::format` with
/// `pattern`. The pattern is held to the one that is known to hold only
/// specifiers that chrono accepts: rendering any other may fail. Which
/// time the text shows depends on the system clock, so only its form is
/// claimed, as chrono documents it for each specifier of the pattern:
/// numerals padded with zeros, in the ranges of a date and a time of day,
/// and a year that chrono writes with a sign once it is past 9999. Chrono
/// stops the program where the clock stands before 1970 or past the last
/// year that it supports, 262142.
#[verifier::external_body]
fn utc_now_text(pattern: &str) -> (stamp: String)
    requires
        pattern@ == timestamp_pattern(),
    ensures
        is_timestamp(stamp@),
{
    chrono::Utc::now().format(pattern).to_string()
}

/// The current time in UTC, as `YYYY-MM-DD HH:MM:SS`.
pub fn get_timestamp() -> (stamp: String)
    ensures
        is_timestamp(stamp@),
{
    utc_now_text("%Y-%m-%d %H:%M:%S")
}

} // verus!
