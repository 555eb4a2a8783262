//! Clock times: the UTC time of day of a Unix timestamp, as `HH:MM:SS`.

use crate::text::digit;
use vstd::prelude::*;

verus! {

/// The first second that has a calendar date: 00:00:00 on 1 January of the
/// year -262143.
pub const MIN_TIMESTAMP: i64 = -8_334_601_228_800;

/// The last second that has a calendar date: 23:59:59 on 31 December of the
/// year 262142.
pub const MAX_TIMESTAMP: i64 = 8_210_266_876_799;

/// The seconds in a day.
pub const DAY: i64 = 86_400;

/// Whether `epoch_seconds` falls on a calendar date that can be represented.
pub open spec fn has_date(epoch_seconds: int) -> bool {
    MIN_TIMESTAMP <= epoch_seconds <= MAX_TIMESTAMP
}

/// The seconds since the last UTC midnight at or before `epoch_seconds`.
pub open spec fn second_of_day(epoch_seconds: int) -> int {
    epoch_seconds % (DAY as int)
}

/// `n` as two decimal digits, with a leading zero below ten.
pub open spec fn two_digits(n: int) -> Seq<char>
    recommends
        0 <= n <= 99,
{
    seq![digit(n / 10), digit(n % 10)]
}

/// The 24-hour UTC time of day of `epoch_seconds`, as `HH:MM:SS`.
pub open spec fn clock_text(epoch_seconds: int) -> Seq<char> {
    let s = second_of_day(epoch_seconds);
    two_digits(s / 3600) + seq![':'] + two_digits(s / 60 % 60) + seq![':'] + two_digits(s % 60)
}

/// A timestamp that falls on no representable calendar date.
#[derive(Clone, Copy, Debug, PartialEq, Eq, Structural)]
pub struct OutOfRange {
    /// The timestamp that was refused.
    pub epoch_seconds: i64,
}

/// What [`format_clock`] gives for `epoch_seconds`: the clock text, or nothing
/// where the timestamp has no date.
pub open spec fn clock_of(epoch_seconds: int) -> Option<Seq<char>> {
    if has_date(epoch_seconds) {
        Some(clock_text(epoch_seconds))
    } else {
        None
    }
}

/// Calls `chrono::DateTime::from_timestamp` with no nanoseconds and writes
/// the moment it gives with `format("%H:%M:%S")`.
///
/// Believed of chrono, not proved: `from_timestamp` gives a moment exactly for
/// the seconds that fall on its dates, `NaiveDate::MIN` to `NaiveDate::MAX`,
/// which are the first day of the year -262143 and the last of 262142; and
/// the format writes hour, minute and second of the UTC day, each padded with
/// a zero to two digits, with colons between them.
#[verifier::external_body]
fn utc_clock(epoch_seconds: i64) -> (text: Option<String>)
    ensures
        text is Some <==> has_date(epoch_seconds as int),
        text matches Some(t) ==> t@ == clock_text(epoch_seconds as int),
{
    match chrono::DateTime::from_timestamp(epoch_seconds, 0) {
        Some(moment) => Some(moment.format("%H:%M:%S").to_string()),
        None => None,
    }
}

/// Renders `epoch_seconds`, a Unix timestamp, as the 24-hour UTC clock time
/// `HH:MM:SS`. A timestamp beyond the representable dates is refused.
pub fn format_clock(epoch_seconds: i64) -> (r: Result<String, OutOfRange>)
    ensures
        match r {
            Ok(text) => clock_of(epoch_seconds as int) == Some(text@),
            Err(e) => clock_of(epoch_seconds as int) is None && e.epoch_seconds == epoch_seconds,
        },
{
    match utc_clock(epoch_seconds) {
        Some(text) => Ok(text),
        None => Err(OutOfRange { epoch_seconds }),
    }
}

/// The outcome for a timestamp depends on the timestamp alone: the same
/// seconds always give the same clock text, or are always refused.
pub proof fn lemma_clock_is_deterministic(a: i64, b: i64)
    requires
        a == b,
    ensures
        clock_of(a as int) == clock_of(b as int),
{
}

/// Every clock text has the form `HH:MM:SS`: eight characters, colons in the
/// third and sixth place and decimal digits in the others, which give an hour
/// below 24, a minute below 60 and a second below 60.
pub proof fn lemma_clock_has_form(epoch_seconds: int)
    ensures
        clock_text(epoch_seconds).len() == 8,
        clock_text(epoch_seconds)[2] == ':',
        clock_text(epoch_seconds)[5] == ':',
        forall|i: int|
            0 <= i < 8 && i != 2 && i != 5 ==> '0' <= #[trigger] clock_text(epoch_seconds)[i]
                <= '9',
        0 <= second_of_day(epoch_seconds) / 3600 < 24,
        0 <= second_of_day(epoch_seconds) / 60 % 60 < 60,
        0 <= second_of_day(epoch_seconds) % 60 < 60,
{
}

} // verus!
