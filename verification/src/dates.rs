//! Dates of commits, and spans of time.

use crate::text::digits;
use vstd::prelude::*;

verus! {

/// A point in time as the clocks of some place show it, with the offset of that place from UTC.
#[derive(Debug, Clone, Copy, PartialEq, Eq, Structural)]
pub struct CommitDate {
    pub year: i32,
    pub month: u8,
    pub day: u8,
    pub hour: u8,
    pub minute: u8,
    pub second: u8,
    pub nanosecond: u32,
    pub offset_seconds: i32,
}

/// The year has a 29th of February.
pub open spec fn is_leap_year(year: int) -> bool {
    year % 4 == 0 && (year % 100 != 0 || year % 400 == 0)
}

/// The number of days of a month.
pub open spec fn days_in_month(year: int, month: int) -> int {
    if month == 2 {
        if is_leap_year(year) {
            29
        } else {
            28
        }
    } else if month == 4 || month == 6 || month == 9 || month == 11 {
        30
    } else {
        31
    }
}

impl CommitDate {
    /// The fields name a day of the calendar in the years -9999 to 9999, a time of that day, and
    /// an offset of less than 26 hours.
    pub open spec fn is_valid(&self) -> bool {
        &&& -9999 <= self.year <= 9999
        &&& 1 <= self.month <= 12
        &&& 1 <= self.day <= days_in_month(self.year as int, self.month as int)
        &&& self.hour < 24 && self.minute < 60 && self.second < 60
        &&& self.nanosecond < 1_000_000_000
        &&& -93_600 < self.offset_seconds < 93_600
    }

    /// The date can be written: ISO 8601 has four digits for the year and whole minutes for the
    /// offset.
    pub open spec fn is_writable(&self) -> bool {
        self.is_valid() && self.year >= 0 && self.offset_seconds % 60 == 0
    }

    /// The ISO 8601 form, such as `1997-11-12T09:55:06.000000000-06:00`.
    pub open spec fn iso8601_text(&self) -> Seq<char> {
        let two = |n: int| digits(n as nat, 10, 2);
        let offset = if self.offset_seconds < 0 {
            -self.offset_seconds
        } else {
            self.offset_seconds as int
        };
        digits(self.year as nat, 10, 4) + seq!['-'] + two(self.month as int) + seq!['-'] + two(
            self.day as int,
        ) + seq!['T'] + two(self.hour as int) + seq![':'] + two(self.minute as int) + seq![':']
            + two(self.second as int) + seq!['.'] + digits(self.nanosecond as nat, 10, 9) + (
        if offset == 0 {
            seq!['Z']
        } else {
            seq![
                if self.offset_seconds < 0 {
                    '-'
                } else {
                    '+'
                },
            ] + two(offset / 3600) + seq![':'] + two(offset / 60 % 60)
        })
    }

    /// Writes the date in ISO 8601, if it can be written.
    pub fn to_iso8601(&self) -> (text: Option<String>)
        ensures
            match text {
                Some(text) => self.is_writable() && text@ == self.iso8601_text(),
                None => !self.is_writable(),
            },
    {
        format_iso8601(*self)
    }
}

/// Calls `format` of `time::OffsetDateTime` with `Iso8601::DEFAULT`, on the date that the fields
/// name. The result is the ISO 8601 text of the date. There is none where the fields name no
/// date, where the year has a sign, and where the offset has seconds.
#[verifier::external_body]
fn format_iso8601(date: CommitDate) -> (text: Option<String>)
    ensures
        match text {
            Some(text) => date.is_writable() && text@ == date.iso8601_text(),
            None => !date.is_writable(),
        },
{
    let month = time::Month::try_from(date.month).ok()?;
    let day = time::Date::from_calendar_date(date.year, month, date.day).ok()?;
    let (hour, minute, second) = (date.hour, date.minute, date.second);
    let clock = time::Time::from_hms_nano(hour, minute, second, date.nanosecond).ok()?;
    let offset = time::UtcOffset::from_whole_seconds(date.offset_seconds).ok()?;
    let local = time::PrimitiveDateTime::new(day, clock).assume_offset(offset);
    local.format(&time::format_description::well_known::Iso8601::DEFAULT).ok()
}

/// A span of time.
#[derive(Debug, Clone, Copy, PartialEq, Eq, Structural)]
pub struct Duration {
    pub seconds: i64,
    pub nanoseconds: i32,
}

impl Duration {
    /// A whole number of hours. Calls `hours` of `time::Duration`, which is 3600 seconds for each
    /// hour and panics where that is no `i64`.
    #[verifier::external_body]
    fn hours(hours: i64) -> (duration: Duration)
        requires
            i64::MIN <= hours * 3600 <= i64::MAX,
        ensures
            duration == (Duration { seconds: (hours * 3600) as i64, nanoseconds: 0 }),
    {
        let span = time::Duration::hours(hours);
        Duration { seconds: span.whole_seconds(), nanoseconds: span.subsec_nanoseconds() }
    }

    /// How long an invocation may run if its request does not say: three hours.
    pub fn default_timeout() -> (duration: Duration)
        ensures
            duration == (Duration { seconds: 10_800, nanoseconds: 0 }),
    {
        Duration::hours(3)
    }
}

} // verus!
