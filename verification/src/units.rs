//! Units of time.

use vstd::prelude::*;

verus! {

/// The units that a time is shown in.
#[derive(Debug, Clone, Copy, PartialEq, Eq, Structural)]
pub enum TimeUnit {
    Nanoseconds,
    Microseconds,
    Milliseconds,
    Seconds,
    Minutes,
    Hours,
    Days,
}

impl TimeUnit {
    /// The sign of the unit.
    pub open spec fn sign(self) -> Seq<char> {
        match self {
            TimeUnit::Nanoseconds => "ns"@,
            TimeUnit::Microseconds => "μs"@,
            TimeUnit::Milliseconds => "ms"@,
            TimeUnit::Seconds => "s"@,
            TimeUnit::Minutes => "min"@,
            TimeUnit::Hours => "h"@,
            TimeUnit::Days => "d"@,
        }
    }

    /// The sign of the unit.
    pub fn as_str(&self) -> (sign: &'static str)
        ensures
            sign@ == self.sign(),
    {
        match self {
            TimeUnit::Nanoseconds => "ns",
            TimeUnit::Microseconds => "μs",
            TimeUnit::Milliseconds => "ms",
            TimeUnit::Seconds => "s",
            TimeUnit::Minutes => "min",
            TimeUnit::Hours => "h",
            TimeUnit::Days => "d",
        }
    }
}

impl TimeUnit {
    /// The number of nanoseconds in the unit.
    pub open spec fn nanoseconds(self) -> nat {
        match self {
            TimeUnit::Nanoseconds => 1,
            TimeUnit::Microseconds => 1_000,
            TimeUnit::Milliseconds => 1_000_000,
            TimeUnit::Seconds => 1_000_000_000,
            TimeUnit::Minutes => 60_000_000_000,
            TimeUnit::Hours => 3_600_000_000_000,
            TimeUnit::Days => 86_400_000_000_000,
        }
    }

    /// The number that a time in the unit has to stay below to be read well; there is none for days.
    pub open spec fn limit(self) -> Option<u64> {
        match self {
            TimeUnit::Nanoseconds => Some(10_000),
            TimeUnit::Microseconds => Some(10_000),
            TimeUnit::Milliseconds => Some(10_000),
            TimeUnit::Seconds => Some(120),
            TimeUnit::Minutes => Some(600),
            TimeUnit::Hours => Some(48),
            TimeUnit::Days => None,
        }
    }

    /// A whole number of nanoseconds is below the limit of the unit.
    pub open spec fn suits(self, nano: nat) -> bool {
        self.limit() matches Some(limit) ==> nano < limit * self.nanoseconds()
    }

    /// The unit that a whole number of nanoseconds is best read in: the finest that suits it.
    pub open spec fn readable(nano: nat) -> TimeUnit {
        if TimeUnit::Nanoseconds.suits(nano) {
            TimeUnit::Nanoseconds
        } else if TimeUnit::Microseconds.suits(nano) {
            TimeUnit::Microseconds
        } else if TimeUnit::Milliseconds.suits(nano) {
            TimeUnit::Milliseconds
        } else if TimeUnit::Seconds.suits(nano) {
            TimeUnit::Seconds
        } else if TimeUnit::Minutes.suits(nano) {
            TimeUnit::Minutes
        } else if TimeUnit::Hours.suits(nano) {
            TimeUnit::Hours
        } else {
            TimeUnit::Days
        }
    }
}

/// In its readable unit a time is a number with few digits: at least 2, unless it is shorter than
/// two nanoseconds, and below 10000, unless it is in days.
pub proof fn readable_unit_fits(nano: nat)
    ensures
        nano >= 2 ==> 2 * TimeUnit::readable(nano).nanoseconds() <= nano,
        TimeUnit::readable(nano) != TimeUnit::Days ==> nano < 10_000 * TimeUnit::readable(
            nano,
        ).nanoseconds(),
{
}

/// A longer time never gets a smaller unit.
pub proof fn readable_unit_grows(shorter: nat, longer: nat)
    requires
        shorter <= longer,
    ensures
        TimeUnit::readable(shorter).nanoseconds() <= TimeUnit::readable(longer).nanoseconds(),
{
}

/// How long the units are: each by the next finer one, from the nanosecond on.
pub proof fn units_are_made_of_finer_ones()
    ensures
        TimeUnit::Nanoseconds.nanoseconds() == 1,
        TimeUnit::Microseconds.nanoseconds() == 1000 * TimeUnit::Nanoseconds.nanoseconds(),
        TimeUnit::Milliseconds.nanoseconds() == 1000 * TimeUnit::Microseconds.nanoseconds(),
        TimeUnit::Seconds.nanoseconds() == 1000 * TimeUnit::Milliseconds.nanoseconds(),
        TimeUnit::Minutes.nanoseconds() == 60 * TimeUnit::Seconds.nanoseconds(),
        TimeUnit::Hours.nanoseconds() == 60 * TimeUnit::Minutes.nanoseconds(),
        TimeUnit::Days.nanoseconds() == 24 * TimeUnit::Hours.nanoseconds(),
{
}

/// Which times are read in which unit: below ten thousand of them in nanoseconds, microseconds and
/// milliseconds, below two minutes in seconds, below ten hours in minutes, below two days in hours,
/// and from there on in days.
pub proof fn readable_unit_is_by_length(nano: nat)
    ensures
        TimeUnit::readable(nano) is Nanoseconds <==> nano < 10_000,
        TimeUnit::readable(nano) is Microseconds <==> 10_000 <= nano < 10_000_000,
        TimeUnit::readable(nano) is Milliseconds <==> 10_000_000 <= nano < 10_000_000_000,
        TimeUnit::readable(nano) is Seconds <==> 10_000_000_000 <= nano < 120_000_000_000,
        TimeUnit::readable(nano) is Minutes <==> 120_000_000_000 <= nano < 36_000_000_000_000,
        TimeUnit::readable(nano) is Hours <==> 36_000_000_000_000 <= nano < 172_800_000_000_000,
        TimeUnit::readable(nano) is Days <==> 172_800_000_000_000 <= nano,
{
}

/// Every unit has its sign.
pub proof fn units_have_their_signs(unit: TimeUnit)
    ensures
        unit is Nanoseconds ==> unit.sign() == "ns"@,
        unit is Microseconds ==> unit.sign() == "μs"@,
        unit is Milliseconds ==> unit.sign() == "ms"@,
        unit is Seconds ==> unit.sign() == "s"@,
        unit is Minutes ==> unit.sign() == "min"@,
        unit is Hours ==> unit.sign() == "h"@,
        unit is Days ==> unit.sign() == "d"@,
{
}

} // verus!
