//! Times taken apart for display.
use vstd::prelude::*;
use vstd::arithmetic::div_mod::lemma_mod_decreases;

verus! {

/// Milliseconds in a second.
pub const SECOND: u128 = 1000;

/// Milliseconds in a minute.
pub const MINUTE: u128 = 60000;

/// Milliseconds in an hour.
pub const HOUR: u128 = 3600000;

/// A time as the fields of a clock face.
#[derive(Clone, Copy, PartialEq, Eq, Debug, Structural)]
pub struct TimeFields {
    /// Whole hours.
    pub hours: u128,
    /// Whole minutes past the hour, below 60.
    pub minutes: u128,
    /// Whole seconds past the minute, below 60.
    pub seconds: u128,
    /// Milliseconds past the second, below 1000.
    pub millis: u128,
}

impl TimeFields {
    /// The time that the fields stand for, in milliseconds.
    pub open spec fn total(self) -> int {
        self.hours * HOUR + self.minutes * MINUTE + self.seconds * SECOND + self.millis
    }

    /// Every field but the hours is within its range.
    pub open spec fn wf(self) -> bool {
        self.minutes < 60 && self.seconds < 60 && self.millis < 1000
    }
}

/// Two times with fields in range that stand for the same number of
/// milliseconds have the same fields.
pub proof fn lemma_time_fields_unique(a: TimeFields, b: TimeFields)
    requires
        a.wf(),
        b.wf(),
        a.total() == b.total(),
    ensures
        a == b,
{
}

/// The fields of `ms` milliseconds: the one clock face with fields in
/// range that stands for `ms`.
pub fn time_fields(ms: u128) -> (fields: TimeFields)
    ensures
        fields.wf(),
        fields.total() == ms,
{
    TimeFields {
        hours: ms / HOUR,
        minutes: ms / MINUTE % 60,
        seconds: ms / SECOND % 60,
        millis: ms % SECOND,
    }
}

/// `ms` rounded down to a multiple of `step`; `ms` itself without a step
/// or with a step of zero.
pub open spec fn rounded_down(ms: u128, step: Option<u128>) -> int {
    match step {
        Some(s) => if s != 0 {
            ms - ms % s
        } else {
            ms as int
        },
        None => ms as int,
    }
}

/// `ms` rounded down to a multiple of `step`; `ms` itself without a step
/// or with a step of zero.
pub fn round_down(ms: u128, step: Option<u128>) -> (rounded: u128)
    ensures
        rounded == rounded_down(ms, step),
{
    match step {
        Some(s) => {
            if s != 0 {
                proof {
                    lemma_mod_decreases(ms as nat, s as nat);
                }
                ms - ms % s
            } else {
                ms
            }
        },
        None => ms,
    }
}

/// How many of the fields before the milliseconds are shown: the seconds
/// always, the minutes from one minute on, the hours from one hour on.
pub open spec fn leading_fields(fields: TimeFields) -> u8 {
    if fields.hours != 0 {
        3
    } else if fields.minutes != 0 {
        2
    } else {
        1
    }
}

/// The fields of the timer's text for `ms` milliseconds, and how many of
/// the fields before the milliseconds are shown. With a rounding step the
/// time is first rounded down to a multiple of it.
pub fn shown_fields(ms: u128, rounding: Option<u128>) -> (shown: (TimeFields, u8))
    ensures
        shown.0.wf(),
        shown.0.total() == rounded_down(ms, rounding),
        shown.1 == leading_fields(shown.0),
{
    let fields = time_fields(round_down(ms, rounding));
    let leading: u8 = if fields.hours != 0 {
        3
    } else if fields.minutes != 0 {
        2
    } else {
        1
    };
    (fields, leading)
}

/// The tenth of a second that the time lies in, as the rows of splits
/// show it: the milliseconds cut to their first digit.
pub fn tenths(fields: TimeFields) -> (tenth: u128)
    ensures
        tenth == fields.millis / 100,
        fields.wf() ==> tenth < 10,
{
    fields.millis / 100
}

} // verus!
