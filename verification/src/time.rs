//! Points in time as plain numbers.

use crate::codec::{decimal, push_decimal};
use vstd::prelude::*;
use vstd::string::{StrSliceExecFns, StringExecFns};

verus! {

/// A point in time at or after the Unix epoch: whole seconds since the epoch
/// and the nanoseconds into the running second.
#[derive(Clone, Copy, Debug, PartialEq, Eq, Structural)]
pub struct Timestamp {
    pub secs: u64,
    pub nanos: u32,
}

impl Timestamp {
    /// Nanoseconds stay below one second.
    pub open spec fn wf(&self) -> bool {
        self.nanos < 1_000_000_000
    }

    /// The time `secs` whole seconds after the epoch.
    pub fn from_secs(secs: u64) -> (t: Timestamp)
        ensures
            t == (Timestamp { secs, nanos: 0 }),
            t.wf(),
    {
        Timestamp { secs, nanos: 0 }
    }
}

/// A date and a time of day on the UTC calendar, to the minute.
#[derive(Clone, Copy, Debug, PartialEq, Eq, Structural)]
pub struct CivilTime {
    pub year: i32,
    pub month: u32,
    pub day: u32,
    pub hour: u32,
    pub minute: u32,
}

/// The calendar reading (year, month, day, hour, minute) that chrono's
/// `DateTime::from_timestamp` gives for a number of seconds since the epoch;
/// `None` where chrono has no date for it.
pub uninterp spec fn utc_calendar(secs: int) -> Option<(i32, u32, u32, u32, u32)>;

/// Calls `chrono::DateTime::from_timestamp` with no nanoseconds and reads
/// year, month, day, hour and minute off the result. Trusted: these are the
/// named calendar reading of `secs`.
#[verifier::external_body]
fn utc_civil_time(secs: i64) -> (civil: Option<CivilTime>)
    ensures
        match civil {
            Some(c) => utc_calendar(secs as int) == Some((c.year, c.month, c.day, c.hour, c.minute)),
            None => utc_calendar(secs as int).is_none(),
        },
{
    match chrono::DateTime::from_timestamp(secs, 0) {
        Some(t) => Some(
            CivilTime {
                year: chrono::Datelike::year(&t),
                month: chrono::Datelike::month(&t),
                day: chrono::Datelike::day(&t),
                hour: chrono::Timelike::hour(&t),
                minute: chrono::Timelike::minute(&t),
            },
        ),
        None => None,
    }
}

/// `count` spaces.
pub open spec fn spaces(count: nat) -> Seq<char> {
    Seq::new(count, |i: int| ' ')
}

/// `text` with spaces in front until it has `width` characters; longer texts
/// stay as they are.
pub open spec fn spaced(text: Seq<char>, width: nat) -> Seq<char> {
    if text.len() >= width {
        text
    } else {
        spaces((width - text.len()) as nat) + text
    }
}

/// The decimal numeral of an integer, with a minus sign below zero.
pub open spec fn signed_decimal(n: int) -> Seq<char> {
    if n < 0 {
        seq!['-'] + decimal((-n) as nat)
    } else {
        decimal(n as nat)
    }
}

impl CivilTime {
    /// The text of this date and time: year in four columns, month, day, hour
    /// and minute in two columns each, all padded with spaces; `-` between the
    /// parts of the date, a space before the time, `:` between hour and minute.
    pub open spec fn text(&self) -> Seq<char> {
        spaced(signed_decimal(self.year as int), 4) + seq!['-'] + spaced(
            decimal(self.month as nat),
            2,
        ) + seq!['-'] + spaced(decimal(self.day as nat), 2) + seq![' '] + spaced(
            decimal(self.hour as nat),
            2,
        ) + seq![':'] + spaced(decimal(self.minute as nat), 2)
    }

    /// Writes this date and time out.
    pub fn format(&self) -> (text: String)
        ensures
            text@ == self.text(),
    {
        let mut year = String::new();
        if self.year < 0 {
            year.push('-');
            let size: i64 = 0 - (self.year as i64);
            push_decimal(&mut year, size as usize);
        } else {
            push_decimal(&mut year, self.year as usize);
        }
        assert(year@ =~= signed_decimal(self.year as int));
        let mut text = String::new();
        push_spaced(&mut text, year.as_str(), 4);
        text.push('-');
        push_spaced_number(&mut text, self.month);
        text.push('-');
        push_spaced_number(&mut text, self.day);
        text.push(' ');
        push_spaced_number(&mut text, self.hour);
        text.push(':');
        push_spaced_number(&mut text, self.minute);
        assert(text@ =~= self.text());
        text
    }
}

/// Appends `text` to `out`, padded with spaces in front to `width` characters.
fn push_spaced(out: &mut String, text: &str, width: usize)
    ensures
        final(out)@ == old(out)@ + spaced(text@, width as nat),
{
    let len = text.unicode_len();
    let mut k: usize = len;
    assert(out@ =~= old(out)@ + spaces(0));
    while k < width
        invariant
            len == text@.len(),
            len <= k,
            k <= width || k == len,
            out@ == old(out)@ + spaces((k - len) as nat),
        decreases width - k,
    {
        out.push(' ');
        assert(out@ =~= old(out)@ + spaces((k + 1 - len) as nat));
        k += 1;
    }
    let ghost padded = out@;
    out.append(text);
    proof {
        if len >= width {
            assert(padded =~= old(out)@);
        } else {
            assert(out@ =~= old(out)@ + (spaces((width - len) as nat) + text@));
        }
    }
}

/// Appends the numeral of `n` to `out`, padded with a space to two columns.
fn push_spaced_number(out: &mut String, n: u32)
    ensures
        final(out)@ == old(out)@ + spaced(decimal(n as nat), 2),
{
    let mut numeral = String::new();
    push_decimal(&mut numeral, n as usize);
    assert(numeral@ =~= decimal(n as nat));
    push_spaced(out, numeral.as_str(), 2);
}

/// A point in time for display, to the minute, on the UTC calendar.
#[derive(Clone, Copy, Debug, PartialEq, Eq, Structural)]
pub struct DisplayTime(pub Timestamp);

impl DisplayTime {
    pub fn new(time: Timestamp) -> (shown: DisplayTime)
        ensures
            shown.0 == time,
    {
        DisplayTime(time)
    }

    /// The calendar reading of this time, where the calendar reaches that far.
    pub open spec fn calendar(&self) -> Option<CivilTime> {
        if self.0.secs > i64::MAX {
            None
        } else {
            match utc_calendar(self.0.secs as int) {
                Some((year, month, day, hour, minute)) => Some(
                    CivilTime { year, month, day, hour, minute },
                ),
                None => None,
            }
        }
    }

    /// This time as text: its calendar reading written out. `None` for a time
    /// beyond the calendar's range.
    pub fn text(&self) -> (text: Option<String>)
        ensures
            text.is_some() == self.calendar().is_some(),
            text.is_some() ==> text.unwrap()@ == self.calendar().unwrap().text(),
    {
        if self.0.secs > i64::MAX as u64 {
            return None;
        }
        match utc_civil_time(self.0.secs as i64) {
            Some(civil) => Some(civil.format()),
            None => None,
        }
    }
}

} // verus!
