//! Wall-clock timestamps as plain calendar fields, and their rendering as
//! `%Y-%m-%d` and `%H:%M:%S`.

use chrono::{Datelike, Timelike};
use vstd::prelude::*;
use crate::text::{push_zero_padded, string_from_chars, zero_padded};

verus! {

/// A local calendar date and time of day.
#[derive(Clone, Copy, Debug, PartialEq, Eq, Structural)]
pub struct Timestamp {
    pub year: i32,
    pub month: u32,
    pub day: u32,
    pub hour: u32,
    pub minute: u32,
    pub second: u32,
    /// Nanoseconds since the whole second; 1e9 and above stand for a leap second.
    pub nanosecond: u32,
}

impl Timestamp {
    /// The ranges that chrono documents for each field.
    pub open spec fn wf(self) -> bool {
        &&& 1 <= self.month <= 12
        &&& 1 <= self.day <= 31
        &&& self.hour < 24
        &&& self.minute < 60
        &&& self.second < 60
        &&& self.nanosecond < 2_000_000_000
    }

    /// The second as `%S` shows it: 60 during a leap second.
    pub open spec fn shown_second(self) -> nat {
        if self.nanosecond >= 1_000_000_000 {
            (self.second + 1) as nat
        } else {
            self.second as nat
        }
    }

    /// `%H:%M:%S`.
    pub open spec fn time_of_day_text(self) -> Seq<char> {
        zero_padded(self.hour as nat, 2) + seq![':'] + zero_padded(self.minute as nat, 2) + seq![
            ':',
        ] + zero_padded(self.shown_second(), 2)
    }

    /// `%Y-%m-%d`.
    pub open spec fn date_text(self) -> Seq<char> {
        year_text(self.year as int) + seq!['-'] + zero_padded(self.month as nat, 2) + seq!['-']
            + zero_padded(self.day as nat, 2)
    }

    /// Appends `%H:%M:%S`.
    pub fn push_time_of_day(&self, out: &mut Vec<char>)
        ensures
            final(out)@ == old(out)@ + self.time_of_day_text(),
    {
        push_zero_padded(out, self.hour as u128, 2);
        out.push(':');
        push_zero_padded(out, self.minute as u128, 2);
        out.push(':');
        let second: u128 = if self.nanosecond >= 1_000_000_000 {
            self.second as u128 + 1
        } else {
            self.second as u128
        };
        push_zero_padded(out, second, 2);
        assert(final(out)@ =~= old(out)@ + self.time_of_day_text());
    }

    /// Appends `%Y-%m-%d`.
    pub fn push_date(&self, out: &mut Vec<char>)
        ensures
            final(out)@ == old(out)@ + self.date_text(),
    {
        push_year(out, self.year);
        out.push('-');
        push_zero_padded(out, self.month as u128, 2);
        out.push('-');
        push_zero_padded(out, self.day as u128, 2);
        assert(final(out)@ =~= old(out)@ + self.date_text());
    }

    /// The time of day as `%H:%M:%S`.
    pub fn time_of_day(&self) -> (s: String)
        ensures
            s@ == self.time_of_day_text(),
    {
        let mut out: Vec<char> = Vec::new();
        self.push_time_of_day(&mut out);
        string_from_chars(out)
    }

    /// The date as `%Y-%m-%d`.
    pub fn date(&self) -> (s: String)
        ensures
            s@ == self.date_text(),
    {
        let mut out: Vec<char> = Vec::new();
        self.push_date(&mut out);
        string_from_chars(out)
    }
}

/// `%Y`: four digits or more for years 0 to 9999, otherwise a sign and at
/// least four digits.
pub open spec fn year_text(y: int) -> Seq<char> {
    if 0 <= y <= 9999 {
        zero_padded(y as nat, 4)
    } else if y < 0 {
        seq!['-'] + zero_padded((-y) as nat, 4)
    } else {
        seq!['+'] + zero_padded(y as nat, 4)
    }
}

fn push_year(out: &mut Vec<char>, y: i32)
    ensures
        final(out)@ == old(out)@ + year_text(y as int),
{
    if 0 <= y && y <= 9999 {
        push_zero_padded(out, y as u128, 4);
    } else if y < 0 {
        out.push('-');
        let magnitude: u128 = (0i64 - y as i64) as u128;
        push_zero_padded(out, magnitude, 4);
        assert(final(out)@ =~= old(out)@ + year_text(y as int));
    } else {
        out.push('+');
        push_zero_padded(out, y as u128, 4);
        assert(final(out)@ =~= old(out)@ + year_text(y as int));
    }
}

/// The current local date and time.
///
/// Trusted: reads chrono's `Local::now()` and its `Datelike`/`Timelike`
/// fields; the contract states only the field ranges chrono documents, since
/// the value depends on the clock and the time zone.
#[verifier::external_body]
pub(crate) fn local_now() -> (t: Timestamp)
    ensures
        t.wf(),
{
    let now = chrono::Local::now();
    Timestamp {
        year: now.year(),
        month: now.month(),
        day: now.day(),
        hour: now.hour(),
        minute: now.minute(),
        second: now.second(),
        nanosecond: now.nanosecond(),
    }
}

} // verus!
