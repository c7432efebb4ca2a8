//! The student-facing countdown.

use vstd::prelude::*;
use crate::text::{
    decimal_value, lemma_two_digits, lemma_zero_padded_value, push_zero_padded, string_from_chars,
    zero_padded,
};

verus! {

/// `secs` as `HH:MM:SS`, or `MM:SS` under an hour.
pub open spec fn clock_text(secs: nat) -> Seq<char> {
    let h = secs / 3600;
    let m = (secs % 3600) / 60;
    let s = secs % 60;
    if h > 0 {
        zero_padded(h, 2) + seq![':'] + zero_padded(m, 2) + seq![':'] + zero_padded(s, 2)
    } else {
        zero_padded(m, 2) + seq![':'] + zero_padded(s, 2)
    }
}

/// The countdown text reads back as the time it shows: its last field is
/// the seconds, the one before the minutes, each two digits below sixty,
/// and a leading hours field appears exactly from one hour on; together
/// they add up to `secs`.
pub proof fn lemma_clock_text_reads_back(secs: nat)
    ensures
        ({
            let t = clock_text(secs);
            let n = t.len();
            let s = decimal_value(t.subrange(n - 2, n as int));
            let m = decimal_value(t.subrange(n - 5, n - 3));
            &&& n >= 5
            &&& t[n - 3] == ':'
            &&& 0 <= s < 60
            &&& 0 <= m < 60
            &&& s == secs % 60
            &&& (secs < 3600 ==> n == 5 && m * 60 + s == secs)
            &&& (secs >= 3600 ==> n >= 8 && t[n - 6] == ':' && decimal_value(t.take(n - 6)) * 3600
                + m * 60 + s == secs)
        }),
{
    let h = secs / 3600;
    let m = (secs % 3600) / 60;
    let s = secs % 60;
    lemma_two_digits(m);
    lemma_two_digits(s);
    let t = clock_text(secs);
    let n = t.len();
    let mm = zero_padded(m, 2);
    let ss = zero_padded(s, 2);
    if h > 0 {
        let hh = zero_padded(h, 2);
        lemma_zero_padded_value(h, 2);
        assert(t == hh + seq![':'] + mm + seq![':'] + ss);
        assert(t.subrange(n - 2, n as int) =~= ss);
        assert(t.subrange(n - 5, n - 3) =~= mm);
        assert(t.take(n - 6) =~= hh);
    } else {
        assert(t == mm + seq![':'] + ss);
        assert(t.subrange(n - 2, n as int) =~= ss);
        assert(t.subrange(n - 5, n - 3) =~= mm);
    }
}

/// The remaining time as the countdown shows it.
pub fn format_time(secs: u32) -> (t: String)
    ensures
        t@ == clock_text(secs as nat),
{
    let h = secs / 3600;
    let m = (secs % 3600) / 60;
    let s = secs % 60;
    let mut out: Vec<char> = Vec::new();
    if h > 0 {
        push_zero_padded(&mut out, h as u128, 2);
        out.push(':');
    }
    push_zero_padded(&mut out, m as u128, 2);
    out.push(':');
    push_zero_padded(&mut out, s as u128, 2);
    assert(out@ =~= clock_text(secs as nat));
    string_from_chars(out)
}

/// What a tick of the countdown did.
#[derive(Clone, Copy, Debug, PartialEq, Eq, Structural)]
pub enum Tick {
    /// The professor changed the duration; the remaining time moved by the
    /// same amount.
    Adjusted,
    /// One second went by.
    CountedDown,
    /// No time is left: the exam is over and the countdown stops.
    Expired,
}

/// The countdown's state: the seconds left and the duration they were
/// last reconciled with.
pub struct Countdown {
    remaining: u32,
    last_known: u32,
}

impl Countdown {
    #[verifier::type_invariant]
    spec fn within_duration(self) -> bool {
        self.remaining <= self.last_known
    }

    /// The seconds left.
    pub closed spec fn remaining_secs(self) -> nat {
        self.remaining as nat
    }

    /// The duration the countdown last saw.
    pub closed spec fn duration_secs(self) -> nat {
        self.last_known as nat
    }

    /// A countdown over the whole of `duration_secs`.
    pub fn new(duration_secs: u32) -> (c: Self)
        ensures
            c.remaining_secs() == duration_secs,
            c.duration_secs() == duration_secs,
            c.remaining_secs() <= c.duration_secs(),
    {
        Countdown { remaining: duration_secs, last_known: duration_secs }
    }

    /// The seconds left.
    pub fn remaining(&self) -> (r: u32)
        ensures
            r == self.remaining_secs(),
    {
        self.remaining
    }

    /// One second of the countdown, given the exam's current duration: a
    /// changed duration moves the remaining time by the change (never below
    /// zero); otherwise a second is taken off, or the time is up.
    pub fn tick(&mut self, current_duration: u32) -> (t: Tick)
        ensures
            current_duration != old(self).duration_secs() ==> t == Tick::Adjusted
                && final(self).duration_secs() == current_duration && final(self).remaining_secs()
                == (if old(self).remaining_secs() + current_duration - old(self).duration_secs()
                > 0 {
                old(self).remaining_secs() + current_duration - old(self).duration_secs()
            } else {
                0
            }),
            current_duration == old(self).duration_secs() && old(self).remaining_secs() > 0 ==> t
                == Tick::CountedDown && final(self).duration_secs() == old(self).duration_secs()
                && final(self).remaining_secs() == old(self).remaining_secs() - 1,
            current_duration == old(self).duration_secs() && old(self).remaining_secs() == 0 ==> t
                == Tick::Expired && final(self).duration_secs() == old(self).duration_secs()
                && final(self).remaining_secs() == 0,
            final(self).remaining_secs() <= final(self).duration_secs(),
    {
        proof {
            use_type_invariant(&*self);
        }
        if current_duration != self.last_known {
            let moved = self.remaining as i64 + (current_duration as i64 - self.last_known as i64);
            let remaining: u32 = if moved > 0 {
                moved as u32
            } else {
                0
            };
            *self = Countdown { remaining, last_known: current_duration };
            proof {
                use_type_invariant(&*self);
            }
            Tick::Adjusted
        } else if self.remaining > 0 {
            *self = Countdown { remaining: self.remaining - 1, last_known: self.last_known };
            proof {
                use_type_invariant(&*self);
            }
            Tick::CountedDown
        } else {
            Tick::Expired
        }
    }
}

} // verus!
