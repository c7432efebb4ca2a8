//! The duration picker: whole minutes in steps of five, never shortened
//! below ninety.

use vstd::prelude::*;
use crate::models::app_state::AppState;

verus! {

/// The shortest duration the picker steps down to, in minutes.
pub const MINIMUM_DURATION_MINS: u32 = 90;

/// The picker's step, in minutes.
pub const STEP_MINS: u32 = 5;

/// One step down from `minutes`: five less, but not below the minimum;
/// at or below the minimum, unchanged.
pub open spec fn shortened_minutes(minutes: int) -> int {
    if minutes > MINIMUM_DURATION_MINS {
        if minutes - STEP_MINS >= MINIMUM_DURATION_MINS {
            minutes - STEP_MINS
        } else {
            MINIMUM_DURATION_MINS as int
        }
    } else {
        minutes
    }
}

/// The duration in whole minutes that the picker starts from.
pub fn duration_mins(state: &AppState) -> (m: u32)
    ensures
        m == state.exam.duration_secs / 60,
{
    state.exam.duration_secs / 60
}

/// Whether the picker can step down from `minutes`.
pub fn can_shorten(minutes: u32) -> (b: bool)
    ensures
        b == (minutes > MINIMUM_DURATION_MINS),
{
    minutes > MINIMUM_DURATION_MINS
}

/// The duration after one step down: five minutes less, but never below
/// the minimum; unchanged at or below the minimum.
pub fn shortened(minutes: u32) -> (m: u32)
    ensures
        m == shortened_minutes(minutes as int),
{
    if minutes > MINIMUM_DURATION_MINS {
        if minutes - STEP_MINS >= MINIMUM_DURATION_MINS {
            minutes - STEP_MINS
        } else {
            MINIMUM_DURATION_MINS
        }
    } else {
        minutes
    }
}

/// The duration after one step up: five minutes more.
pub fn lengthened(minutes: u32) -> (m: u32)
    requires
        minutes + STEP_MINS <= u32::MAX,
    ensures
        m == minutes + STEP_MINS,
{
    minutes + STEP_MINS
}

/// Stepping down from any duration at or above the minimum never goes
/// below the minimum.
pub proof fn lemma_shortened_keeps_minimum(minutes: u32)
    requires
        minutes >= MINIMUM_DURATION_MINS,
    ensures
        shortened_minutes(minutes as int) >= MINIMUM_DURATION_MINS,
{
}

/// A step down undoes a step up from any duration at or above the minimum.
pub proof fn lemma_shorten_undoes_lengthen(minutes: int)
    requires
        minutes >= MINIMUM_DURATION_MINS,
    ensures
        shortened_minutes(minutes + STEP_MINS) == minutes,
{
}

} // verus!
