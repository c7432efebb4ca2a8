//! The line summarising the student list.

use vstd::prelude::*;
use crate::data::export::{count_present, present_count};
use crate::models::app_state::AppState;
use crate::text::{decimal, push_decimal, push_str, string_from_chars, trim, trimmed_chars};

verus! {

/// The summary: how many students there are, how many a search shows, and
/// how many are present.
pub open spec fn summary(state: AppState, query: Seq<char>, total: nat, shown: nat) -> Seq<char> {
    let present = present_count(state.students@);
    if trim(query).len() == 0 {
        decimal(total) + " students · "@ + decimal(present) + " present in exam"@
    } else {
        "Showing "@ + decimal(shown) + " of "@ + decimal(total) + " · "@ + decimal(present)
            + " present in exam"@
    }
}

/// The summary line above the student list.
pub fn summary_text(state: &AppState, query: &str, total: usize, shown: usize) -> (s: String)
    ensures
        s@ == summary(*state, query@, total as nat, shown as nat),
{
    let present = count_present(&state.students);
    let mut out: Vec<char> = Vec::new();
    if trimmed_chars(query).len() == 0 {
        push_decimal(&mut out, total as u128);
        push_str(&mut out, " students · ");
        push_decimal(&mut out, present as u128);
        push_str(&mut out, " present in exam");
    } else {
        push_str(&mut out, "Showing ");
        push_decimal(&mut out, shown as u128);
        push_str(&mut out, " of ");
        push_decimal(&mut out, total as u128);
        push_str(&mut out, " · ");
        push_decimal(&mut out, present as u128);
        push_str(&mut out, " present in exam");
    }
    assert(out@ =~= summary(*state, query@, total as nat, shown as nat));
    string_from_chars(out)
}

} // verus!
