//! The title and description shown above the student list.

use vstd::prelude::*;
use crate::models::app_state::AppState;
use crate::text::{decimal, push_decimal, push_str, string_from_chars};

verus! {

/// The status page's title and description for the state's student list.
pub open spec fn status_message(student_count: nat) -> (Seq<char>, Seq<char>) {
    if student_count == 0 {
        ("No Students Imported"@, "Import a CSV file exported from Incampo to get started."@)
    } else {
        ("Students Loaded"@, decimal(student_count) + " students ready for the exam."@)
    }
}

/// Title and description of the student status page.
pub fn student_status_message(state: &AppState) -> (r: (String, String))
    ensures
        (r.0@, r.1@) == status_message(state.students@.len()),
{
    if state.students.len() == 0 {
        (
            "No Students Imported".to_owned(),
            "Import a CSV file exported from Incampo to get started.".to_owned(),
        )
    } else {
        let mut out: Vec<char> = Vec::new();
        push_decimal(&mut out, state.students.len() as u128);
        push_str(&mut out, " students ready for the exam.");
        ("Students Loaded".to_owned(), string_from_chars(out))
    }
}

} // verus!
