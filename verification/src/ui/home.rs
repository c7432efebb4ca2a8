//! Checks made before an exam may start.

use vstd::prelude::*;
use crate::models::app_state::AppState;
use crate::text::{trim, trimmed_chars};

verus! {

/// Why the exam cannot start yet, if it cannot: the names are checked
/// before the student list.
pub open spec fn start_problem(state: AppState) -> Option<Seq<char>> {
    let name_blank = trim(state.exam.name@).len() == 0;
    let prof_blank = trim(state.exam.professor@).len() == 0;
    if name_blank && prof_blank {
        Some("Please enter the exam name and professor name."@)
    } else if name_blank {
        Some("Please enter the exam name."@)
    } else if prof_blank {
        Some("Please enter the professor name."@)
    } else if state.students@.len() == 0 {
        Some("Please import a student list before starting."@)
    } else {
        None
    }
}

/// A name made only of whitespace counts as missing: the exam may start
/// exactly when both names have a non-whitespace character and students
/// were imported, and each missing part is named in the message.
pub proof fn lemma_start_requirements(state: AppState)
    ensures
        start_problem(state) is None <==> (trim(state.exam.name@).len() > 0 && trim(
            state.exam.professor@,
        ).len() > 0 && state.students@.len() > 0),
        trim(state.exam.name@).len() > 0 && trim(state.exam.professor@).len() == 0
            ==> start_problem(state) == Some("Please enter the professor name."@),
        trim(state.exam.name@).len() == 0 && trim(state.exam.professor@).len() > 0
            ==> start_problem(state) == Some("Please enter the exam name."@),
        trim(state.exam.name@).len() == 0 && trim(state.exam.professor@).len() == 0
            ==> start_problem(state) == Some("Please enter the exam name and professor name."@),
        trim(state.exam.name@).len() > 0 && trim(state.exam.professor@).len() > 0
            && state.students@.len() == 0 ==> start_problem(state) == Some(
            "Please import a student list before starting."@,
        ),
{
}

/// Whitespace around the names never changes the answer: two sessions
/// whose names trim to equally blank or non-blank texts, with the same
/// number of students, get the same answer.
pub proof fn lemma_start_ignores_padding(a: AppState, b: AppState)
    requires
        (trim(a.exam.name@).len() == 0) == (trim(b.exam.name@).len() == 0),
        (trim(a.exam.professor@).len() == 0) == (trim(b.exam.professor@).len() == 0),
        a.students@.len() == b.students@.len(),
    ensures
        start_problem(a) == start_problem(b),
{
}

/// The message that keeps the exam from starting, or `None` when it may.
pub fn validate_start(s: &AppState) -> (r: Option<&'static str>)
    ensures
        match start_problem(*s) {
            Some(m) => r matches Some(t) && t@ == m,
            None => r is None,
        },
{
    let name = trimmed_chars(s.exam.name.as_str());
    let prof = trimmed_chars(s.exam.professor.as_str());
    if name.len() == 0 && prof.len() == 0 {
        Some("Please enter the exam name and professor name.")
    } else if name.len() == 0 {
        Some("Please enter the exam name.")
    } else if prof.len() == 0 {
        Some("Please enter the professor name.")
    } else if s.students.len() == 0 {
        Some("Please import a student list before starting.")
    } else {
        None
    }
}

} // verus!
