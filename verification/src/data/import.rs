//! Turning the text of an imported student list into students.

use vstd::prelude::*;
use crate::models::student::{parse_student_csv, parse_students_from_csv, parsed_as, Student};

verus! {

/// The message for a student list without any student row.
pub open spec fn no_rows_error() -> Seq<char> {
    "CSV contains no student rows."@
}

/// The students of an imported CSV text, or why the import fails: a
/// malformed row, or no student row at all.
pub fn students_from_csv(content: &str) -> (r: Result<Vec<Student>, String>)
    ensures
        match parse_student_csv(content@) {
            Ok(recs) => if recs.len() == 0 {
                r is Err && r->Err_0@ == no_rows_error()
            } else {
                parsed_as(content@, r)
            },
            Err(m) => r is Err && r->Err_0@ == m,
        },
{
    let students = parse_students_from_csv(content)?;
    if students.len() == 0 {
        return Err("CSV contains no student rows.".to_owned());
    }
    Ok(students)
}

} // verus!
