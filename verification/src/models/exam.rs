//! Exam metadata: name, professor, duration and the exam-wide notes.

use vstd::prelude::*;

verus! {

/// Ninety minutes, the duration a new exam starts with.
pub const DEFAULT_DURATION_SECS: u32 = 5400;

/// The exam being run.
#[derive(Debug, Clone)]
pub struct Exam {
    pub name: String,
    pub professor: String,
    pub duration_secs: u32,
    /// Exam-wide notes, shown live on the student-facing window.
    pub notes: Vec<String>,
}

impl Exam {
    /// The exam a session starts with: "Untitled Exam", no professor,
    /// ninety minutes, no notes.
    pub open spec fn is_initial(self) -> bool {
        &&& self.name@ == "Untitled Exam"@
        &&& self.professor@ == Seq::<char>::empty()
        &&& self.duration_secs == DEFAULT_DURATION_SECS
        &&& self.notes@.len() == 0
    }
}

impl Default for Exam {
    fn default() -> (e: Self)
        ensures
            e.is_initial(),
    {
        Exam {
            name: "Untitled Exam".to_owned(),
            professor: String::new(),
            duration_secs: DEFAULT_DURATION_SECS,
            notes: Vec::new(),
        }
    }
}

} // verus!
