//! Timestamped entries of the session's event log.

use vstd::prelude::*;
use crate::clock::{local_now, Timestamp};

verus! {

/// What happened.
#[derive(Debug, Clone, PartialEq, Eq)]
pub enum EventKind {
    ExamStarted,
    ExamEnded,
    TimeExtended { added_secs: i64, new_total_secs: u32 },
    StudentEnteredRestroom { name: String, matriculation_number: String },
    StudentLeftRestroom { name: String, matriculation_number: String },
    StudentNoteAdded { name: String, matriculation_number: String, note: String },
    ExamNoteAdded { note: String },
}

/// The model of an event kind, with its texts as character sequences.
pub enum EventKindView {
    ExamStarted,
    ExamEnded,
    TimeExtended { added_secs: i64, new_total_secs: u32 },
    StudentEnteredRestroom { name: Seq<char>, matriculation_number: Seq<char> },
    StudentLeftRestroom { name: Seq<char>, matriculation_number: Seq<char> },
    StudentNoteAdded { name: Seq<char>, matriculation_number: Seq<char>, note: Seq<char> },
    ExamNoteAdded { note: Seq<char> },
}

impl View for EventKind {
    type V = EventKindView;

    open spec fn view(&self) -> EventKindView {
        match self {
            EventKind::ExamStarted => EventKindView::ExamStarted,
            EventKind::ExamEnded => EventKindView::ExamEnded,
            EventKind::TimeExtended { added_secs, new_total_secs } => EventKindView::TimeExtended {
                added_secs: *added_secs,
                new_total_secs: *new_total_secs,
            },
            EventKind::StudentEnteredRestroom { name, matriculation_number } =>
                EventKindView::StudentEnteredRestroom {
                name: name@,
                matriculation_number: matriculation_number@,
            },
            EventKind::StudentLeftRestroom { name, matriculation_number } =>
                EventKindView::StudentLeftRestroom {
                name: name@,
                matriculation_number: matriculation_number@,
            },
            EventKind::StudentNoteAdded { name, matriculation_number, note } =>
                EventKindView::StudentNoteAdded {
                name: name@,
                matriculation_number: matriculation_number@,
                note: note@,
            },
            EventKind::ExamNoteAdded { note } => EventKindView::ExamNoteAdded { note: note@ },
        }
    }
}

/// An event with the local time at which it was logged.
#[derive(Debug, Clone)]
pub struct ExamEvent {
    pub timestamp: Timestamp,
    pub kind: EventKind,
}

impl ExamEvent {
    /// An event of the given kind, stamped with the current local time.
    pub fn new(kind: EventKind) -> (e: Self)
        ensures
            e.kind == kind,
            e.timestamp.wf(),
    {
        ExamEvent { timestamp: local_now(), kind }
    }
}

} // verus!
