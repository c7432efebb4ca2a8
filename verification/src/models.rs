//! The session's data: exam metadata, students, events and the shared state.

pub mod app_state;
pub mod exam;
pub mod exam_event;
pub mod student;
