//! Exam session bookkeeping: students, attendance, a timestamped event log,
//! notes, the countdown and the Markdown session report.

pub mod text;
pub mod clock;
pub mod models;
pub mod data;
pub mod ui;
