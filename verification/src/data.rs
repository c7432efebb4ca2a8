//! Reading the student list and writing the session report.

pub mod export;
pub mod import;
