//! The decisions behind the setup and exam screens, apart from the widgets.

pub mod exam_window;
pub mod home;
pub mod status;
pub mod student_list;
pub mod timer_card;
