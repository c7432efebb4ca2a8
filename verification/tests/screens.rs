use exam_companion::models::app_state::AppState;
use exam_companion::models::student::Student;
use exam_companion::ui::exam_window::{format_time, Countdown, Tick};
use exam_companion::ui::home::validate_start;
use exam_companion::ui::status::student_status_message;
use exam_companion::ui::student_list::summary_text;
use exam_companion::ui::timer_card::{can_shorten, duration_mins, lengthened, shortened};

#[test]
fn format_time_shows_hours_only_when_needed() {
    assert_eq!(format_time(0), "00:00");
    assert_eq!(format_time(59), "00:59");
    assert_eq!(format_time(61), "01:01");
    assert_eq!(format_time(3599), "59:59");
    assert_eq!(format_time(3600), "01:00:00");
    assert_eq!(format_time(5400), "01:30:00");
    assert_eq!(format_time(360_000), "100:00:00");
}

#[test]
fn countdown_counts_down_to_expiry() {
    let mut c = Countdown::new(2);
    assert_eq!(c.tick(2), Tick::CountedDown);
    assert_eq!(c.remaining(), 1);
    assert_eq!(c.tick(2), Tick::CountedDown);
    assert_eq!(c.remaining(), 0);
    assert_eq!(c.tick(2), Tick::Expired);
    assert_eq!(c.remaining(), 0);
}

#[test]
fn countdown_follows_duration_changes() {
    let mut c = Countdown::new(100);
    c.tick(100);
    c.tick(100);
    assert_eq!(c.remaining(), 98);
    assert_eq!(c.tick(400), Tick::Adjusted);
    assert_eq!(c.remaining(), 398);
    assert_eq!(c.tick(50), Tick::Adjusted);
    assert_eq!(c.remaining(), 48);
    assert_eq!(c.tick(0), Tick::Adjusted);
    assert_eq!(c.remaining(), 0);
    assert_eq!(c.tick(0), Tick::Expired);
}

#[test]
fn duration_steps_by_five_and_stops_at_ninety() {
    assert_eq!(lengthened(90), 95);
    assert_eq!(shortened(95), 90);
    assert_eq!(shortened(90), 90);
    assert_eq!(shortened(30), 30);
    assert_eq!(shortened(93), 90);
    assert_eq!(shortened(91), 90);
    assert_eq!(shortened(96), 91);
    assert!(can_shorten(95));
    assert!(!can_shorten(90));
    let s = AppState::default();
    assert_eq!(duration_mins(&s), 90);
}

#[test]
fn start_needs_names_and_students() {
    let mut s = AppState::default();
    s.exam.name = " ".to_string();
    assert_eq!(validate_start(&s), Some("Please enter the exam name and professor name."));
    s.exam.professor = "Prof".to_string();
    assert_eq!(validate_start(&s), Some("Please enter the exam name."));
    s.exam.name = "Math".to_string();
    s.exam.professor = "".to_string();
    assert_eq!(validate_start(&s), Some("Please enter the professor name."));
    s.exam.professor = "Prof".to_string();
    assert_eq!(validate_start(&s), Some("Please import a student list before starting."));
    s.students.push(Student::new("A".to_string(), "1".to_string(), "2".to_string()));
    assert_eq!(validate_start(&s), None);
}

#[test]
fn status_message_counts_students() {
    let mut s = AppState::default();
    let (title, body) = student_status_message(&s);
    assert_eq!(title, "No Students Imported");
    assert_eq!(body, "Import a CSV file exported from Incampo to get started.");
    s.students.push(Student::new("A".to_string(), "1".to_string(), "2".to_string()));
    s.students.push(Student::new("B".to_string(), "3".to_string(), "4".to_string()));
    let (title, body) = student_status_message(&s);
    assert_eq!(title, "Students Loaded");
    assert_eq!(body, "2 students ready for the exam.");
}

#[test]
fn summary_line_depends_on_the_query() {
    let mut s = AppState::default();
    s.students.push(Student::new("A".to_string(), "1".to_string(), "2".to_string()));
    s.students.push(Student::new("B".to_string(), "3".to_string(), "4".to_string()));
    s.set_present(1, true);
    assert_eq!(summary_text(&s, "  ", 2, 2), "2 students · 1 present in exam");
    assert_eq!(summary_text(&s, "b", 2, 1), "Showing 1 of 2 · 1 present in exam");
}
