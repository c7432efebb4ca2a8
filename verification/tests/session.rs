use exam_companion::models::app_state::AppState;
use exam_companion::models::exam::Exam;
use exam_companion::models::exam_event::EventKind;
use exam_companion::models::student::Student;

fn with_students() -> AppState {
    let mut s = AppState::default();
    s.students.push(Student::new("Alice".to_string(), "111".to_string(), "2000-01-01".to_string()));
    s.students.push(Student::new("Bob".to_string(), "222".to_string(), "2001-01-01".to_string()));
    s
}

fn kinds(s: &AppState) -> Vec<EventKind> {
    s.events.iter().map(|e| e.kind.clone()).collect()
}

#[test]
fn a_new_session_is_blank() {
    let s = AppState::default();
    assert_eq!(s.exam.name, "Untitled Exam");
    assert_eq!(s.exam.professor, "");
    assert_eq!(s.exam.duration_secs, 90 * 60);
    assert!(s.exam.notes.is_empty());
    assert!(s.students.is_empty() && s.events.is_empty());
    assert!(!s.timer_running && !s.exam_ended && s.started_at.is_none());
    let e = Exam::default();
    assert_eq!(e.name, "Untitled Exam");
}

#[test]
fn log_event_appends() {
    let mut s = AppState::default();
    s.log_event(EventKind::ExamStarted);
    s.log_event(EventKind::ExamNoteAdded { note: "n".to_string() });
    assert_eq!(kinds(&s), vec![EventKind::ExamStarted, EventKind::ExamNoteAdded { note: "n".to_string() }]);
}

#[test]
fn reset_returns_to_a_blank_session() {
    let mut s = with_students();
    s.exam.name = "Physics".to_string();
    s.start_exam(100);
    s.add_exam_note("note");
    s.end_exam();
    s.reset();
    assert_eq!(s.exam.name, "Untitled Exam");
    assert_eq!(s.exam.duration_secs, 5400);
    assert!(s.students.is_empty() && s.events.is_empty() && s.exam.notes.is_empty());
    assert!(!s.timer_running && !s.exam_ended && s.started_at.is_none());
}

#[test]
fn starting_sets_duration_timer_and_start_time() {
    let mut s = with_students();
    s.exam_ended = true;
    s.start_exam(120);
    assert_eq!(s.exam.duration_secs, 7200);
    assert!(s.timer_running);
    assert!(s.started_at.is_some());
    assert!(!s.exam_ended);
    assert_eq!(kinds(&s), vec![EventKind::ExamStarted]);
}

#[test]
fn the_exam_ends_once() {
    let mut s = with_students();
    s.start_exam(90);
    assert!(s.end_exam());
    assert!(!s.end_exam());
    assert!(!s.end_exam());
    assert!(s.exam_ended);
    assert_eq!(kinds(&s), vec![EventKind::ExamStarted, EventKind::ExamEnded]);
}

#[test]
fn duration_changes_are_logged_only_while_running() {
    let mut s = AppState::default();
    s.set_duration_minutes(95);
    assert_eq!(s.exam.duration_secs, 5700);
    assert!(s.events.is_empty());
    s.timer_running = true;
    s.set_duration_minutes(100);
    s.set_duration_minutes(90);
    assert_eq!(s.exam.duration_secs, 5400);
    assert_eq!(
        kinds(&s),
        vec![
            EventKind::TimeExtended { added_secs: 300, new_total_secs: 6000 },
            EventKind::TimeExtended { added_secs: -600, new_total_secs: 5400 },
        ]
    );
}

#[test]
fn exam_notes_are_trimmed_and_blank_ones_ignored() {
    let mut s = AppState::default();
    assert!(!s.add_exam_note("   "));
    assert!(s.exam.notes.is_empty() && s.events.is_empty());
    assert!(s.add_exam_note("  No phones  "));
    assert_eq!(s.exam.notes, vec!["No phones".to_string()]);
    assert_eq!(kinds(&s), vec![EventKind::ExamNoteAdded { note: "No phones".to_string() }]);
}

#[test]
fn removing_a_note_removes_every_copy() {
    let mut s = AppState::default();
    s.add_exam_note("a");
    s.add_exam_note("b");
    s.add_exam_note("a");
    s.remove_exam_note("a");
    assert_eq!(s.exam.notes, vec!["b".to_string()]);
    assert_eq!(s.events.len(), 3);
    s.remove_exam_note("zzz");
    assert_eq!(s.exam.notes, vec!["b".to_string()]);
}

#[test]
fn adding_then_removing_a_note_restores_the_notes() {
    let mut s = AppState::default();
    s.add_exam_note("first");
    s.add_exam_note("second");
    s.remove_exam_note("second");
    assert_eq!(s.exam.notes, vec!["first".to_string()]);
}

#[test]
fn restroom_visits_are_logged() {
    let mut s = with_students();
    assert!(s.set_restroom(1, true));
    assert!(s.students[1].in_restroom);
    assert!(s.set_restroom(1, false));
    assert!(!s.students[1].in_restroom);
    assert!(!s.set_restroom(5, true));
    assert_eq!(
        kinds(&s),
        vec![
            EventKind::StudentEnteredRestroom { name: "Bob".to_string(), matriculation_number: "222".to_string() },
            EventKind::StudentLeftRestroom { name: "Bob".to_string(), matriculation_number: "222".to_string() },
        ]
    );
}

#[test]
fn attendance_is_marked_per_student() {
    let mut s = with_students();
    s.set_present(0, true);
    assert!(s.students[0].present);
    assert!(!s.students[1].present);
    s.set_present(0, false);
    assert!(!s.students[0].present);
    assert!(s.events.is_empty());
}

#[test]
fn student_notes_are_added_and_removed() {
    let mut s = with_students();
    assert!(s.add_student_note(0, "  cheating suspicion "));
    assert!(!s.add_student_note(0, " "));
    assert!(!s.add_student_note(9, "x"));
    assert!(s.add_student_note(0, "left early"));
    assert_eq!(s.students[0].notes, vec!["cheating suspicion".to_string(), "left early".to_string()]);
    assert_eq!(
        kinds(&s)[0],
        EventKind::StudentNoteAdded {
            name: "Alice".to_string(),
            matriculation_number: "111".to_string(),
            note: "cheating suspicion".to_string(),
        }
    );
    s.remove_student_note(0, "cheating suspicion");
    s.remove_student_note(7, "left early");
    assert_eq!(s.students[0].notes, vec!["left early".to_string()]);
    assert!(s.students[1].notes.is_empty());
    assert_eq!(s.events.len(), 2);
}

#[test]
fn backups_run_only_while_the_exam_is_in_progress() {
    let mut s = with_students();
    assert!(!s.exam_in_progress());
    s.start_exam(90);
    assert!(s.exam_in_progress());
    s.end_exam();
    assert!(!s.exam_in_progress());
}
