use exam_companion::clock::Timestamp;
use exam_companion::data::export::{describe_event, export_to_markdown};
use exam_companion::models::app_state::AppState;
use exam_companion::models::exam_event::{EventKind, ExamEvent};
use exam_companion::models::student::Student;

fn at(hour: u32, minute: u32, second: u32) -> Timestamp {
    Timestamp { year: 2024, month: 3, day: 7, hour, minute, second, nanosecond: 0 }
}

#[test]
fn report_of_a_blank_session() {
    let md = export_to_markdown(&AppState::default());
    let expected = "# Exam Report: Untitled Exam\n\n\
**Professor:** —  \n\
**Date:** Unknown  \n\
**Started at:** Unknown  \n\
**Duration:** 90 min  \n\
\n---\n\n\
## Attendance\n\n\
*No students were imported.*\n\n\
---\n\n\
## Event Log\n\n\
*No events were recorded.*\n\n\
---\n\n\
## Student Notes\n\n\
*No students were imported.*\n\n\
---\n\n\
## Exam Notes\n\n\
*No exam-wide notes were recorded.*\n\n";
    assert_eq!(md, expected);
}

#[test]
fn report_of_a_running_session() {
    let mut s = AppState::default();
    s.exam.name = "  Math Final ".to_string();
    s.exam.professor = "   ".to_string();
    s.started_at = Some(at(9, 5, 3));
    let mut alice = Student::new("Alice".to_string(), "123".to_string(), "2000-01-01".to_string());
    alice.present = true;
    alice.notes.push("Late arrival".to_string());
    s.students.push(alice);
    s.students.push(Student::new("Bob".to_string(), "456".to_string(), "2001-02-02".to_string()));
    s.events.push(ExamEvent { timestamp: at(9, 5, 3), kind: EventKind::ExamStarted });
    s.events.push(ExamEvent {
        timestamp: at(9, 30, 0),
        kind: EventKind::StudentEnteredRestroom { name: "Alice".to_string(), matriculation_number: "123".to_string() },
    });
    s.events.push(ExamEvent {
        timestamp: at(10, 0, 0),
        kind: EventKind::TimeExtended { added_secs: 600, new_total_secs: 6000 },
    });
    s.exam.notes.push("Calculators allowed".to_string());
    let md = export_to_markdown(&s);
    let expected = "# Exam Report: Math Final\n\n\
**Professor:** —  \n\
**Date:** 2024-03-07  \n\
**Started at:** 09:05:03  \n\
**Duration:** 90 min  \n\
\n---\n\n\
## Attendance\n\n\
| Student | Matriculation No. | Birthdate | Status |\n\
|---------|-------------------|-----------|--------|\n\
| Alice | 123 | 2000-01-01 | ✅ Present |\n\
| Bob | 456 | 2001-02-02 | ❌ Absent |\n\
\n\
**Summary:** 1 present · 1 absent · 2 registered\n\n\
---\n\n\
## Event Log\n\n\
| Time | Event |\n\
|------|-------|\n\
| 09:05:03 | Exam started |\n\
| 09:30:00 | Alice (123) entered restroom |\n\
| 10:00:00 | +10 min additional time granted (new total: 100 min) |\n\
\n\
---\n\n\
## Student Notes\n\n\
### Alice (123)\n\n\
- Late arrival\n\
\n\
---\n\n\
## Exam Notes\n\n\
- Calculators allowed\n\
\n";
    assert_eq!(md, expected);
}

#[test]
fn students_without_notes_are_reported_as_such() {
    let mut s = AppState::default();
    s.exam.professor = " Prof. Schmidt ".to_string();
    s.students.push(Student::new("A".to_string(), "1".to_string(), "x".to_string()));
    let md = export_to_markdown(&s);
    assert!(md.contains("**Professor:** Prof. Schmidt  \n"));
    assert!(md.contains("## Student Notes\n\n*No student notes were recorded.*\n\n---\n\n"));
    assert!(md.contains("**Summary:** 0 present · 1 absent · 1 registered\n\n"));
}

#[test]
fn describes_every_kind_of_event() {
    assert_eq!(describe_event(&EventKind::ExamStarted), "Exam started");
    assert_eq!(describe_event(&EventKind::ExamEnded), "Exam ended");
    assert_eq!(
        describe_event(&EventKind::TimeExtended { added_secs: 300, new_total_secs: 5700 }),
        "+5 min additional time granted (new total: 95 min)"
    );
    assert_eq!(
        describe_event(&EventKind::StudentEnteredRestroom { name: "Ann".to_string(), matriculation_number: "7".to_string() }),
        "Ann (7) entered restroom"
    );
    assert_eq!(
        describe_event(&EventKind::StudentLeftRestroom { name: "Ann".to_string(), matriculation_number: "7".to_string() }),
        "Ann (7) left restroom"
    );
    assert_eq!(
        describe_event(&EventKind::StudentNoteAdded {
            name: "Ann".to_string(),
            matriculation_number: "7".to_string(),
            note: "phone out".to_string(),
        }),
        "Note added for Ann (7): \"phone out\""
    );
    assert_eq!(
        describe_event(&EventKind::ExamNoteAdded { note: "Quiet!".to_string() }),
        "Exam note added: \"Quiet!\""
    );
}

#[test]
fn shortened_time_keeps_the_plus_sign_and_rounds_toward_zero() {
    assert_eq!(
        describe_event(&EventKind::TimeExtended { added_secs: -300, new_total_secs: 5400 }),
        "+-5 min additional time granted (new total: 90 min)"
    );
    assert_eq!(
        describe_event(&EventKind::TimeExtended { added_secs: -59, new_total_secs: 119 }),
        "+0 min additional time granted (new total: 1 min)"
    );
    assert_eq!(
        describe_event(&EventKind::TimeExtended { added_secs: i64::MIN, new_total_secs: 0 }),
        "+-153722867280912930 min additional time granted (new total: 0 min)"
    );
}
