use exam_companion::models::app_state::AppState;
use exam_companion::models::student::Student;
use exam_companion::text::text_contains;

fn state() -> AppState {
    let mut s = AppState::default();
    s.students.push(Student::new("Alice Müller".to_string(), "12345678".to_string(), "2001-04-12".to_string()));
    s.students.push(Student::new("Bob Meier".to_string(), "87654321".to_string(), "2000-09-03".to_string()));
    s.students.push(Student::new("ÉMILE Zola".to_string(), "555".to_string(), "1999-12-31".to_string()));
    s
}

#[test]
fn blank_query_lists_everyone() {
    let s = state();
    assert_eq!(s.matching_student_indices(""), vec![0, 1, 2]);
    assert_eq!(s.matching_student_indices("   \t"), vec![0, 1, 2]);
}

#[test]
fn search_ignores_case() {
    let s = state();
    assert_eq!(s.matching_student_indices("ALICE"), vec![0]);
    assert_eq!(s.matching_student_indices("meier"), vec![1]);
    assert_eq!(s.matching_student_indices("émile"), vec![2]);
}

#[test]
fn search_trims_the_query() {
    let s = state();
    assert_eq!(s.matching_student_indices("  bob  "), vec![1]);
}

#[test]
fn search_covers_matriculation_number_and_birthdate() {
    let s = state();
    assert_eq!(s.matching_student_indices("4321"), vec![1]);
    assert_eq!(s.matching_student_indices("-12-"), vec![2]);
    assert_eq!(s.matching_student_indices("2001"), vec![0]);
    assert_eq!(s.matching_student_indices("e"), vec![0, 1, 2]);
}

#[test]
fn search_without_hits_is_empty() {
    let s = state();
    assert!(s.matching_student_indices("zzz").is_empty());
    assert!(AppState::default().matching_student_indices("a").is_empty());
}

#[test]
fn contains_matches_substrings() {
    assert!(text_contains("hello", "ell"));
    assert!(text_contains("hello", ""));
    assert!(text_contains("", ""));
    assert!(text_contains("hello", "hello"));
    assert!(!text_contains("hello", "hello!"));
    assert!(!text_contains("hello", "Hell"));
    assert!(text_contains("ababc", "abc"));
}
