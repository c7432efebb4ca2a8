use exam_companion::data::import::students_from_csv;
use exam_companion::models::student::{parse_students_from_csv, Student};

fn columns(s: &Student) -> (&str, &str, &str) {
    (s.name.as_str(), s.matriculation_number.as_str(), s.birthdate.as_str())
}

#[test]
fn parses_the_documented_example() {
    let csv = "name,matriculation_number,birthdate\nAlice Müller,12345678,2001-04-12\nBob Meier,87654321,2000-09-03\n";
    let students = parse_students_from_csv(csv).unwrap();
    assert_eq!(students.len(), 2);
    assert_eq!(columns(&students[0]), ("Alice Müller", "12345678", "2001-04-12"));
    assert_eq!(columns(&students[1]), ("Bob Meier", "87654321", "2000-09-03"));
    for s in &students {
        assert!(!s.present);
        assert!(!s.in_restroom);
        assert!(s.restroom_entered_at.is_none());
        assert!(s.notes.is_empty());
    }
}

#[test]
fn trims_columns_and_skips_blank_rows() {
    let csv = "header\r\n  Alice , 1 ,2001-01-01 \r\n\r\n   \n\tBob,2,2002-02-02";
    let students = parse_students_from_csv(csv).unwrap();
    assert_eq!(students.len(), 2);
    assert_eq!(columns(&students[0]), ("Alice", "1", "2001-01-01"));
    assert_eq!(columns(&students[1]), ("Bob", "2", "2002-02-02"));
}

#[test]
fn third_column_keeps_further_commas() {
    let students = parse_students_from_csv("h\nA,1,2000,extra\n").unwrap();
    assert_eq!(columns(&students[0]), ("A", "1", "2000,extra"));
}

#[test]
fn empty_columns_are_allowed() {
    let students = parse_students_from_csv("h\n,,\n").unwrap();
    assert_eq!(columns(&students[0]), ("", "", ""));
}

#[test]
fn reports_a_row_with_two_columns() {
    let err = parse_students_from_csv("h\nAlice,123\n").unwrap_err();
    assert_eq!(err, "Line 2: expected 3 columns (name, matno, birthdate), got 2");
}

#[test]
fn line_numbers_count_blank_rows() {
    let err = parse_students_from_csv("h\nA,1,2\n\nBob\n").unwrap_err();
    assert_eq!(err, "Line 4: expected 3 columns (name, matno, birthdate), got 1");
}

#[test]
fn the_first_bad_row_is_reported() {
    let err = parse_students_from_csv("h\nx\ny,z\n").unwrap_err();
    assert_eq!(err, "Line 2: expected 3 columns (name, matno, birthdate), got 1");
}

#[test]
fn the_header_is_never_parsed() {
    assert_eq!(parse_students_from_csv("just one column\n").unwrap().len(), 0);
    assert_eq!(parse_students_from_csv("").unwrap().len(), 0);
}

#[test]
fn import_refuses_a_list_without_rows() {
    assert_eq!(students_from_csv("name,matriculation_number,birthdate\n").unwrap_err(), "CSV contains no student rows.");
    assert_eq!(students_from_csv("h\n\n  \n").unwrap_err(), "CSV contains no student rows.");
}

#[test]
fn import_passes_parse_errors_on() {
    assert_eq!(
        students_from_csv("h\nonly\n").unwrap_err(),
        "Line 2: expected 3 columns (name, matno, birthdate), got 1"
    );
}

#[test]
fn import_returns_the_students() {
    let students = students_from_csv("h\nA,1,2\nB,3,4\n").unwrap();
    assert_eq!(students.len(), 2);
    assert_eq!(columns(&students[1]), ("B", "3", "4"));
}
