//! The Markdown session report.

use vstd::prelude::*;
use crate::clock::Timestamp;
use crate::models::app_state::AppState;
use crate::models::exam_event::{EventKind, EventKindView, ExamEvent};
use crate::models::student::Student;
use crate::text::{
    concat_map, contains_seq, decimal, lemma_concat_map_add, lemma_concat_map_take,
    lemma_contains_middle, lemma_take_all, push_decimal, push_range,
    push_signed_decimal, push_str, signed_decimal, string_from_chars, texts, trim, trim_range,
    chars_of,
};

verus! {

/// `a / d` rounded toward zero, as Rust's integer division gives it.
pub open spec fn div_toward_zero(a: int, d: int) -> int {
    if a >= 0 {
        a / d
    } else {
        -((-a) / d)
    }
}

/// The sentence describing an event in the report's log.
pub open spec fn describe(kind: EventKindView) -> Seq<char> {
    match kind {
        EventKindView::ExamStarted => "Exam started"@,
        EventKindView::ExamEnded => "Exam ended"@,
        EventKindView::TimeExtended { added_secs, new_total_secs } => "+"@ + signed_decimal(
            div_toward_zero(added_secs as int, 60),
        ) + " min additional time granted (new total: "@ + decimal((new_total_secs / 60) as nat)
            + " min)"@,
        EventKindView::StudentEnteredRestroom { name, matriculation_number } => name + " ("@
            + matriculation_number + ") entered restroom"@,
        EventKindView::StudentLeftRestroom { name, matriculation_number } => name + " ("@
            + matriculation_number + ") left restroom"@,
        EventKindView::StudentNoteAdded { name, matriculation_number, note } => "Note added for "@
            + name + " ("@ + matriculation_number + "): \""@ + note + "\""@,
        EventKindView::ExamNoteAdded { note } => "Exam note added: \""@ + note + "\""@,
    }
}

/// Appends the description of `kind`.
pub fn push_description(out: &mut Vec<char>, kind: &EventKind)
    ensures
        final(out)@ == old(out)@ + describe(kind@),
{
    match kind {
        EventKind::ExamStarted => push_str(out, "Exam started"),
        EventKind::ExamEnded => push_str(out, "Exam ended"),
        EventKind::TimeExtended { added_secs, new_total_secs } => {
            let a = *added_secs;
            let added_mins: i128 = if a >= 0 {
                (a / 60) as i128
            } else {
                let magnitude: u64 = ((-(a + 1)) as u64) + 1;
                -((magnitude / 60) as i128)
            };
            assert(added_mins == div_toward_zero(a as int, 60));
            push_str(out, "+");
            push_signed_decimal(out, added_mins);
            push_str(out, " min additional time granted (new total: ");
            push_decimal(out, (*new_total_secs / 60) as u128);
            push_str(out, " min)");
        },
        EventKind::StudentEnteredRestroom { name, matriculation_number } => {
            push_str(out, name.as_str());
            push_str(out, " (");
            push_str(out, matriculation_number.as_str());
            push_str(out, ") entered restroom");
        },
        EventKind::StudentLeftRestroom { name, matriculation_number } => {
            push_str(out, name.as_str());
            push_str(out, " (");
            push_str(out, matriculation_number.as_str());
            push_str(out, ") left restroom");
        },
        EventKind::StudentNoteAdded { name, matriculation_number, note } => {
            push_str(out, "Note added for ");
            push_str(out, name.as_str());
            push_str(out, " (");
            push_str(out, matriculation_number.as_str());
            push_str(out, "): \"");
            push_str(out, note.as_str());
            push_str(out, "\"");
        },
        EventKind::ExamNoteAdded { note } => {
            push_str(out, "Exam note added: \"");
            push_str(out, note.as_str());
            push_str(out, "\"");
        },
    }
    assert(final(out)@ =~= old(out)@ + describe(kind@));
}

/// The sentence describing an event in the report's log.
pub fn describe_event(kind: &EventKind) -> (s: String)
    ensures
        s@ == describe(kind@),
{
    let mut out: Vec<char> = Vec::new();
    push_description(&mut out, kind);
    assert(out@ =~= describe(kind@));
    string_from_chars(out)
}

// ---------------------------------------------------------------------------
// Header
// ---------------------------------------------------------------------------

/// The trimmed `t`, or `fallback` where that is empty.
pub open spec fn trimmed_or(t: Seq<char>, fallback: Seq<char>) -> Seq<char> {
    if trim(t).len() == 0 {
        fallback
    } else {
        trim(t)
    }
}

/// The date of the start, or "Unknown" before the exam started.
pub open spec fn start_date(started_at: Option<Timestamp>) -> Seq<char> {
    match started_at {
        Some(t) => t.date_text(),
        None => "Unknown"@,
    }
}

/// The time of the start, or "Unknown" before the exam started.
pub open spec fn start_time(started_at: Option<Timestamp>) -> Seq<char> {
    match started_at {
        Some(t) => t.time_of_day_text(),
        None => "Unknown"@,
    }
}

/// The exam header: name, professor, date, start time, duration.
pub open spec fn header_section(state: AppState) -> Seq<char> {
    "# Exam Report: "@ + trimmed_or(state.exam.name@, "Untitled Exam"@) + "\n\n"@
        + "**Professor:** "@ + trimmed_or(state.exam.professor@, "—"@) + "  \n"@ + "**Date:** "@
        + start_date(state.started_at) + "  \n"@ + "**Started at:** "@ + start_time(
        state.started_at,
    ) + "  \n"@ + "**Duration:** "@ + decimal((state.exam.duration_secs / 60) as nat)
        + " min  \n"@ + "\n---\n\n"@
}

fn push_trimmed_or(out: &mut Vec<char>, t: &String, fallback: &str)
    ensures
        final(out)@ == old(out)@ + trimmed_or(t@, fallback@),
{
    let v = chars_of(t.as_str());
    let (a, b) = trim_range(&v, 0, v.len());
    assert(v@.subrange(0, v.len() as int) =~= v@);
    if a == b {
        push_str(out, fallback);
    } else {
        push_range(out, &v, a, b);
    }
}

fn push_header(out: &mut Vec<char>, state: &AppState)
    ensures
        final(out)@ == old(out)@ + header_section(*state),
{
    push_str(out, "# Exam Report: ");
    push_trimmed_or(out, &state.exam.name, "Untitled Exam");
    push_str(out, "\n\n");
    push_str(out, "**Professor:** ");
    push_trimmed_or(out, &state.exam.professor, "—");
    push_str(out, "  \n");
    push_str(out, "**Date:** ");
    match &state.started_at {
        Some(t) => t.push_date(out),
        None => push_str(out, "Unknown"),
    }
    push_str(out, "  \n");
    push_str(out, "**Started at:** ");
    match &state.started_at {
        Some(t) => t.push_time_of_day(out),
        None => push_str(out, "Unknown"),
    }
    push_str(out, "  \n");
    push_str(out, "**Duration:** ");
    push_decimal(out, (state.exam.duration_secs / 60) as u128);
    push_str(out, " min  \n");
    push_str(out, "\n---\n\n");
    assert(final(out)@ =~= old(out)@ + header_section(*state));
}

// ---------------------------------------------------------------------------
// Attendance
// ---------------------------------------------------------------------------

/// How many of `students` are present.
pub open spec fn present_count(students: Seq<Student>) -> nat
    decreases students.len(),
{
    if students.len() == 0 {
        0
    } else {
        present_count(students.drop_last()) + if students.last().present {
            1nat
        } else {
            0nat
        }
    }
}

/// No more students are present than registered.
pub proof fn lemma_present_count_bound(students: Seq<Student>)
    ensures
        present_count(students) <= students.len(),
    decreases students.len(),
{
    if students.len() > 0 {
        lemma_present_count_bound(students.drop_last());
    }
}

/// `Student::present` as a function value.
pub open spec fn is_present_fn() -> spec_fn(Student) -> bool {
    |s: Student| s.present
}

/// The present count is the number of students marked present.
pub proof fn lemma_present_count_is_filter(students: Seq<Student>)
    ensures
        present_count(students) == students.filter(is_present_fn()).len(),
    decreases students.len(),
{
    reveal(Seq::filter);
    if students.len() > 0 {
        lemma_present_count_is_filter(students.drop_last());
    }
}

/// The status column of a student.
pub open spec fn status_text(s: Student) -> Seq<char> {
    if s.present {
        "✅ Present"@
    } else {
        "❌ Absent"@
    }
}

/// A student's row of the attendance table.
pub open spec fn attendance_row(s: Student) -> Seq<char> {
    "| "@ + s.name@ + " | "@ + s.matriculation_number@ + " | "@ + s.birthdate@ + " | "@
        + status_text(s) + " |\n"@
}

/// `attendance_row` as a function value.
pub open spec fn attendance_row_fn() -> spec_fn(Student) -> Seq<char> {
    |s: Student| attendance_row(s)
}

/// The summary line under the attendance table.
pub open spec fn summary_line(students: Seq<Student>) -> Seq<char> {
    "**Summary:** "@ + decimal(present_count(students)) + " present · "@ + decimal(
        (students.len() - present_count(students)) as nat,
    ) + " absent · "@ + decimal(students.len()) + " registered\n\n"@
}

/// Every student with the status, and a summary of the counts.
pub open spec fn attendance_section(students: Seq<Student>) -> Seq<char> {
    "## Attendance\n\n"@ + if students.len() == 0 {
        "*No students were imported.*\n\n"@
    } else {
        "| Student | Matriculation No. | Birthdate | Status |\n"@
            + "|---------|-------------------|-----------|--------|\n"@ + concat_map(
            students,
            attendance_row_fn(),
        ) + "\n"@ + summary_line(students)
    } + "---\n\n"@
}

fn push_attendance_row(out: &mut Vec<char>, s: &Student)
    ensures
        final(out)@ == old(out)@ + attendance_row(*s),
{
    push_str(out, "| ");
    push_str(out, s.name.as_str());
    push_str(out, " | ");
    push_str(out, s.matriculation_number.as_str());
    push_str(out, " | ");
    push_str(out, s.birthdate.as_str());
    push_str(out, " | ");
    if s.present {
        push_str(out, "✅ Present");
    } else {
        push_str(out, "❌ Absent");
    }
    push_str(out, " |\n");
    assert(final(out)@ =~= old(out)@ + attendance_row(*s));
}

/// The number of present students.
pub fn count_present(students: &Vec<Student>) -> (n: usize)
    ensures
        n == present_count(students@),
{
    let mut n: usize = 0;
    let mut i: usize = 0;
    while i < students.len()
        invariant
            i <= students.len(),
            n == present_count(students@.take(i as int)),
            n <= i,
        decreases students.len() - i,
    {
        assert(students@.take(i + 1).drop_last() =~= students@.take(i as int));
        if students[i].present {
            n += 1;
        }
        i += 1;
    }
    proof {
        lemma_take_all(students@);
    }
    n
}

fn push_attendance_rows(out: &mut Vec<char>, students: &Vec<Student>)
    ensures
        final(out)@ == old(out)@ + concat_map(students@, attendance_row_fn()),
{
    let ghost rows_start = out@;
    let mut i: usize = 0;
    while i < students.len()
        invariant
            i <= students.len(),
            out@ == rows_start + concat_map(students@.take(i as int), attendance_row_fn()),
        decreases students.len() - i,
    {
        push_attendance_row(out, &students[i]);
        proof {
            lemma_concat_map_take(students@, attendance_row_fn(), i as int);
        }
        i += 1;
    }
    proof {
        lemma_take_all(students@);
    }
}

fn push_summary(out: &mut Vec<char>, students: &Vec<Student>)
    ensures
        final(out)@ == old(out)@ + summary_line(students@),
{
    let present = count_present(students);
    let total = students.len();
    proof {
        lemma_present_count_bound(students@);
    }
    let absent = total - present;
    push_str(out, "**Summary:** ");
    push_decimal(out, present as u128);
    push_str(out, " present · ");
    push_decimal(out, absent as u128);
    push_str(out, " absent · ");
    push_decimal(out, total as u128);
    push_str(out, " registered\n\n");
    assert(final(out)@ =~= old(out)@ + summary_line(students@));
}

fn push_attendance(out: &mut Vec<char>, students: &Vec<Student>)
    ensures
        final(out)@ == old(out)@ + attendance_section(students@),
{
    push_str(out, "## Attendance\n\n");
    if students.len() == 0 {
        push_str(out, "*No students were imported.*\n\n");
    } else {
        push_str(out, "| Student | Matriculation No. | Birthdate | Status |\n");
        push_str(out, "|---------|-------------------|-----------|--------|\n");
        push_attendance_rows(out, students);
        push_str(out, "\n");
        push_summary(out, students);
    }
    push_str(out, "---\n\n");
    assert(final(out)@ =~= old(out)@ + attendance_section(students@));
}

// ---------------------------------------------------------------------------
// Event log
// ---------------------------------------------------------------------------

/// An event's row of the log table.
pub open spec fn event_row(e: ExamEvent) -> Seq<char> {
    "| "@ + e.timestamp.time_of_day_text() + " | "@ + describe(e.kind@) + " |\n"@
}

/// `event_row` as a function value.
pub open spec fn event_row_fn() -> spec_fn(ExamEvent) -> Seq<char> {
    |e: ExamEvent| event_row(e)
}

/// Every event with its time of day.
pub open spec fn event_section(events: Seq<ExamEvent>) -> Seq<char> {
    "## Event Log\n\n"@ + if events.len() == 0 {
        "*No events were recorded.*\n\n"@
    } else {
        "| Time | Event |\n"@ + "|------|-------|\n"@ + concat_map(events, event_row_fn()) + "\n"@
    } + "---\n\n"@
}

fn push_events(out: &mut Vec<char>, events: &Vec<ExamEvent>)
    ensures
        final(out)@ == old(out)@ + event_section(events@),
{
    push_str(out, "## Event Log\n\n");
    if events.len() == 0 {
        push_str(out, "*No events were recorded.*\n\n");
    } else {
        push_str(out, "| Time | Event |\n");
        push_str(out, "|------|-------|\n");
        let ghost rows_start = out@;
        let mut i: usize = 0;
        while i < events.len()
            invariant
                i <= events.len(),
                out@ == rows_start + concat_map(events@.take(i as int), event_row_fn()),
            decreases events.len() - i,
        {
            let ghost before = out@;
            let e = &events[i];
            push_str(out, "| ");
            e.timestamp.push_time_of_day(out);
            push_str(out, " | ");
            push_description(out, &e.kind);
            push_str(out, " |\n");
            proof {
                assert(out@ =~= before + event_row(events@[i as int]));
                lemma_concat_map_take(events@, event_row_fn(), i as int);
            }
            i += 1;
        }
        proof {
            lemma_take_all(events@);
        }
        push_str(out, "\n");
    }
    push_str(out, "---\n\n");
    assert(final(out)@ =~= old(out)@ + event_section(events@));
}

// ---------------------------------------------------------------------------
// Notes
// ---------------------------------------------------------------------------

/// A note as a list item.
pub open spec fn bullet(note: Seq<char>) -> Seq<char> {
    "- "@ + note + "\n"@
}

/// `bullet` as a function value.
pub open spec fn bullet_fn() -> spec_fn(Seq<char>) -> Seq<char> {
    |note: Seq<char>| bullet(note)
}

fn push_bullets(out: &mut Vec<char>, notes: &Vec<String>)
    ensures
        final(out)@ == old(out)@ + concat_map(texts(notes@), bullet_fn()),
{
    let ghost start = out@;
    let ghost ts = texts(notes@);
    let mut i: usize = 0;
    while i < notes.len()
        invariant
            i <= notes.len(),
            ts == texts(notes@),
            out@ == start + concat_map(ts.take(i as int), bullet_fn()),
        decreases notes.len() - i,
    {
        let ghost before = out@;
        push_str(out, "- ");
        push_str(out, notes[i].as_str());
        push_str(out, "\n");
        proof {
            assert(ts[i as int] == notes@[i as int]@);
            assert(out@ =~= before + bullet(ts[i as int]));
            lemma_concat_map_take(ts, bullet_fn(), i as int);
        }
        i += 1;
    }
    proof {
        lemma_take_all(ts);
    }
}

/// A student's notes under a heading with the name and matriculation
/// number; nothing for a student without notes.
pub open spec fn student_notes_block(s: Student) -> Seq<char> {
    if s.notes@.len() == 0 {
        seq![]
    } else {
        "### "@ + s.name@ + " ("@ + s.matriculation_number@ + ")\n\n"@ + concat_map(
            texts(s.notes@),
            bullet_fn(),
        ) + "\n"@
    }
}

/// `student_notes_block` as a function value.
pub open spec fn student_notes_block_fn() -> spec_fn(Student) -> Seq<char> {
    |s: Student| student_notes_block(s)
}

/// Whether some student has a note.
pub open spec fn any_student_notes(students: Seq<Student>) -> bool {
    exists|i: int| 0 <= i < students.len() && (#[trigger] students[i]).notes@.len() > 0
}

/// The per-student notes, grouped by student.
pub open spec fn student_notes_section(students: Seq<Student>) -> Seq<char> {
    "## Student Notes\n\n"@ + if students.len() == 0 {
        "*No students were imported.*\n\n"@
    } else if !any_student_notes(students) {
        "*No student notes were recorded.*\n\n"@
    } else {
        concat_map(students, student_notes_block_fn())
    } + "---\n\n"@
}

fn push_student_notes(out: &mut Vec<char>, students: &Vec<Student>)
    ensures
        final(out)@ == old(out)@ + student_notes_section(students@),
{
    push_str(out, "## Student Notes\n\n");
    let mut any = false;
    let mut k: usize = 0;
    while k < students.len()
        invariant
            k <= students.len(),
            any == exists|i: int| 0 <= i < k && (#[trigger] students@[i]).notes@.len() > 0,
        decreases students.len() - k,
    {
        if students[k].notes.len() > 0 {
            any = true;
        }
        k += 1;
    }
    if students.len() == 0 {
        push_str(out, "*No students were imported.*\n\n");
    } else if !any {
        push_str(out, "*No student notes were recorded.*\n\n");
    } else {
        let ghost blocks_start = out@;
        let mut i: usize = 0;
        while i < students.len()
            invariant
                i <= students.len(),
                out@ == blocks_start + concat_map(students@.take(i as int), student_notes_block_fn()),
            decreases students.len() - i,
        {
            let ghost before = out@;
            let s = &students[i];
            if s.notes.len() > 0 {
                push_str(out, "### ");
                push_str(out, s.name.as_str());
                push_str(out, " (");
                push_str(out, s.matriculation_number.as_str());
                push_str(out, ")\n\n");
                push_bullets(out, &s.notes);
                push_str(out, "\n");
            }
            proof {
                assert(out@ =~= before + student_notes_block(students@[i as int]));
                lemma_concat_map_take(students@, student_notes_block_fn(), i as int);
            }
            i += 1;
        }
        proof {
            lemma_take_all(students@);
        }
    }
    push_str(out, "---\n\n");
    assert(final(out)@ =~= old(out)@ + student_notes_section(students@));
}

/// The exam-wide notes.
pub open spec fn exam_notes_section(notes: Seq<String>) -> Seq<char> {
    "## Exam Notes\n\n"@ + if notes.len() == 0 {
        "*No exam-wide notes were recorded.*\n\n"@
    } else {
        concat_map(texts(notes), bullet_fn()) + "\n"@
    }
}

fn push_exam_notes(out: &mut Vec<char>, notes: &Vec<String>)
    ensures
        final(out)@ == old(out)@ + exam_notes_section(notes@),
{
    push_str(out, "## Exam Notes\n\n");
    if notes.len() == 0 {
        push_str(out, "*No exam-wide notes were recorded.*\n\n");
    } else {
        push_bullets(out, notes);
        push_str(out, "\n");
    }
    assert(final(out)@ =~= old(out)@ + exam_notes_section(notes@));
}

// ---------------------------------------------------------------------------
// The whole report
// ---------------------------------------------------------------------------

/// One list line per note, in order.
pub open spec fn note_lines(notes: Seq<Seq<char>>) -> Seq<char>
    decreases notes.len(),
{
    if notes.len() == 0 {
        seq![]
    } else {
        "- "@ + notes[0] + "\n"@ + note_lines(notes.drop_first())
    }
}

proof fn lemma_note_lines_add(a: Seq<Seq<char>>, b: Seq<Seq<char>>)
    ensures
        note_lines(a + b) == note_lines(a) + note_lines(b),
    decreases a.len(),
{
    if a.len() == 0 {
        assert(a + b =~= b);
        assert(note_lines(a) + note_lines(b) =~= note_lines(b));
    } else {
        lemma_note_lines_add(a.drop_first(), b);
        assert((a + b).drop_first() =~= a.drop_first() + b);
        assert((a + b)[0] == a[0]);
        assert(note_lines(a + b) =~= note_lines(a) + note_lines(b));
    }
}

proof fn lemma_bullets_are_note_lines(notes: Seq<Seq<char>>)
    ensures
        concat_map(notes, bullet_fn()) == note_lines(notes),
    decreases notes.len(),
{
    if notes.len() > 0 {
        lemma_bullets_are_note_lines(notes.drop_last());
        lemma_note_lines_add(notes.drop_last(), seq![notes.last()]);
        assert(notes.drop_last() + seq![notes.last()] =~= notes);
        let one = seq![notes.last()];
        assert(one.drop_first() =~= Seq::<Seq<char>>::empty());
        assert(note_lines(one.drop_first()) == Seq::<char>::empty());
        assert(one[0] == notes.last());
        assert(note_lines(one) =~= bullet(notes.last()));
        assert(bullet_fn()(notes.last()) == bullet(notes.last()));
    }
}

/// Every note of every student is in the report, in order, right under
/// the heading with the student's name and matriculation number, one list
/// line per note and then a blank line.
pub proof fn lemma_report_lists_student_notes(state: AppState, i: int)
    requires
        0 <= i < state.students@.len(),
        state.students@[i].notes@.len() > 0,
    ensures
        contains_seq(
            markdown_report(state),
            "### "@ + state.students@[i].name@ + " ("@ + state.students@[i].matriculation_number@
                + ")\n\n"@ + note_lines(texts(state.students@[i].notes@)) + "\n"@,
        ),
{
    let students = state.students@;
    let s = students[i];
    let f = student_notes_block_fn();
    assert(any_student_notes(students));
    let before = students.take(i);
    let after = students.skip(i + 1);
    assert(students =~= before + seq![s] + after);
    lemma_concat_map_add(before + seq![s], after, f);
    lemma_concat_map_add(before, seq![s], f);
    let one = seq![s];
    assert(one.drop_last() =~= Seq::<Student>::empty());
    assert(concat_map(one.drop_last(), f) == Seq::<char>::empty());
    assert(one.last() == s);
    assert(f(s) == student_notes_block(s));
    assert(concat_map(one, f) =~= student_notes_block(s));
    lemma_bullets_are_note_lines(texts(s.notes@));
    let block = student_notes_block(s);
    let pre = header_section(state) + attendance_section(students) + event_section(state.events@)
        + "## Student Notes\n\n"@ + concat_map(before, f);
    let post = concat_map(after, f) + "---\n\n"@ + exam_notes_section(state.exam.notes@);
    assert(markdown_report(state) =~= pre + block + post);
    lemma_contains_middle(pre, block, post);
}

/// The report: header, attendance, event log, student notes, exam notes.
pub open spec fn markdown_report(state: AppState) -> Seq<char> {
    header_section(state) + attendance_section(state.students@) + event_section(state.events@)
        + student_notes_section(state.students@) + exam_notes_section(state.exam.notes@)
}

/// Build a full Markdown exam report from the current app state.
pub fn export_to_markdown(state: &AppState) -> (md: String)
    ensures
        md@ == markdown_report(*state),
{
    let mut out: Vec<char> = Vec::new();
    push_header(&mut out, state);
    push_attendance(&mut out, &state.students);
    push_events(&mut out, &state.events);
    push_student_notes(&mut out, &state.students);
    push_exam_notes(&mut out, &state.exam.notes);
    assert(out@ =~= markdown_report(*state));
    string_from_chars(out)
}

} // verus!
