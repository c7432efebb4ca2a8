//! The shared session state and the operations the setup and exam screens
//! perform on it.

use vstd::prelude::*;
use crate::clock::{local_now, Timestamp};
use crate::models::exam::Exam;
use crate::models::exam_event::{EventKind, EventKindView, ExamEvent};
use crate::models::student::Student;
use crate::text::{
    contains_seq, lowercase, string_from_chars, text_contains, texts, to_lowercase, trim,
    trimmed_chars,
};

verus! {

/// Everything a session holds.
pub struct AppState {
    pub exam: Exam,
    pub students: Vec<Student>,
    pub timer_running: bool,
    pub events: Vec<ExamEvent>,
    pub started_at: Option<Timestamp>,
    /// Tracks whether ExamEnded has already been logged (avoids duplicates).
    pub exam_ended: bool,
}

/// `new` is `old` with one more event, of `kind` and with a valid
/// timestamp, at the end.
pub open spec fn logs_one(old: Seq<ExamEvent>, new: Seq<ExamEvent>, kind: EventKind) -> bool {
    &&& new.len() == old.len() + 1
    &&& new.drop_last() == old
    &&& new.last().kind == kind
    &&& new.last().timestamp.wf()
}

/// `new` is `old` with one more event, with a valid timestamp and of the
/// kind whose model is `kind`, at the end.
pub open spec fn logs_one_of(old: Seq<ExamEvent>, new: Seq<ExamEvent>, kind: EventKindView) -> bool {
    &&& new.len() == old.len() + 1
    &&& new.drop_last() == old
    &&& new.last().kind@ == kind
    &&& new.last().timestamp.wf()
}

/// `b` is `a` with possibly other notes.
pub open spec fn same_but_notes(a: Student, b: Student) -> bool {
    &&& b.name == a.name
    &&& b.matriculation_number == a.matriculation_number
    &&& b.birthdate == a.birthdate
    &&& b.present == a.present
    &&& b.in_restroom == a.in_restroom
    &&& b.restroom_entered_at == a.restroom_entered_at
}

/// The students `new` are `old` with only the one at `index` possibly
/// changed in its notes.
pub open spec fn notes_changed_at(old: Seq<Student>, new: Seq<Student>, index: int) -> bool {
    &&& new.len() == old.len()
    &&& forall|j: int| 0 <= j < old.len() && j != index ==> new[j] == old[j]
    &&& same_but_notes(old[index], new[index])
}

/// What ending the exam does: nothing when it has ended already; otherwise
/// it is marked ended and one `ExamEnded` event is logged.
pub open spec fn ends_exam(old: AppState, new: AppState) -> bool {
    if old.exam_ended {
        new == old
    } else {
        &&& new.exam_ended
        &&& logs_one_of(old.events@, new.events@, EventKindView::ExamEnded)
        &&& new.exam == old.exam
        &&& new.students == old.students
        &&& new.timer_running == old.timer_running
        &&& new.started_at == old.started_at
    }
}

/// Whether the student matches the lower-cased query `q` in one of the
/// three searchable columns.
pub open spec fn student_matches(s: Student, q: Seq<char>) -> bool {
    ||| contains_seq(lowercase(s.name@), q)
    ||| contains_seq(lowercase(s.matriculation_number@), q)
    ||| contains_seq(lowercase(s.birthdate@), q)
}

/// The indices of the students that a search for `query` lists: all of
/// them for a blank query, otherwise those matching the lower-cased,
/// trimmed query, in order.
pub open spec fn matching_indices(students: Seq<Student>, query: Seq<char>) -> Seq<usize> {
    let all = positions(students.len());
    if trim(query).len() == 0 {
        all
    } else {
        all.filter(|i: usize| student_matches(students[i as int], lowercase(trim(query))))
    }
}

/// The positions `0..n`.
pub open spec fn positions(n: nat) -> Seq<usize> {
    Seq::new(n, |i: int| i as usize)
}

/// `list` without the entries equal to `text`, in order.
pub open spec fn without(list: Seq<Seq<char>>, text: Seq<char>) -> Seq<Seq<char>> {
    list.filter(|n: Seq<char>| n != text)
}

/// Any two blank sessions agree in every field: what `reset` leaves is what
/// a new session starts with.
pub proof fn lemma_blank_sessions_agree(a: AppState, b: AppState)
    requires
        a.is_initial(),
        b.is_initial(),
    ensures
        a.exam.name@ == b.exam.name@,
        a.exam.professor@ == b.exam.professor@,
        a.exam.duration_secs == b.exam.duration_secs,
        texts(a.exam.notes@) == texts(b.exam.notes@),
        a.students@ == b.students@,
        a.events@ == b.events@,
        a.timer_running == b.timer_running,
        a.started_at == b.started_at,
        a.exam_ended == b.exam_ended,
{
    assert(a.students@ =~= b.students@);
    assert(a.events@ =~= b.events@);
    assert(texts(a.exam.notes@) =~= texts(b.exam.notes@));
}

/// Ending an exam twice logs `ExamEnded` once: the second call changes
/// nothing, and the first added at most one event.
pub proof fn lemma_end_exam_once(s0: AppState, s1: AppState, s2: AppState)
    requires
        ends_exam(s0, s1),
        ends_exam(s1, s2),
    ensures
        s2 == s1,
        s1.exam_ended,
        s1.events@.len() <= s0.events@.len() + 1,
{
}

/// Removing a note that was just added, and that was not there before,
/// gives back the earlier notes.
pub proof fn lemma_remove_undoes_add(notes: Seq<Seq<char>>, note: Seq<char>)
    requires
        !notes.contains(note),
    ensures
        without(notes.push(note), note) == notes,
    decreases notes.len(),
{
    reveal(Seq::filter);
    assert(notes.push(note).drop_last() =~= notes);
    lemma_without_absent(notes, note);
}

/// Removing a text that does not occur changes nothing.
pub proof fn lemma_without_absent(notes: Seq<Seq<char>>, note: Seq<char>)
    requires
        !notes.contains(note),
    ensures
        without(notes, note) == notes,
    decreases notes.len(),
{
    reveal(Seq::filter);
    if notes.len() > 0 {
        let init = notes.drop_last();
        assert(!init.contains(note)) by {
            if init.contains(note) {
                let j = choose|j: int| 0 <= j < init.len() && init[j] == note;
                assert(notes[j] == note);
            }
        }
        lemma_without_absent(init, note);
        assert(notes.last() != note) by {
            assert(notes[notes.len() - 1] == notes.last());
        }
        assert(init.push(notes.last()) =~= notes);
    }
}

/// After a removal no entry equal to the removed text is left.
pub proof fn lemma_without_removes_all(notes: Seq<Seq<char>>, note: Seq<char>)
    ensures
        !without(notes, note).contains(note),
{
    broadcast use Seq::lemma_filter_pred;

    if without(notes, note).contains(note) {
        let j = choose|j: int| 0 <= j < without(notes, note).len() && without(notes, note)[j] == note;
        assert((|n: Seq<char>| n != note)(without(notes, note)[j]));
    }
}

/// The positions kept by filtering `0..n` are below `n` and ascending.
proof fn lemma_index_filter(n: nat, pred: spec_fn(usize) -> bool)
    requires
        n <= usize::MAX + 1,
    ensures
        forall|k: int|
            0 <= k < positions(n).filter(pred).len() ==> (#[trigger] positions(n).filter(pred)[k])
                < n,
        forall|a: int, b: int|
            0 <= a < b < positions(n).filter(pred).len() ==> #[trigger] positions(n).filter(pred)[a]
                < #[trigger] positions(n).filter(pred)[b],
    decreases n,
{
    reveal(Seq::filter);
    if n > 0 {
        let s = positions(n);
        let prev = positions((n - 1) as nat);
        assert(s.drop_last() =~= prev);
        lemma_index_filter((n - 1) as nat, pred);
        let last = (n - 1) as usize;
        assert(s.last() == last);
        let f = s.filter(pred);
        let fp = prev.filter(pred);
        assert(f == if pred(last) {
            fp.push(last)
        } else {
            fp
        });
        assert forall|k: int| 0 <= k < f.len() implies (#[trigger] f[k]) < n by {
            if k < fp.len() {
                assert(f[k] == fp[k]);
            }
        }
        assert forall|a: int, b: int| 0 <= a < b < f.len() implies #[trigger] f[a] < #[trigger] f[b] by {
            assert(f[a] == fp[a]);
            if b < fp.len() {
                assert(f[b] == fp[b]);
            } else {
                assert(fp[a] < n - 1);
            }
        }
    }
}

/// A search lists a student exactly when its lower-cased name,
/// matriculation number or birthdate contains the lower-cased, trimmed
/// query (every student for a blank query), whatever its other fields,
/// each by its position and in list order.
pub proof fn lemma_search_exact(students: Seq<Student>, query: Seq<char>)
    requires
        students.len() <= usize::MAX,
    ensures
        forall|k: int|
            0 <= k < matching_indices(students, query).len() ==> {
                let i = #[trigger] matching_indices(students, query)[k];
                let q = lowercase(trim(query));
                &&& i < students.len()
                &&& (trim(query).len() == 0 || contains_seq(lowercase(students[i as int].name@), q)
                    || contains_seq(lowercase(students[i as int].matriculation_number@), q)
                    || contains_seq(lowercase(students[i as int].birthdate@), q))
            },
        forall|i: int|
            0 <= i < students.len() && (trim(query).len() == 0 || contains_seq(
                lowercase(students[i].name@),
                lowercase(trim(query)),
            ) || contains_seq(lowercase(students[i].matriculation_number@), lowercase(trim(query)))
                || contains_seq(lowercase(students[i].birthdate@), lowercase(trim(query))))
                ==> #[trigger] matching_indices(students, query).contains(i as usize),
        forall|a: int, b: int|
            0 <= a < b < matching_indices(students, query).len() ==> #[trigger] matching_indices(
                students,
                query,
            )[a] < #[trigger] matching_indices(students, query)[b],
{
    broadcast use Seq::lemma_filter_pred, Seq::lemma_filter_contains;

    let q = lowercase(trim(query));
    let all = positions(students.len());
    let pred = |i: usize| student_matches(students[i as int], q);
    lemma_index_filter(students.len(), pred);
    if trim(query).len() == 0 {
        assert forall|i: int| 0 <= i < students.len() implies #[trigger] all.contains(i as usize) by {
            assert(all[i] == i as usize);
        }
        lemma_index_filter(students.len(), |i: usize| true);
        assert forall|a: int, b: int| 0 <= a < b < all.len() implies #[trigger] all[a] < #[trigger] all[b] by {}
    } else {
        assert(matching_indices(students, query) == all.filter(pred));
        assert forall|k: int| 0 <= k < all.filter(pred).len() implies pred(
            #[trigger] all.filter(pred)[k],
        ) by {}
        assert forall|i: int| 0 <= i < students.len() && student_matches(students[i], q) implies #[trigger] all.filter(
            pred,
        ).contains(i as usize) by {
            assert(all[i] == i as usize);
            assert(pred(all[i]));
        }
    }
}

impl AppState {
    /// A blank session: initial exam, no students, no events, not started.
    pub open spec fn is_initial(self) -> bool {
        &&& self.exam.is_initial()
        &&& self.students@.len() == 0
        &&& !self.timer_running
        &&& self.events@.len() == 0
        &&& self.started_at is None
        &&& !self.exam_ended
    }

    /// Push a timestamped event into the log.
    pub fn log_event(&mut self, kind: EventKind)
        ensures
            logs_one(old(self).events@, final(self).events@, kind),
            final(self).exam == old(self).exam,
            final(self).students == old(self).students,
            final(self).timer_running == old(self).timer_running,
            final(self).started_at == old(self).started_at,
            final(self).exam_ended == old(self).exam_ended,
    {
        let ghost before = self.events@;
        self.events.push(ExamEvent::new(kind));
        assert(self.events@.drop_last() =~= before);
    }

    /// Wipe everything back to a blank slate, ready for a new exam session.
    pub fn reset(&mut self)
        ensures
            final(self).is_initial(),
    {
        *self = Self::default();
    }

    /// Everything but the event log and the exam's duration is unchanged.
    pub open spec fn same_but_duration_and_log(self, other: AppState) -> bool {
        &&& other.exam.name == self.exam.name
        &&& other.exam.professor == self.exam.professor
        &&& other.exam.notes == self.exam.notes
        &&& other.students == self.students
        &&& other.timer_running == self.timer_running
        &&& other.started_at == self.started_at
        &&& other.exam_ended == self.exam_ended
    }

    /// Whether the exam runs and has not ended: the periodic backup goes on
    /// only then.
    pub fn exam_in_progress(&self) -> (b: bool)
        ensures
            b == (self.timer_running && !self.exam_ended),
    {
        self.timer_running && !self.exam_ended
    }

    /// Starts the exam: fixes the duration to `minutes`, starts the timer,
    /// records the start time and logs `ExamStarted`.
    pub fn start_exam(&mut self, minutes: u32)
        requires
            minutes * 60 <= u32::MAX,
        ensures
            final(self).exam.duration_secs == minutes * 60,
            final(self).exam.name == old(self).exam.name,
            final(self).exam.professor == old(self).exam.professor,
            final(self).exam.notes == old(self).exam.notes,
            final(self).students == old(self).students,
            final(self).timer_running,
            final(self).started_at matches Some(t) && t.wf(),
            !final(self).exam_ended,
            logs_one_of(old(self).events@, final(self).events@, EventKindView::ExamStarted),
    {
        self.exam.duration_secs = minutes * 60;
        self.timer_running = true;
        self.started_at = Some(local_now());
        self.exam_ended = false;
        self.log_event(EventKind::ExamStarted);
    }

    /// Ends the exam, logging `ExamEnded` only the first time; returns
    /// whether it logged.
    pub fn end_exam(&mut self) -> (logged: bool)
        ensures
            logged == !old(self).exam_ended,
            ends_exam(*old(self), *final(self)),
    {
        if self.exam_ended {
            return false;
        }
        self.exam_ended = true;
        self.log_event(EventKind::ExamEnded);
        true
    }

    /// Sets the duration to `minutes`; while the exam runs the change is
    /// logged as `TimeExtended` with the difference and the new total.
    pub fn set_duration_minutes(&mut self, minutes: u32)
        requires
            minutes * 60 <= u32::MAX,
        ensures
            final(self).exam.duration_secs == minutes * 60,
            old(self).same_but_duration_and_log(*final(self)),
            old(self).timer_running ==> logs_one_of(
                old(self).events@,
                final(self).events@,
                EventKindView::TimeExtended {
                    added_secs: (minutes * 60 - old(self).exam.duration_secs) as i64,
                    new_total_secs: (minutes * 60) as u32,
                },
            ),
            !old(self).timer_running ==> final(self).events == old(self).events,
    {
        let old_secs = self.exam.duration_secs;
        self.exam.duration_secs = minutes * 60;
        if self.timer_running {
            let added = self.exam.duration_secs as i64 - old_secs as i64;
            let new_total = self.exam.duration_secs;
            self.log_event(EventKind::TimeExtended { added_secs: added, new_total_secs: new_total });
        }
    }

    /// Adds the trimmed `text` as an exam-wide note and logs it; blank text
    /// changes nothing. Returns whether a note was added.
    pub fn add_exam_note(&mut self, text: &str) -> (added: bool)
        ensures
            added == (trim(text@).len() > 0),
            !added ==> *final(self) == *old(self),
            added ==> texts(final(self).exam.notes@) == texts(old(self).exam.notes@).push(
                trim(text@),
            ),
            added ==> logs_one_of(
                old(self).events@,
                final(self).events@,
                EventKindView::ExamNoteAdded { note: trim(text@) },
            ),
            added ==> final(self).exam.name == old(self).exam.name && final(self).exam.professor
                == old(self).exam.professor && final(self).exam.duration_secs == old(
                self,
            ).exam.duration_secs && final(self).students == old(self).students
                && final(self).timer_running == old(self).timer_running && final(self).started_at
                == old(self).started_at && final(self).exam_ended == old(self).exam_ended,
    {
        let trimmed = trimmed_chars(text);
        if trimmed.len() == 0 {
            return false;
        }
        let note = string_from_chars(trimmed);
        let ghost before = self.exam.notes@;
        self.exam.notes.push(note.clone());
        assert(texts(self.exam.notes@) =~= texts(before).push(trim(text@)));
        self.log_event(EventKind::ExamNoteAdded { note });
        true
    }

    /// Removes every exam-wide note equal to `text`, keeping the others in
    /// order.
    pub fn remove_exam_note(&mut self, text: &str)
        ensures
            texts(final(self).exam.notes@) == without(texts(old(self).exam.notes@), text@),
            final(self).exam.name == old(self).exam.name,
            final(self).exam.professor == old(self).exam.professor,
            final(self).exam.duration_secs == old(self).exam.duration_secs,
            final(self).students == old(self).students,
            final(self).events == old(self).events,
            final(self).timer_running == old(self).timer_running,
            final(self).started_at == old(self).started_at,
            final(self).exam_ended == old(self).exam_ended,
    {
        let kept = retain_other(&self.exam.notes, text);
        self.exam.notes = kept;
    }

    /// Marks the student at `index` as in or out of the restroom and logs
    /// the entry or exit; an index past the list changes nothing. Returns
    /// whether a student was there.
    pub fn set_restroom(&mut self, index: usize, in_restroom: bool) -> (found: bool)
        ensures
            found == (index < old(self).students.len()),
            !found ==> *final(self) == *old(self),
            found ==> final(self).students@ == old(self).students@.update(
                index as int,
                Student { in_restroom, ..old(self).students@[index as int] },
            ),
            found ==> logs_one_of(
                old(self).events@,
                final(self).events@,
                if in_restroom {
                    EventKindView::StudentEnteredRestroom {
                        name: old(self).students@[index as int].name@,
                        matriculation_number: old(self).students@[index as int].matriculation_number@,
                    }
                } else {
                    EventKindView::StudentLeftRestroom {
                        name: old(self).students@[index as int].name@,
                        matriculation_number: old(self).students@[index as int].matriculation_number@,
                    }
                },
            ),
            found ==> final(self).exam == old(self).exam && final(self).timer_running == old(
                self,
            ).timer_running && final(self).started_at == old(self).started_at
                && final(self).exam_ended == old(self).exam_ended,
    {
        if index >= self.students.len() {
            return false;
        }
        self.students[index].in_restroom = in_restroom;
        let name = self.students[index].name.clone();
        let matriculation_number = self.students[index].matriculation_number.clone();
        let event = if in_restroom {
            EventKind::StudentEnteredRestroom { name, matriculation_number }
        } else {
            EventKind::StudentLeftRestroom { name, matriculation_number }
        };
        self.log_event(event);
        true
    }

    /// Marks the student at `index` as present or absent.
    pub fn set_present(&mut self, index: usize, present: bool)
        requires
            index < old(self).students.len(),
        ensures
            final(self).students@ == old(self).students@.update(
                index as int,
                Student { present, ..old(self).students@[index as int] },
            ),
            final(self).exam == old(self).exam,
            final(self).events == old(self).events,
            final(self).timer_running == old(self).timer_running,
            final(self).started_at == old(self).started_at,
            final(self).exam_ended == old(self).exam_ended,
    {
        self.students[index].present = present;
    }

    /// Adds the trimmed `text` as a note on the student at `index` and logs
    /// it; blank text or an index past the list changes nothing. Returns
    /// whether a note was added.
    pub fn add_student_note(&mut self, index: usize, text: &str) -> (added: bool)
        ensures
            added == (trim(text@).len() > 0 && index < old(self).students.len()),
            !added ==> *final(self) == *old(self),
            added ==> notes_changed_at(old(self).students@, final(self).students@, index as int),
            added ==> texts(final(self).students@[index as int].notes@) == texts(
                old(self).students@[index as int].notes@,
            ).push(trim(text@)),
            added ==> logs_one_of(
                old(self).events@,
                final(self).events@,
                EventKindView::StudentNoteAdded {
                    name: old(self).students@[index as int].name@,
                    matriculation_number: old(self).students@[index as int].matriculation_number@,
                    note: trim(text@),
                },
            ),
            added ==> final(self).exam == old(self).exam && final(self).timer_running == old(
                self,
            ).timer_running && final(self).started_at == old(self).started_at
                && final(self).exam_ended == old(self).exam_ended,
    {
        let trimmed = trimmed_chars(text);
        if trimmed.len() == 0 || index >= self.students.len() {
            return false;
        }
        let note = string_from_chars(trimmed);
        let ghost before = self.students@[index as int].notes@;
        self.students[index].notes.push(note.clone());
        assert(texts(self.students@[index as int].notes@) =~= texts(before).push(trim(text@)));
        let name = self.students[index].name.clone();
        let matriculation_number = self.students[index].matriculation_number.clone();
        self.log_event(EventKind::StudentNoteAdded { name, matriculation_number, note });
        true
    }

    /// Removes every note equal to `text` from the student at `index`; an
    /// index past the list changes nothing.
    pub fn remove_student_note(&mut self, index: usize, text: &str)
        ensures
            index >= old(self).students.len() ==> *final(self) == *old(self),
            index < old(self).students.len() ==> notes_changed_at(
                old(self).students@,
                final(self).students@,
                index as int,
            ) && texts(final(self).students@[index as int].notes@) == without(
                texts(old(self).students@[index as int].notes@),
                text@,
            ),
            final(self).exam == old(self).exam,
            final(self).events == old(self).events,
            final(self).timer_running == old(self).timer_running,
            final(self).started_at == old(self).started_at,
            final(self).exam_ended == old(self).exam_ended,
    {
        if index >= self.students.len() {
            return;
        }
        let kept = retain_other(&self.students[index].notes, text);
        self.students[index].notes = kept;
    }

    /// Indices of students matching the query (name, matriculation number, or birthdate).
    pub fn matching_student_indices(&self, query: &str) -> (r: Vec<usize>)
        ensures
            r@ == matching_indices(self.students@, query@),
    {
        let n = self.students.len();
        let ghost all = Seq::new(n as nat, |i: int| i as usize);
        let trimmed = trimmed_chars(query);
        let mut r: Vec<usize> = Vec::new();
        if trimmed.len() == 0 {
            let mut i: usize = 0;
            while i < n
                invariant
                    i <= n == self.students.len(),
                    r@ == Seq::new(i as nat, |j: int| j as usize),
                decreases n - i,
            {
                r.push(i);
                i += 1;
                assert(r@ =~= Seq::new(i as nat, |j: int| j as usize));
            }
            return r;
        }
        let q = to_lowercase(string_from_chars(trimmed).as_str());
        let ghost pred = |i: usize| student_matches(self.students@[i as int], q@);
        let mut i: usize = 0;
        while i < n
            invariant
                i <= n == self.students.len(),
                q@ == lowercase(trim(query@)),
                pred == (|i: usize| student_matches(self.students@[i as int], q@)),
                r@ == Seq::new(i as nat, |j: int| j as usize).filter(pred),
            decreases n - i,
        {
            let s = &self.students[i];
            let name = to_lowercase(s.name.as_str());
            let matno = to_lowercase(s.matriculation_number.as_str());
            let birth = to_lowercase(s.birthdate.as_str());
            let hit = text_contains(name.as_str(), q.as_str()) || text_contains(
                matno.as_str(),
                q.as_str(),
            ) || text_contains(birth.as_str(), q.as_str());
            let ghost cur = Seq::new(i as nat, |j: int| j as usize);
            let ghost next = Seq::new((i + 1) as nat, |j: int| j as usize);
            proof {
                reveal(Seq::filter);
                assert(hit == pred(i));
                assert(next.drop_last() =~= cur);
                assert(next.last() == i);
                assert(next.filter(pred) == if pred(i) {
                    cur.filter(pred).push(i)
                } else {
                    cur.filter(pred)
                });
            }
            if hit {
                r.push(i);
            }
            i += 1;
        }
        proof {
            assert(Seq::new(n as nat, |j: int| j as usize) =~= all);
        }
        r
    }
}

/// Copies of the entries of `list` that differ from `text`, in order.
fn retain_other(list: &Vec<String>, text: &str) -> (kept: Vec<String>)
    ensures
        texts(kept@) == without(texts(list@), text@),
{
    let target = text.to_owned();
    let mut kept: Vec<String> = Vec::new();
    let mut i: usize = 0;
    while i < list.len()
        invariant
            i <= list.len(),
            target@ == text@,
            texts(kept@) == without(texts(list@).take(i as int), text@),
        decreases list.len() - i,
    {
        let ghost before = kept@;
        let keep = list[i] != target;
        if keep {
            kept.push(list[i].clone());
        }
        proof {
            reveal(Seq::filter);
            let prefix = texts(list@).take(i + 1);
            assert(prefix.drop_last() =~= texts(list@).take(i as int));
            assert(prefix.last() == list@[i as int]@);
            if keep {
                assert(texts(kept@) =~= texts(before).push(list@[i as int]@));
            } else {
                assert(texts(kept@) =~= texts(before));
            }
        }
        i += 1;
    }
    assert(texts(list@).take(list.len() as int) =~= texts(list@));
    kept
}

impl Default for AppState {
    fn default() -> (s: Self)
        ensures
            s.is_initial(),
    {
        AppState {
            exam: Exam::default(),
            students: Vec::new(),
            timer_running: false,
            events: Vec::new(),
            started_at: None,
            exam_ended: false,
        }
    }
}

} // verus!
