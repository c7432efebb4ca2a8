//! Students and the parser for the student list CSV.

use vstd::prelude::*;
use crate::clock::Timestamp;
use crate::text::{
    chars_of, decimal, find_char, index_of, is_trimmed, lemma_index_of, lemma_trim_chars_from,
    lemma_trim_is_trimmed,
    line_bounds, lines, push_decimal, push_str, split3, string_from_chars, string_of_range, trim,
    trim_range,
};

verus! {

/// A registered student.
#[derive(Debug, Clone)]
pub struct Student {
    pub name: String,
    pub matriculation_number: String,
    pub birthdate: String,
    /// Marked as sitting the exam.
    pub present: bool,
    pub in_restroom: bool,
    pub restroom_entered_at: Option<Timestamp>,
    pub notes: Vec<String>,
}

/// The three columns of one student row.
pub struct StudentRecord {
    pub name: Seq<char>,
    pub matriculation_number: Seq<char>,
    pub birthdate: Seq<char>,
}

impl Student {
    /// A student who is absent, not in the restroom and without notes.
    pub fn new(name: String, matriculation_number: String, birthdate: String) -> (s: Self)
        ensures
            s.name == name,
            s.matriculation_number == matriculation_number,
            s.birthdate == birthdate,
            s.is_fresh(),
    {
        Student {
            name,
            matriculation_number,
            birthdate,
            present: false,
            in_restroom: false,
            restroom_entered_at: None,
            notes: Vec::new(),
        }
    }

    /// Absent, not in the restroom, no restroom time and no notes.
    pub open spec fn is_fresh(self) -> bool {
        &&& !self.present
        &&& !self.in_restroom
        &&& self.restroom_entered_at is None
        &&& self.notes@.len() == 0
    }

    /// A freshly imported student with the columns of `r`.
    pub open spec fn is_imported_from(self, r: StudentRecord) -> bool {
        &&& self.name@ == r.name
        &&& self.matriculation_number@ == r.matriculation_number
        &&& self.birthdate@ == r.birthdate
        &&& self.is_fresh()
    }
}

/// The message for a row with fewer than three columns.
pub open spec fn column_count_error(line_number: nat, columns: nat) -> Seq<char> {
    "Line "@ + decimal(line_number) + ": expected 3 columns (name, matno, birthdate), got "@
        + decimal(columns)
}

/// The records of `rows`, the first of which is line `line_number` of the
/// file: blank rows are skipped, columns are split at the first two commas
/// and trimmed; the first row with fewer than three columns is an error.
pub open spec fn parse_rows(rows: Seq<Seq<char>>, line_number: nat) -> Result<
    Seq<StudentRecord>,
    Seq<char>,
>
    decreases rows.len(),
{
    if rows.len() == 0 {
        Ok(seq![])
    } else {
        let t = trim(rows[0]);
        let rest = parse_rows(rows.drop_first(), line_number + 1);
        if t.len() == 0 {
            rest
        } else {
            let parts = split3(t);
            if parts.len() < 3 {
                Err(column_count_error(line_number, parts.len()))
            } else {
                match rest {
                    Ok(r) => Ok(
                        seq![
                            StudentRecord {
                                name: trim(parts[0]),
                                matriculation_number: trim(parts[1]),
                                birthdate: trim(parts[2]),
                            },
                        ] + r,
                    ),
                    Err(e) => Err(e),
                }
            }
        }
    }
}

/// The student list in `content`: its first line is a header, the rest
/// are rows `name,matriculation_number,birthdate`.
pub open spec fn parse_student_csv(content: Seq<char>) -> Result<Seq<StudentRecord>, Seq<char>> {
    let ls = lines(content);
    if ls.len() == 0 {
        Ok(seq![])
    } else {
        parse_rows(ls.drop_first(), 2)
    }
}

/// How many of `rows` hold something besides whitespace.
pub open spec fn nonblank_count(rows: Seq<Seq<char>>) -> nat
    decreases rows.len(),
{
    if rows.len() == 0 {
        0
    } else {
        nonblank_count(rows.drop_first()) + if trim(rows[0]).len() > 0 {
            1nat
        } else {
            0nat
        }
    }
}

/// Every column of every imported row is trimmed: no name, matriculation
/// number or birthdate starts or ends with whitespace, and none of them is
/// changed by trimming it again; the first two columns hold no comma;
/// and there is one student per data row that is not blank.
pub proof fn lemma_imported_columns_trimmed(content: Seq<char>)
    ensures
        parse_student_csv(content) matches Ok(recs) ==> recs.len() == if lines(content).len()
            == 0 {
            0
        } else {
            nonblank_count(lines(content).drop_first())
        },
        parse_student_csv(content) matches Ok(recs) ==> forall|i: int|
            0 <= i < recs.len() ==> {
                let r = #[trigger] recs[i];
                &&& is_trimmed(r.name) && trim(r.name) == r.name
                &&& is_trimmed(r.matriculation_number) && trim(r.matriculation_number)
                    == r.matriculation_number
                &&& is_trimmed(r.birthdate) && trim(r.birthdate) == r.birthdate
                &&& !r.name.contains(',')
                &&& !r.matriculation_number.contains(',')
            },
{
    let ls = lines(content);
    if ls.len() > 0 {
        lemma_rows_trimmed(ls.drop_first(), 2);
    }
}

proof fn lemma_rows_trimmed(rows: Seq<Seq<char>>, line_number: nat)
    ensures
        parse_rows(rows, line_number) matches Ok(recs) ==> recs.len() == nonblank_count(rows),
        parse_rows(rows, line_number) matches Ok(recs) ==> forall|i: int|
            0 <= i < recs.len() ==> {
                let r = #[trigger] recs[i];
                &&& is_trimmed(r.name) && trim(r.name) == r.name
                &&& is_trimmed(r.matriculation_number) && trim(r.matriculation_number)
                    == r.matriculation_number
                &&& is_trimmed(r.birthdate) && trim(r.birthdate) == r.birthdate
                &&& !r.name.contains(',')
                &&& !r.matriculation_number.contains(',')
            },
    decreases rows.len(),
{
    if rows.len() > 0 {
        lemma_rows_trimmed(rows.drop_first(), line_number + 1);
        let t = trim(rows[0]);
        if t.len() > 0 {
            let parts = split3(t);
            if parts.len() >= 3 {
                lemma_trim_is_trimmed(parts[0]);
                lemma_trim_is_trimmed(parts[1]);
                lemma_trim_is_trimmed(parts[2]);
                lemma_index_of(t, ',');
                let k1 = index_of(t, ',');
                let rest1 = t.skip(k1 + 1);
                lemma_index_of(rest1, ',');
                let k2 = index_of(rest1, ',');
                assert(!parts[0].contains(',')) by {
                    if parts[0].contains(',') {
                        let j = choose|j: int| 0 <= j < parts[0].len() && parts[0][j] == ',';
                        assert(parts[0][j] == t[j]);
                    }
                }
                assert(!parts[1].contains(',')) by {
                    if parts[1].contains(',') {
                        let j = choose|j: int| 0 <= j < parts[1].len() && parts[1][j] == ',';
                        assert(parts[1][j] == rest1[j]);
                    }
                }
                lemma_trim_chars_from(parts[0], ',');
                lemma_trim_chars_from(parts[1], ',');
                match parse_rows(rows.drop_first(), line_number + 1) {
                    Ok(rest) => {
                        let recs = parse_rows(rows, line_number)->Ok_0;
                        assert forall|i: int| 0 <= i < recs.len() implies {
                            let r = #[trigger] recs[i];
                            &&& is_trimmed(r.name) && trim(r.name) == r.name
                            &&& is_trimmed(r.matriculation_number) && trim(r.matriculation_number)
                                == r.matriculation_number
                            &&& is_trimmed(r.birthdate) && trim(r.birthdate) == r.birthdate
                            &&& !r.name.contains(',')
                            &&& !r.matriculation_number.contains(',')
                        } by {
                            if i > 0 {
                                assert(recs[i] == rest[i - 1]);
                            }
                        }
                    },
                    Err(_) => {},
                }
            }
        }
    }
}

/// `r` with `acc` in front of its records.
pub open spec fn prepend_records(
    acc: Seq<StudentRecord>,
    r: Result<Seq<StudentRecord>, Seq<char>>,
) -> Result<Seq<StudentRecord>, Seq<char>> {
    match r {
        Ok(x) => Ok(acc + x),
        Err(e) => Err(e),
    }
}

/// What parsing `content` owes: the imported students, one per record and
/// in order, or the error message.
pub open spec fn parsed_as(content: Seq<char>, r: Result<Vec<Student>, String>) -> bool {
    match parse_student_csv(content) {
        Ok(recs) => r is Ok && r->Ok_0.len() == recs.len() && forall|i: int|
            0 <= i < recs.len() ==> (#[trigger] r->Ok_0@[i]).is_imported_from(recs[i]),
        Err(m) => r is Err && r->Err_0@ == m,
    }
}

fn column_count_message(line_number: usize, columns: usize) -> (s: String)
    ensures
        s@ == column_count_error(line_number as nat, columns as nat),
{
    let mut out: Vec<char> = Vec::new();
    push_str(&mut out, "Line ");
    push_decimal(&mut out, line_number as u128);
    push_str(&mut out, ": expected 3 columns (name, matno, birthdate), got ");
    push_decimal(&mut out, columns as u128);
    assert(out@ =~= column_count_error(line_number as nat, columns as nat));
    string_from_chars(out)
}

/// Parses students from a CSV string (Incampo export format).
/// Expected columns: name, matriculation_number, birthdate.
pub fn parse_students_from_csv(content: &str) -> (r: Result<Vec<Student>, String>)
    ensures
        parsed_as(content@, r),
{
    let v = chars_of(content);
    let bounds = line_bounds(&v);
    let mut students: Vec<Student> = Vec::new();
    if bounds.len() == 0 {
        return Ok(students);
    }
    let ghost ls = lines(v@);
    let ghost mut acc: Seq<StudentRecord> = seq![];
    assert(ls.skip(1) =~= ls.drop_first());
    assert(prepend_records(acc, parse_rows(ls.skip(1), 2)) =~= parse_rows(ls.skip(1), 2)) by {
        match parse_rows(ls.skip(1), 2) {
            Ok(x) => {
                assert(acc + x =~= x);
            },
            Err(e) => {},
        }
    }
    let mut k: usize = 1;
    while k < bounds.len()
        invariant
            v@ == content@,
            ls == lines(v@),
            bounds.len() == ls.len(),
            forall|i: int| 0 <= i < bounds.len() ==> (#[trigger] bounds@[i]).0 <= bounds@[i].1 <= v.len(),
            forall|i: int|
                0 <= i < bounds.len() ==> #[trigger] v@.subrange(bounds@[i].0 as int, bounds@[i].1 as int)
                    == ls[i],
            1 <= k <= bounds.len(),
            parse_student_csv(content@) == prepend_records(acc, parse_rows(ls.skip(k as int), (k + 1) as nat)),
            students.len() == acc.len(),
            forall|i: int| 0 <= i < acc.len() ==> (#[trigger] students@[i]).is_imported_from(acc[i]),
        decreases bounds.len() - k,
    {
        let ghost rows = ls.skip(k as int);
        assert(rows[0] == ls[k as int]);
        assert(rows.drop_first() =~= ls.skip(k + 1));
        let (line_start, line_end) = bounds[k];
        assert(v@.subrange(bounds@[k as int].0 as int, bounds@[k as int].1 as int) == ls[k as int]);
        let (a, e) = trim_range(&v, line_start, line_end);
        let ghost t = v@.subrange(a as int, e as int);
        assert(t == trim(rows[0]));
        if a < e {
            let c1 = find_char(&v, ',', a, e);
            proof {
                lemma_index_of(t, ',');
                assert(v@.subrange(a as int, e as int) == t);
            }
            if c1 == e {
                proof {
                    assert(split3(t) == seq![t]);
                }
                return Err(column_count_message(k + 1, 1));
            }
            let ghost rest = t.skip(c1 - a + 1);
            assert(rest =~= v@.subrange(c1 + 1, e as int));
            let c2 = find_char(&v, ',', c1 + 1, e);
            proof {
                lemma_index_of(rest, ',');
            }
            if c2 == e {
                proof {
                    assert(split3(t) == seq![t.take(c1 - a), rest]);
                }
                return Err(column_count_message(k + 1, 2));
            }
            proof {
                assert(t.take(c1 - a) =~= v@.subrange(a as int, c1 as int));
                assert(rest.take(c2 - (c1 + 1)) =~= v@.subrange(c1 + 1, c2 as int));
                assert(rest.skip(c2 - (c1 + 1) + 1) =~= v@.subrange(c2 + 1, e as int));
            }
            let (n0, n1) = trim_range(&v, a, c1);
            let (m0, m1) = trim_range(&v, c1 + 1, c2);
            let (b0, b1) = trim_range(&v, c2 + 1, e);
            let student = Student::new(
                string_of_range(&v, n0, n1),
                string_of_range(&v, m0, m1),
                string_of_range(&v, b0, b1),
            );
            let ghost rec = StudentRecord {
                name: v@.subrange(n0 as int, n1 as int),
                matriculation_number: v@.subrange(m0 as int, m1 as int),
                birthdate: v@.subrange(b0 as int, b1 as int),
            };
            let ghost old_students = students@;
            students.push(student);
            proof {
                let parts = split3(t);
                assert(parts == seq![
                    v@.subrange(a as int, c1 as int),
                    v@.subrange(c1 + 1, c2 as int),
                    v@.subrange(c2 + 1, e as int),
                ]);
                let tail = parse_rows(ls.skip(k + 1), (k + 2) as nat);
                match tail {
                    Ok(x) => {
                        assert(acc + (seq![rec] + x) =~= acc.push(rec) + x);
                    },
                    Err(_) => {},
                }
                acc = acc.push(rec);
                assert forall|i: int| 0 <= i < acc.len() implies (#[trigger] students@[i]).is_imported_from(
                    acc[i],
                ) by {
                    if i < acc.len() - 1 {
                        assert(students@[i] == old_students[i]);
                    }
                }
            }
        }
        k += 1;
    }
    proof {
        assert(ls.skip(k as int) =~= Seq::<Seq<char>>::empty());
        assert(acc + Seq::<StudentRecord>::empty() =~= acc);
    }
    Ok(students)
}

} // verus!
