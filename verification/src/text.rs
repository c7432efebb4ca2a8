//! Character-level text handling on `Seq<char>` models: whitespace trimming,
//! searching, line and field splitting, and decimal rendering of numbers.

use vstd::prelude::*;

verus! {

broadcast use vstd::string::group_string_axioms;

// ---------------------------------------------------------------------------
// Conversions between strings and character vectors
// ---------------------------------------------------------------------------

/// The characters of a string slice, in order.
pub fn chars_of(s: &str) -> (out: Vec<char>)
    ensures
        out@ == s@,
{
    let mut out: Vec<char> = Vec::new();
    for c in it: s.chars()
        invariant
            it.seq() == s@,
            out@ == it.seq().take(it.index() as int),
    {
        out.push(c);
    }
    out
}

/// Appends the characters of `s` to `out`.
pub fn push_str(out: &mut Vec<char>, s: &str)
    ensures
        final(out)@ == old(out)@ + s@,
{
    let ghost start = out@;
    for c in it: s.chars()
        invariant
            it.seq() == s@,
            out@ == start + it.seq().take(it.index() as int),
    {
        out.push(c);
    }
}

/// Appends `v[from..to]` to `out`.
pub fn push_range(out: &mut Vec<char>, v: &Vec<char>, from: usize, to: usize)
    requires
        from <= to <= v.len(),
    ensures
        final(out)@ == old(out)@ + v@.subrange(from as int, to as int),
{
    let ghost start = out@;
    let mut i = from;
    while i < to
        invariant
            from <= i <= to <= v.len(),
            out@ == start + v@.subrange(from as int, i as int),
        decreases to - i,
    {
        out.push(v[i]);
        i += 1;
        assert(v@.subrange(from as int, i as int) =~= v@.subrange(from as int, i - 1).push(
            v@[i - 1],
        ));
    }
}

/// A `String` holding exactly the given characters.
///
/// Trusted: collects the characters with std's `String::from_iter`, which
/// keeps them in order.
#[verifier::external_body]
pub(crate) fn string_from_chars(chars: Vec<char>) -> (s: String)
    ensures
        s@ == chars@,
{
    String::from_iter(chars)
}

/// A `String` holding `v[from..to]`.
pub fn string_of_range(v: &Vec<char>, from: usize, to: usize) -> (s: String)
    requires
        from <= to <= v.len(),
    ensures
        s@ == v@.subrange(from as int, to as int),
{
    let mut out: Vec<char> = Vec::new();
    push_range(&mut out, v, from, to);
    string_from_chars(out)
}

/// The character sequences of a list of strings.
pub open spec fn texts(v: Seq<String>) -> Seq<Seq<char>> {
    v.map_values(|s: String| s@)
}

/// The concatenation of `f` applied to each element of `s`, in order.
pub open spec fn concat_map<A>(s: Seq<A>, f: spec_fn(A) -> Seq<char>) -> Seq<char>
    decreases s.len(),
{
    if s.len() == 0 {
        seq![]
    } else {
        concat_map(s.drop_last(), f) + f(s.last())
    }
}

/// One more element of the prefix adds its image at the end.
pub proof fn lemma_concat_map_take<A>(s: Seq<A>, f: spec_fn(A) -> Seq<char>, i: int)
    requires
        0 <= i < s.len(),
    ensures
        concat_map(s.take(i + 1), f) == concat_map(s.take(i), f) + f(s[i]),
{
    assert(s.take(i + 1).drop_last() =~= s.take(i));
}

/// `concat_map` over a concatenation is the concatenation of the parts.
pub proof fn lemma_concat_map_add<A>(a: Seq<A>, b: Seq<A>, f: spec_fn(A) -> Seq<char>)
    ensures
        concat_map(a + b, f) == concat_map(a, f) + concat_map(b, f),
    decreases b.len(),
{
    if b.len() == 0 {
        assert(a + b =~= a);
        assert(concat_map(a, f) + concat_map(b, f) =~= concat_map(a, f));
    } else {
        lemma_concat_map_add(a, b.drop_last(), f);
        assert((a + b).drop_last() =~= a + b.drop_last());
        assert((a + b).last() == b.last());
        assert(concat_map(a + b, f) =~= concat_map(a, f) + concat_map(b, f));
    }
}

/// A text occurs in any text that holds it between two others.
pub proof fn lemma_contains_middle(a: Seq<char>, n: Seq<char>, b: Seq<char>)
    ensures
        contains_seq(a + n + b, n),
{
    let h = a + n + b;
    assert(h.subrange(a.len() as int, (a.len() + n.len()) as int) =~= n);
}

/// Over the whole sequence, the prefix is the sequence.
pub proof fn lemma_take_all<A>(s: Seq<A>)
    ensures
        s.take(s.len() as int) == s,
{
    assert(s.take(s.len() as int) =~= s);
}

// ---------------------------------------------------------------------------
// Whitespace and trimming
// ---------------------------------------------------------------------------

/// Unicode White_Space: the characters for which `char::is_whitespace` holds.
pub open spec fn is_white_space(c: char) -> bool {
    ||| ('\t' <= c && c <= '\r')
    ||| c == ' '
    ||| c == '\u{85}'
    ||| c == '\u{A0}'
    ||| c == '\u{1680}'
    ||| ('\u{2000}' <= c && c <= '\u{200A}')
    ||| c == '\u{2028}'
    ||| c == '\u{2029}'
    ||| c == '\u{202F}'
    ||| c == '\u{205F}'
    ||| c == '\u{3000}'
}

/// Whether `c` is Unicode whitespace.
pub fn white_space(c: char) -> (b: bool)
    ensures
        b == is_white_space(c),
{
    ('\t' <= c && c <= '\r') || c == ' ' || c == '\u{85}' || c == '\u{A0}' || c == '\u{1680}'
        || ('\u{2000}' <= c && c <= '\u{200A}') || c == '\u{2028}' || c == '\u{2029}' || c
        == '\u{202F}' || c == '\u{205F}' || c == '\u{3000}'
}

/// `s` without its leading whitespace.
pub open spec fn trim_start(s: Seq<char>) -> Seq<char>
    decreases s.len(),
{
    if s.len() > 0 && is_white_space(s[0]) {
        trim_start(s.drop_first())
    } else {
        s
    }
}

/// `s` without its trailing whitespace.
pub open spec fn trim_end(s: Seq<char>) -> Seq<char>
    decreases s.len(),
{
    if s.len() > 0 && is_white_space(s.last()) {
        trim_end(s.drop_last())
    } else {
        s
    }
}

/// `s` without leading and trailing whitespace, as `str::trim` gives it.
pub open spec fn trim(s: Seq<char>) -> Seq<char> {
    trim_end(trim_start(s))
}

/// Whether `s` neither starts nor ends with whitespace.
pub open spec fn is_trimmed(s: Seq<char>) -> bool {
    s.len() == 0 || (!is_white_space(s[0]) && !is_white_space(s.last()))
}

/// `trim_start` leaves no leading whitespace.
pub proof fn lemma_trim_start_clean(s: Seq<char>)
    ensures
        trim_start(s).len() == 0 || !is_white_space(trim_start(s)[0]),
    decreases s.len(),
{
    if s.len() > 0 && is_white_space(s[0]) {
        lemma_trim_start_clean(s.drop_first());
    }
}

/// `trim_end` keeps a prefix of `s` and leaves no trailing whitespace.
pub proof fn lemma_trim_end_prefix(s: Seq<char>)
    ensures
        trim_end(s) == s.take(trim_end(s).len() as int),
        trim_end(s).len() <= s.len(),
        trim_end(s).len() == 0 || !is_white_space(trim_end(s).last()),
    decreases s.len(),
{
    if s.len() > 0 && is_white_space(s.last()) {
        lemma_trim_end_prefix(s.drop_last());
        let t = trim_end(s.drop_last());
        assert(s.drop_last().take(t.len() as int) =~= s.take(t.len() as int));
    } else {
        assert(s.take(s.len() as int) =~= s);
    }
}

/// `trim_start` keeps a suffix of `s`.
pub proof fn lemma_trim_start_suffix(s: Seq<char>)
    ensures
        trim_start(s).len() <= s.len(),
        trim_start(s) == s.skip(s.len() - trim_start(s).len()),
    decreases s.len(),
{
    if s.len() > 0 && is_white_space(s[0]) {
        lemma_trim_start_suffix(s.drop_first());
        let t = trim_start(s.drop_first());
        assert(s.drop_first().skip(s.drop_first().len() - t.len()) =~= s.skip(s.len() - t.len()));
    } else {
        assert(s.skip(0) =~= s);
    }
}

/// Every character of `trim(s)` is a character of `s`.
pub proof fn lemma_trim_chars_from(s: Seq<char>, c: char)
    requires
        !s.contains(c),
    ensures
        !trim(s).contains(c),
{
    lemma_trim_start_suffix(s);
    let a = trim_start(s);
    lemma_trim_end_prefix(a);
    let t = trim(s);
    if t.contains(c) {
        let j = choose|j: int| 0 <= j < t.len() && t[j] == c;
        assert(t[j] == a[j]);
        assert(a[j] == s[s.len() - a.len() + j]);
    }
}

/// A trimmed text is trimmed: it neither starts nor ends with whitespace,
/// so trimming it again changes nothing.
pub proof fn lemma_trim_is_trimmed(s: Seq<char>)
    ensures
        is_trimmed(trim(s)),
        trim(trim(s)) == trim(s),
{
    let a = trim_start(s);
    lemma_trim_start_clean(s);
    lemma_trim_end_prefix(a);
    let t = trim_end(a);
    if t.len() > 0 {
        assert(t[0] == a[0]);
    }
    assert(trim_start(t) == t);
    lemma_trim_end_prefix(t);
    assert(trim_end(t) == t);
}

/// The bounds of `trim(v[from..to])` inside `v`.
pub fn trim_range(v: &Vec<char>, from: usize, to: usize) -> (r: (usize, usize))
    requires
        from <= to <= v.len(),
    ensures
        from <= r.0 <= r.1 <= to,
        v@.subrange(r.0 as int, r.1 as int) == trim(v@.subrange(from as int, to as int)),
{
    let mut a = from;
    while a < to && white_space(v[a])
        invariant
            from <= a <= to <= v.len(),
            trim_start(v@.subrange(from as int, to as int)) == trim_start(
                v@.subrange(a as int, to as int),
            ),
        decreases to - a,
    {
        assert(v@.subrange(a as int, to as int).drop_first() =~= v@.subrange(a + 1, to as int));
        a += 1;
    }
    let mut b = to;
    while b > a && white_space(v[b - 1])
        invariant
            from <= a <= b <= to <= v.len(),
            trim_start(v@.subrange(from as int, to as int)) == v@.subrange(a as int, to as int),
            trim(v@.subrange(from as int, to as int)) == trim_end(
                v@.subrange(a as int, b as int),
            ),
        decreases b - a,
    {
        assert(v@.subrange(a as int, b as int).drop_last() =~= v@.subrange(a as int, b - 1));
        b -= 1;
    }
    (a, b)
}

/// `s` trimmed, as a character vector.
pub fn trimmed_chars(s: &str) -> (out: Vec<char>)
    ensures
        out@ == trim(s@),
{
    let v = chars_of(s);
    let (a, b) = trim_range(&v, 0, v.len());
    assert(v@.subrange(0, v.len() as int) =~= v@);
    let mut out: Vec<char> = Vec::new();
    push_range(&mut out, &v, a, b);
    out
}

// ---------------------------------------------------------------------------
// Searching
// ---------------------------------------------------------------------------

/// The position of the first `c` in `s`, or `s.len()` where there is none.
pub open spec fn index_of(s: Seq<char>, c: char) -> int
    decreases s.len(),
{
    if s.len() == 0 {
        0
    } else if s[0] == c {
        0
    } else {
        1 + index_of(s.drop_first(), c)
    }
}

/// `index_of` is the first position holding `c`.
pub proof fn lemma_index_of(s: Seq<char>, c: char)
    ensures
        0 <= index_of(s, c) <= s.len(),
        index_of(s, c) < s.len() ==> s[index_of(s, c)] == c,
        forall|j: int| 0 <= j < index_of(s, c) ==> s[j] != c,
    decreases s.len(),
{
    if s.len() > 0 && s[0] != c {
        lemma_index_of(s.drop_first(), c);
        assert forall|j: int| 0 <= j < index_of(s, c) implies s[j] != c by {
            if j > 0 {
                assert(s[j] == s.drop_first()[j - 1]);
            }
        }
    }
}

/// A position `p` before which no `c` occurs, and which holds `c` or ends
/// `s`, is `index_of(s, c)`.
pub proof fn lemma_index_of_is(s: Seq<char>, c: char, p: int)
    requires
        0 <= p <= s.len(),
        p < s.len() ==> s[p] == c,
        forall|j: int| 0 <= j < p ==> s[j] != c,
    ensures
        index_of(s, c) == p,
    decreases s.len(),
{
    if s.len() > 0 && s[0] != c {
        assert forall|j: int| 0 <= j < p - 1 implies s.drop_first()[j] != c by {
            assert(s.drop_first()[j] == s[j + 1]);
        }
        lemma_index_of_is(s.drop_first(), c, p - 1);
    }
}

/// The first position in `v[from..to]` (counted from `from`) holding `c`,
/// or `to` where there is none.
pub fn find_char(v: &Vec<char>, c: char, from: usize, to: usize) -> (p: usize)
    requires
        from <= to <= v.len(),
    ensures
        from <= p <= to,
        p - from == index_of(v@.subrange(from as int, to as int), c),
{
    let mut p = from;
    while p < to && v[p] != c
        invariant
            from <= p <= to <= v.len(),
            forall|j: int| from <= j < p ==> v@[j] != c,
        decreases to - p,
    {
        p += 1;
    }
    proof {
        let s = v@.subrange(from as int, to as int);
        assert forall|j: int| 0 <= j < p - from implies s[j] != c by {
            assert(s[j] == v@[from + j]);
        }
        lemma_index_of_is(s, c, p - from);
    }
    p
}

/// Whether `needle` occurs in `haystack` as a contiguous run.
pub open spec fn contains_seq(haystack: Seq<char>, needle: Seq<char>) -> bool {
    exists|i: int|
        0 <= i && i + needle.len() <= haystack.len() && #[trigger] haystack.subrange(
            i,
            i + needle.len(),
        ) == needle
}

/// Whether `needle` occurs in `haystack` at position `at`.
fn occurs_at(haystack: &Vec<char>, needle: &Vec<char>, at: usize) -> (b: bool)
    requires
        at + needle.len() <= haystack.len(),
    ensures
        b == (haystack@.subrange(at as int, at + needle.len()) == needle@),
{
    let mut k: usize = 0;
    while k < needle.len()
        invariant
            at + needle.len() <= haystack.len(),
            k <= needle.len(),
            forall|j: int| 0 <= j < k ==> haystack@[at + j] == needle@[j],
        decreases needle.len() - k,
    {
        if haystack[at + k] != needle[k] {
            assert(haystack@.subrange(at as int, at + needle.len())[k as int] != needle@[k as int]);
            return false;
        }
        k += 1;
    }
    assert(haystack@.subrange(at as int, at + needle.len()) =~= needle@);
    true
}

/// Whether `needle` occurs in `haystack`, as `str::contains` with a string
/// pattern answers it.
pub fn text_contains(haystack: &str, needle: &str) -> (b: bool)
    ensures
        b == contains_seq(haystack@, needle@),
{
    let h = chars_of(haystack);
    let n = chars_of(needle);
    if n.len() > h.len() {
        return false;
    }
    let last = h.len() - n.len();
    let mut i: usize = 0;
    loop
        invariant
            h@ == haystack@,
            n@ == needle@,
            last == h.len() - n.len(),
            i <= last,
            forall|j: int| 0 <= j < i ==> #[trigger] h@.subrange(j, j + n.len()) != n@,
        decreases last - i,
    {
        if occurs_at(&h, &n, i) {
            return true;
        }
        if i == last {
            return false;
        }
        i += 1;
    }
}

// ---------------------------------------------------------------------------
// Lines and fields
// ---------------------------------------------------------------------------

/// `s` without one trailing carriage return.
pub open spec fn strip_cr(s: Seq<char>) -> Seq<char> {
    if s.len() > 0 && s.last() == '\r' {
        s.drop_last()
    } else {
        s
    }
}

/// The lines of `s` as `str::lines` yields them: split at each `\n`, a
/// `\r` right before it dropped, and no empty line after a final `\n`.
pub open spec fn lines(s: Seq<char>) -> Seq<Seq<char>>
    decreases s.len(),
{
    if s.len() == 0 {
        seq![]
    } else {
        let k = index_of(s, '\n');
        if k < 0 || k >= s.len() {
            seq![s]
        } else {
            seq![strip_cr(s.take(k))] + lines(s.skip(k + 1))
        }
    }
}

/// The bounds, in `v`, of each of `lines(v)`.
pub fn line_bounds(v: &Vec<char>) -> (r: Vec<(usize, usize)>)
    ensures
        r.len() == lines(v@).len(),
        forall|i: int| 0 <= i < r.len() ==> (#[trigger] r@[i]).0 <= r@[i].1 <= v.len(),
        forall|i: int|
            0 <= i < r.len() ==> #[trigger] v@.subrange(r@[i].0 as int, r@[i].1 as int)
                == lines(v@)[i],
{
    let mut r: Vec<(usize, usize)> = Vec::new();
    let ghost mut done: Seq<Seq<char>> = seq![];
    let len = v.len();
    let mut start: usize = 0;
    assert(v@.skip(0) =~= v@);
    while start < len
        invariant
            len == v.len(),
            start <= len,
            lines(v@) == done + lines(v@.skip(start as int)),
            r.len() == done.len(),
            forall|i: int| 0 <= i < r.len() ==> (#[trigger] r@[i]).0 <= r@[i].1 <= v.len(),
            forall|i: int|
                0 <= i < r.len() ==> #[trigger] v@.subrange(r@[i].0 as int, r@[i].1 as int)
                    == done[i],
        decreases len - start,
    {
        let p = find_char(v, '\n', start, len);
        let ghost rest = v@.skip(start as int);
        let ghost old_r = r@;
        assert(v@.subrange(start as int, len as int) =~= rest);
        proof {
            lemma_index_of(rest, '\n');
        }
        let end = if p == len {
            len
        } else if p > start && v[p - 1] == '\r' {
            p - 1
        } else {
            p
        };
        r.push((start, end));
        proof {
            let line = if p == len {
                rest
            } else {
                strip_cr(rest.take(p - start))
            };
            if p == len {
                assert(lines(rest) == seq![rest]);
                assert(v@.skip(len as int) =~= Seq::<char>::empty());
                assert(lines(v@) =~= done.push(line) + lines(v@.skip(len as int)));
            } else {
                assert(rest.take(p - start) =~= v@.subrange(start as int, p as int));
                assert(rest.skip(p - start + 1) =~= v@.skip(p + 1));
                assert(lines(rest) == seq![line] + lines(v@.skip(p + 1)));
                assert(lines(v@) =~= done.push(line) + lines(v@.skip(p + 1)));
            }
            assert(line =~= v@.subrange(start as int, end as int));
            let old_done = done;
            done = done.push(line);
            assert forall|i: int| 0 <= i < r.len() implies r@[i].0 <= r@[i].1 <= v.len()
                && #[trigger] v@.subrange(r@[i].0 as int, r@[i].1 as int) == done[i] by {
                if i < r.len() - 1 {
                    assert(r@[i] == old_r[i]);
                    assert(v@.subrange(old_r[i].0 as int, old_r[i].1 as int) == old_done[i]);
                } else {
                    assert(r@[i] == (start, end));
                }
            }
        }
        start = if p == len {
            len
        } else {
            p + 1
        };
    }
    proof {
        assert(v@.skip(len as int) =~= Seq::<char>::empty());
        assert(lines(v@) =~= done);
    }
    r
}

/// The pieces of `t` as `str::splitn(3, ',')` yields them: up to the first
/// comma, up to the second, and the rest, which may hold further commas.
pub open spec fn split3(t: Seq<char>) -> Seq<Seq<char>> {
    let k1 = index_of(t, ',');
    if k1 < 0 || k1 >= t.len() {
        seq![t]
    } else {
        let rest = t.skip(k1 + 1);
        let k2 = index_of(rest, ',');
        if k2 < 0 || k2 >= rest.len() {
            seq![t.take(k1), rest]
        } else {
            seq![t.take(k1), rest.take(k2), rest.skip(k2 + 1)]
        }
    }
}

// ---------------------------------------------------------------------------
// Case folding
// ---------------------------------------------------------------------------

/// The lower-case form that `str::to_lowercase` gives of `s`.
pub uninterp spec fn lowercase(s: Seq<char>) -> Seq<char>;

/// Trusted: std's `str::to_lowercase`, whose result is a function of the
/// characters of its argument alone (Unicode's lowercase mapping); that
/// mapping is named, not stated.
#[verifier::external_body]
pub(crate) fn to_lowercase(s: &str) -> (r: String)
    ensures
        r@ == lowercase(s@),
{
    s.to_lowercase()
}

// ---------------------------------------------------------------------------
// Decimal rendering
// ---------------------------------------------------------------------------

/// The decimal digit for `d < 10`.
pub open spec fn digit(d: nat) -> char {
    if d == 0 {
        '0'
    } else if d == 1 {
        '1'
    } else if d == 2 {
        '2'
    } else if d == 3 {
        '3'
    } else if d == 4 {
        '4'
    } else if d == 5 {
        '5'
    } else if d == 6 {
        '6'
    } else if d == 7 {
        '7'
    } else if d == 8 {
        '8'
    } else {
        '9'
    }
}

/// The decimal notation of `n`, without leading zeros, as `{}` prints it.
pub open spec fn decimal(n: nat) -> Seq<char>
    decreases n,
{
    if n < 10 {
        seq![digit(n)]
    } else {
        decimal(n / 10).push(digit(n % 10))
    }
}

/// The decimal notation of `i`, with a leading `-` when it is negative.
pub open spec fn signed_decimal(i: int) -> Seq<char> {
    if i < 0 {
        seq!['-'] + decimal((-i) as nat)
    } else {
        decimal(i as nat)
    }
}

/// `decimal(n)` with zeros in front up to `width` characters, as `{:0w}`
/// prints a non-negative number.
pub open spec fn zero_padded(n: nat, width: nat) -> Seq<char> {
    let d = decimal(n);
    if d.len() < width {
        Seq::new((width - d.len()) as nat, |_i: int| '0') + d
    } else {
        d
    }
}

/// The number a digit character stands for.
pub open spec fn digit_value(c: char) -> int {
    (c as int) - ('0' as int)
}

/// The number that a string of decimal digits reads as.
pub open spec fn decimal_value(s: Seq<char>) -> int
    decreases s.len(),
{
    if s.len() == 0 {
        0
    } else {
        decimal_value(s.drop_last()) * 10 + digit_value(s.last())
    }
}

/// Each digit character reads back as its number.
pub proof fn lemma_digit_value(d: nat)
    requires
        d < 10,
    ensures
        digit_value(digit(d)) == d,
{
}

/// `decimal(n)` reads back as `n`.
pub proof fn lemma_decimal_value(n: nat)
    ensures
        decimal_value(decimal(n)) == n,
        decimal(n).len() >= 1,
    decreases n,
{
    if n < 10 {
        lemma_digit_value(n);
        let d = decimal(n);
        assert(d == seq![digit(n)]);
        assert(d.drop_last() =~= Seq::<char>::empty());
        assert(decimal_value(d.drop_last()) == 0);
        assert(d.last() == digit(n));
        assert(decimal_value(d) == decimal_value(d.drop_last()) * 10 + digit_value(d.last()));
    } else {
        lemma_decimal_value(n / 10);
        lemma_digit_value(n % 10);
        assert(decimal(n).drop_last() =~= decimal(n / 10));
        assert(decimal(n).last() == digit(n % 10));
        assert((n / 10) * 10 + n % 10 == n) by (nonlinear_arith);
        assert(decimal_value(decimal(n)) == decimal_value(decimal(n / 10)) * 10 + digit_value(
            digit(n % 10),
        ));
    }
}

/// Leading zeros do not change what digits read as.
pub proof fn lemma_leading_zeros_value(k: nat, d: Seq<char>)
    ensures
        decimal_value(Seq::new(k, |_i: int| '0') + d) == decimal_value(d),
    decreases d.len(),
{
    if d.len() == 0 {
        lemma_zeros_value(k);
        assert(Seq::new(k, |_i: int| '0') + d =~= Seq::new(k, |_i: int| '0'));
    } else {
        lemma_leading_zeros_value(k, d.drop_last());
        assert((Seq::new(k, |_i: int| '0') + d).drop_last() =~= Seq::new(k, |_i: int| '0')
            + d.drop_last());
        assert((Seq::new(k, |_i: int| '0') + d).last() == d.last());
    }
}

/// A run of zeros reads as zero.
pub proof fn lemma_zeros_value(k: nat)
    ensures
        decimal_value(Seq::new(k, |_i: int| '0')) == 0,
    decreases k,
{
    if k > 0 {
        lemma_zeros_value((k - 1) as nat);
        assert(Seq::new(k, |_i: int| '0').drop_last() =~= Seq::new((k - 1) as nat, |_i: int| '0'));
    }
}

/// `zero_padded(n, w)` reads back as `n` and is at least `w` long.
pub proof fn lemma_zero_padded_value(n: nat, width: nat)
    ensures
        decimal_value(zero_padded(n, width)) == n,
        zero_padded(n, width).len() >= width,
        zero_padded(n, width).len() >= 1,
{
    lemma_decimal_value(n);
    let d = decimal(n);
    if d.len() < width {
        lemma_leading_zeros_value((width - d.len()) as nat, d);
    }
}

/// Below a hundred, `zero_padded(n, 2)` is exactly two digits.
pub proof fn lemma_two_digits(n: nat)
    requires
        n < 100,
    ensures
        zero_padded(n, 2).len() == 2,
        decimal_value(zero_padded(n, 2)) == n,
{
    lemma_zero_padded_value(n, 2);
    if n >= 10 {
        assert(decimal(n / 10) == seq![digit(n / 10)]);
        assert(decimal(n).len() == 2);
    } else {
        assert(decimal(n).len() == 1);
    }
}

fn digit_char(d: u128) -> (c: char)
    requires
        d < 10,
    ensures
        c == digit(d as nat),
{
    if d == 0 {
        '0'
    } else if d == 1 {
        '1'
    } else if d == 2 {
        '2'
    } else if d == 3 {
        '3'
    } else if d == 4 {
        '4'
    } else if d == 5 {
        '5'
    } else if d == 6 {
        '6'
    } else if d == 7 {
        '7'
    } else if d == 8 {
        '8'
    } else {
        '9'
    }
}

/// Appends the decimal notation of `n`.
pub fn push_decimal(out: &mut Vec<char>, n: u128)
    ensures
        final(out)@ == old(out)@ + decimal(n as nat),
    decreases n,
{
    if n >= 10 {
        push_decimal(out, n / 10);
    }
    let c = digit_char(n % 10);
    out.push(c);
    proof {
        if n >= 10 {
            assert(old(out)@ + decimal(n as nat) =~= old(out)@ + decimal((n / 10) as nat) + seq![c]);
        } else {
            assert(old(out)@ + decimal(n as nat) =~= old(out)@ + seq![c]);
        }
    }
}

/// Appends the decimal notation of the signed `i`.
pub fn push_signed_decimal(out: &mut Vec<char>, i: i128)
    ensures
        final(out)@ == old(out)@ + signed_decimal(i as int),
{
    if i < 0 {
        out.push('-');
        let magnitude: u128 = if i == i128::MIN {
            0x8000_0000_0000_0000_0000_0000_0000_0000u128
        } else {
            (-i) as u128
        };
        push_decimal(out, magnitude);
        assert(old(out)@ + signed_decimal(i as int) =~= old(out)@ + seq!['-'] + decimal(
            (-i) as nat,
        ));
    } else {
        push_decimal(out, i as u128);
    }
}

/// Appends `n` zero-padded to `width` characters.
pub fn push_zero_padded(out: &mut Vec<char>, n: u128, width: usize)
    ensures
        final(out)@ == old(out)@ + zero_padded(n as nat, width as nat),
{
    let mut digits: Vec<char> = Vec::new();
    push_decimal(&mut digits, n);
    assert(digits@ =~= decimal(n as nat));
    let ghost start = out@;
    if digits.len() < width {
        let pad = width - digits.len();
        let mut k: usize = 0;
        while k < pad
            invariant
                k <= pad,
                out@ == start + Seq::new(k as nat, |_i: int| '0'),
            decreases pad - k,
        {
            out.push('0');
            k += 1;
            assert(out@ =~= start + Seq::new(k as nat, |_i: int| '0'));
        }
    }
    let dl = digits.len();
    push_range(out, &digits, 0, dl);
    assert(digits@.subrange(0, dl as int) =~= digits@);
    assert(out@ =~= start + zero_padded(n as nat, width as nat));
}

} // verus!
