//! Texts as sequences of characters: classes of characters, runs, occurrences, trimming
//! and lines.

use vstd::prelude::*;
use vstd::slice::slice_subrange;

verus! {

// Strings and their characters

/// The texts of a sequence of strings.
pub open spec fn texts(lines: Seq<String>) -> Seq<Seq<char>> {
    lines.map_values(|l: String| l@)
}

/// The characters of `s`, in order, as a vector that can be indexed in constant time.
pub fn chars_of(s: &str) -> (v: Vec<char>)
    ensures
        v@ == s@,
{
    let mut v: Vec<char> = Vec::new();
    for c in it: s.chars()
        invariant
            v@ == it.seq().take(it.index() as int),
            it.seq() == s@,
    {
        v.push(c);
    }
    v
}

/// Builds a string from characters with `String::from_iter`, which the standard
/// library documents as collecting the characters, in order, into a new string.
#[verifier::external_body]
pub(crate) fn string_from_chars(chars: &[char]) -> (s: String)
    ensures
        s@ == chars@,
{
    String::from_iter(chars)
}

/// The characters of `s` from index `from` up to, not including, index `to`, as a string.
pub fn substring(s: &[char], from: usize, to: usize) -> (r: String)
    requires
        from <= to <= s.len(),
    ensures
        r@ == s@.subrange(from as int, to as int),
{
    string_from_chars(slice_subrange(s, from, to))
}

// Classes of characters

/// Whether `c` has the Unicode `White_Space` property.
pub open spec fn is_whitespace(c: char) -> bool {
    let u = c as u32;
    ||| 0x09 <= u <= 0x0D
    ||| u == 0x20
    ||| u == 0x85
    ||| u == 0xA0
    ||| u == 0x1680
    ||| 0x2000 <= u <= 0x200A
    ||| u == 0x2028
    ||| u == 0x2029
    ||| u == 0x202F
    ||| u == 0x205F
    ||| u == 0x3000
}

/// Whether `c` is an ASCII decimal digit.
pub open spec fn is_digit(c: char) -> bool {
    '0' <= c <= '9'
}

/// Whether `c` is an ASCII letter, an ASCII digit or a hyphen.
pub open spec fn is_name_char(c: char) -> bool {
    ||| 'a' <= c <= 'z'
    ||| 'A' <= c <= 'Z'
    ||| '0' <= c <= '9'
    ||| c == '-'
}

/// The classes of characters that runs are scanned of.
#[derive(Debug, Clone, Copy, PartialEq, Eq, Structural)]
pub enum CharClass {
    Space,
    Name,
    Digit,
    /// Any character but a colon or a semicolon.
    Field,
    /// Any character but a line feed.
    Line,
}

impl CharClass {
    /// Whether `c` is of the class.
    pub open spec fn has(self, c: char) -> bool {
        match self {
            CharClass::Space => is_whitespace(c),
            CharClass::Name => is_name_char(c),
            CharClass::Digit => is_digit(c),
            CharClass::Field => c != ':' && c != ';',
            CharClass::Line => c != '\n',
        }
    }

    /// Whether `c` is of the class.
    pub fn test(self, c: char) -> (b: bool)
        ensures
            b == self.has(c),
    {
        match self {
            CharClass::Space => char_is_whitespace(c),
            CharClass::Name => char_is_name_char(c),
            CharClass::Digit => char_is_digit(c),
            CharClass::Field => c != ':' && c != ';',
            CharClass::Line => c != '\n',
        }
    }
}

/// Whether `c` has the Unicode `White_Space` property.
pub fn char_is_whitespace(c: char) -> (b: bool)
    ensures
        b == is_whitespace(c),
{
    let u: u32 = c as u32;
    (0x09 <= u && u <= 0x0D) || u == 0x20 || u == 0x85 || u == 0xA0 || u == 0x1680 || (0x2000 <= u
        && u <= 0x200A) || u == 0x2028 || u == 0x2029 || u == 0x202F || u == 0x205F || u == 0x3000
}

/// Whether `c` is an ASCII decimal digit.
pub fn char_is_digit(c: char) -> (b: bool)
    ensures
        b == is_digit(c),
{
    '0' <= c && c <= '9'
}

/// Whether `c` is an ASCII letter, an ASCII digit or a hyphen.
pub fn char_is_name_char(c: char) -> (b: bool)
    ensures
        b == is_name_char(c),
{
    ('a' <= c && c <= 'z') || ('A' <= c && c <= 'Z') || ('0' <= c && c <= '9') || c == '-'
}

// Runs of characters of one class

/// The index at which the longest run of characters of `class` that starts at `i` ends.
pub open spec fn run_end(s: Seq<char>, i: int, class: CharClass) -> int
    decreases s.len() - i,
{
    if 0 <= i < s.len() && class.has(s[i]) {
        run_end(s, i + 1, class)
    } else {
        i
    }
}

/// The end of the longest run of characters of `class` in `s` that starts at `start`.
pub fn scan(s: &[char], start: usize, class: CharClass) -> (end: usize)
    requires
        start <= s.len(),
    ensures
        end == run_end(s@, start as int, class),
        start <= end <= s.len(),
        forall|k: int| start <= k < end ==> class.has(#[trigger] s@[k]),
        end < s.len() ==> !class.has(s@[end as int]),
{
    let mut i: usize = start;
    while i < s.len() && class.test(s[i])
        invariant
            start <= i <= s.len(),
            run_end(s@, start as int, class) == run_end(s@, i as int, class),
            forall|k: int| start <= k < i ==> class.has(#[trigger] s@[k]),
        decreases s.len() - i,
    {
        i += 1;
    }
    i
}

/// A run ends within the text, holds only characters of its class, and is not followed
/// by one.
pub proof fn lemma_run_end(s: Seq<char>, i: int, class: CharClass)
    requires
        0 <= i <= s.len(),
    ensures
        i <= run_end(s, i, class) <= s.len(),
        forall|k: int| i <= k < run_end(s, i, class) ==> class.has(#[trigger] s[k]),
        run_end(s, i, class) < s.len() ==> !class.has(s[run_end(s, i, class)]),
    decreases s.len() - i,
{
    if i < s.len() && class.has(s[i]) {
        lemma_run_end(s, i + 1, class);
    }
}

/// The run that starts at `i` ends at `j` where all between is of the class and what
/// stands at `j`, if anything does, is not.
pub proof fn lemma_run_end_at(s: Seq<char>, i: int, j: int, class: CharClass)
    requires
        0 <= i <= j <= s.len(),
        forall|k: int| i <= k < j ==> class.has(#[trigger] s[k]),
        j < s.len() ==> !class.has(s[j]),
    ensures
        run_end(s, i, class) == j,
    decreases j - i,
{
    if i < j {
        lemma_run_end_at(s, i + 1, j, class);
    }
}

/// A run in the part of a text from `from` on ends where the run from `from` in the
/// whole text ends.
pub proof fn lemma_run_end_shifted(s: Seq<char>, from: int, class: CharClass)
    requires
        0 <= from <= s.len(),
    ensures
        run_end(s.subrange(from, s.len() as int), 0, class) + from == run_end(s, from, class),
{
    lemma_run_end_offset(s, from, from, class);
}

/// The same from any index `i` at or after `from`, for the induction.
proof fn lemma_run_end_offset(s: Seq<char>, from: int, i: int, class: CharClass)
    requires
        0 <= from <= i <= s.len(),
    ensures
        run_end(s.subrange(from, s.len() as int), i - from, class) + from == run_end(s, i, class),
    decreases s.len() - i,
{
    let part = s.subrange(from, s.len() as int);
    if i < s.len() {
        assert(part[i - from] == s[i]);
        if class.has(s[i]) {
            lemma_run_end_offset(s, from, i + 1, class);
        }
    }
}

// The case of letters

/// The code point of `c`, with the ASCII upper-case letters mapped to lower case.
pub open spec fn ascii_fold(c: char) -> u32 {
    if 'A' <= c <= 'Z' {
        (c as u32 + 32) as u32
    } else {
        c as u32
    }
}

/// Whether `a` and `b` are equal up to the case of ASCII letters.
pub open spec fn eq_ignore_ascii_case(a: Seq<char>, b: Seq<char>) -> bool {
    &&& a.len() == b.len()
    &&& forall|i: int| 0 <= i < a.len() ==> ascii_fold(#[trigger] a[i]) == ascii_fold(b[i])
}

/// The code point of `c`, with the ASCII upper-case letters mapped to lower case.
pub fn fold_char(c: char) -> (u: u32)
    ensures
        u == ascii_fold(c),
{
    if 'A' <= c && c <= 'Z' {
        c as u32 + 32
    } else {
        c as u32
    }
}

/// Whether `a` and `b` are equal up to the case of ASCII letters.
pub fn chars_eq_ignore_ascii_case(a: &[char], b: &[char]) -> (r: bool)
    ensures
        r == eq_ignore_ascii_case(a@, b@),
{
    if a.len() != b.len() {
        return false;
    }
    let mut i: usize = 0;
    while i < a.len()
        invariant
            a.len() == b.len(),
            i <= a.len(),
            forall|j: int| 0 <= j < i ==> ascii_fold(#[trigger] a@[j]) == ascii_fold(b@[j]),
        decreases a.len() - i,
    {
        if fold_char(a[i]) != fold_char(b[i]) {
            return false;
        }
        i += 1;
    }
    true
}

// Occurrences of one text in another

/// Whether `pat` occurs in `s` starting at index `i`.
pub open spec fn occurs_at(s: Seq<char>, pat: Seq<char>, i: int) -> bool {
    &&& 0 <= i
    &&& i + pat.len() <= s.len()
    &&& s.subrange(i, i + pat.len()) == pat
}

/// Whether `pat` occurs somewhere in `s`.
pub open spec fn contains(s: Seq<char>, pat: Seq<char>) -> bool {
    exists|i: int| occurs_at(s, pat, i)
}

/// Whether `pat` occurs in `s` at index `i`.
pub fn occurs_at_index(s: &[char], pat: &[char], i: usize) -> (b: bool)
    ensures
        b == occurs_at(s@, pat@, i as int),
{
    if pat.len() > s.len() || i > s.len() - pat.len() {
        return false;
    }
    let mut k: usize = 0;
    while k < pat.len()
        invariant
            k <= pat.len(),
            i + pat.len() <= s.len(),
            forall|j: int| 0 <= j < k ==> s@[i + j] == pat@[j],
        decreases pat.len() - k,
    {
        if s[i + k] != pat[k] {
            assert(s@.subrange(i as int, i + pat.len())[k as int] == s@[i + k]);
            return false;
        }
        k += 1;
    }
    assert(s@.subrange(i as int, i + pat.len()) =~= pat@);
    true
}

/// Whether `pat` occurs somewhere in `s`.
pub fn contains_chars(s: &[char], pat: &[char]) -> (b: bool)
    ensures
        b == contains(s@, pat@),
{
    if pat.len() > s.len() {
        return false;
    }
    let last: usize = s.len() - pat.len();
    let mut i: usize = 0;
    while i < last
        invariant
            last == s.len() - pat.len(),
            i <= last,
            forall|j: int| 0 <= j < i ==> !occurs_at(s@, pat@, j),
        decreases last - i,
    {
        if occurs_at_index(s, pat, i) {
            return true;
        }
        i += 1;
    }
    occurs_at_index(s, pat, last)
}

// White space around a text

/// The index at which `s` ends once the white space at its end is dropped, none of it
/// before index `lo`.
pub open spec fn trimmed_end(s: Seq<char>, lo: int) -> int
    decreases s.len(),
{
    if 0 <= lo < s.len() && is_whitespace(s.last()) {
        trimmed_end(s.drop_last(), lo)
    } else {
        s.len() as int
    }
}

/// `s` without the white space at its start and at its end.
pub open spec fn trim(s: Seq<char>) -> Seq<char> {
    let start = run_end(s, 0, CharClass::Space);
    s.subrange(start, trimmed_end(s, start))
}

/// The first of the fields that colons and semicolons divide `s` into, without the
/// white space around it.
pub open spec fn first_field(s: Seq<char>) -> Seq<char> {
    trim(s.subrange(0, run_end(s, 0, CharClass::Field)))
}

/// The bounds of `s[from..to]` without the white space at its start and at its end.
pub fn trim_bounds(s: &[char], from: usize, to: usize) -> (r: (usize, usize))
    requires
        from <= to <= s.len(),
    ensures
        from <= r.0 <= r.1 <= to,
        s@.subrange(r.0 as int, r.1 as int) == trim(s@.subrange(from as int, to as int)),
{
    let ghost part = s@.subrange(from as int, to as int);
    let mut start: usize = from;
    while start < to && char_is_whitespace(s[start])
        invariant
            from <= start <= to <= s.len(),
            part == s@.subrange(from as int, to as int),
            run_end(part, 0, CharClass::Space) == run_end(part, start - from, CharClass::Space),
        decreases to - start,
    {
        assert(part[start - from] == s@[start as int]);
        start += 1;
    }
    assert(run_end(part, 0, CharClass::Space) == start - from) by {
        if start < to {
            assert(part[start - from] == s@[start as int]);
        }
    }
    let mut end: usize = to;
    assert(part.subrange(0, to - from) =~= part);
    while start < end && char_is_whitespace(s[end - 1])
        invariant
            from <= start <= end <= to <= s.len(),
            part == s@.subrange(from as int, to as int),
            trimmed_end(part, start - from) == trimmed_end(
                part.subrange(0, end - from),
                start - from,
            ),
        decreases end - start,
    {
        let ghost cur = part.subrange(0, end - from);
        assert(cur.last() == s@[end - 1]);
        assert(cur.drop_last() =~= part.subrange(0, end - 1 - from));
        end -= 1;
    }
    proof {
        let cur = part.subrange(0, end - from);
        if start < end {
            assert(cur.last() == s@[end - 1]);
        }
        assert(trimmed_end(cur, start - from) == end - from);
        assert(part.subrange(start - from, end - from) =~= s@.subrange(start as int, end as int));
    }
    (start, end)
}

/// The first of the fields that colons and semicolons divide `s` into, without the
/// white space around it.
pub fn first_field_of(s: &[char]) -> (r: String)
    ensures
        r@ == first_field(s@),
{
    let end = scan(s, 0, CharClass::Field);
    let (a, b) = trim_bounds(s, 0, end);
    substring(s, a, b)
}

// Lines

/// `line` without the carriage return at its end, if it ends with one.
pub open spec fn strip_carriage_return(line: Seq<char>) -> Seq<char> {
    if line.len() > 0 && line.last() == '\r' {
        line.drop_last()
    } else {
        line
    }
}

/// The lines of a text. A line ends at a line feed, or at the end of the text; the line
/// feed is no part of it, nor is a carriage return directly before the line feed. A text
/// that ends with a line feed has no empty line after it.
pub open spec fn lines_of(s: Seq<char>) -> Seq<Seq<char>>
    decreases s.len(),
{
    let end = run_end(s, 0, CharClass::Line);
    if s.len() == 0 {
        Seq::empty()
    } else if !(0 <= end < s.len()) {
        seq![s]
    } else {
        seq![strip_carriage_return(s.subrange(0, end))] + lines_of(
            s.subrange(end + 1, s.len() as int),
        )
    }
}

/// The lines of a text, in order, without their line terminators.
pub fn split_lines(s: &[char]) -> (lines: Vec<String>)
    ensures
        texts(lines@) == lines_of(s@),
{
    let mut lines: Vec<String> = Vec::new();
    let mut pos: usize = 0;
    assert(s@.subrange(0, s.len() as int) =~= s@);
    while pos < s.len()
        invariant
            pos <= s.len(),
            texts(lines@) + lines_of(s@.subrange(pos as int, s.len() as int)) == lines_of(s@),
        decreases s.len() - pos,
    {
        let ghost rest = s@.subrange(pos as int, s.len() as int);
        let ghost before = lines@;
        let end = scan(s, pos, CharClass::Line);
        proof {
            lemma_run_end_shifted(s@, pos as int, CharClass::Line);
        }
        if end == s.len() {
            lines.push(substring(s, pos, end));
            proof {
                assert(s@.subrange(s.len() as int, s.len() as int) =~= Seq::<char>::empty());
                assert(texts(lines@) =~= texts(before) + seq![rest]);
            }
            pos = end;
        } else {
            let stop = if pos < end && s[end - 1] == '\r' {
                end - 1
            } else {
                end
            };
            lines.push(substring(s, pos, stop));
            proof {
                let line = rest.subrange(0, end - pos);
                assert(line =~= s@.subrange(pos as int, end as int));
                if pos < end {
                    assert(line.last() == s@[end - 1]);
                }
                assert(strip_carriage_return(line) =~= s@.subrange(pos as int, stop as int));
                assert(rest.subrange(end - pos + 1, rest.len() as int) =~= s@.subrange(
                    end + 1,
                    s.len() as int,
                ));
                assert(texts(lines@) =~= texts(before) + seq![strip_carriage_return(line)]);
            }
            pos = end + 1;
        }
    }
    assert(s@.subrange(s.len() as int, s.len() as int) =~= Seq::<char>::empty());
    lines
}

/// The lines of a text, in order, without their line terminators.
pub fn text_lines(contents: &str) -> (lines: Vec<String>)
    ensures
        texts(lines@) == lines_of(contents@),
{
    let chars = chars_of(contents);
    split_lines(chars.as_slice())
}

} // verus!
