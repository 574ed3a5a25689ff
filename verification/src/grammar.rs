//! The grammar of a log line: which texts are lines, and which fields a line has.

use crate::entry::{service_named, valid_host, Service};
use crate::parser::LogParseError;
use crate::text::{
    char_is_digit, is_digit, is_name_char, is_whitespace, lemma_run_end, lemma_run_end_at,
    run_end, scan, substring, CharClass,
};
use vstd::prelude::*;
use vstd::slice::slice_subrange;

verus! {

/// The number of characters of a time: `Mon DD HH:MM:SS`.
pub const TIME_LEN: usize = 15;

/// Whether `s` starts with a time: three letters, of which the first lies between `A` and
/// `z` and the others are lower case, then a two-digit day and a time of day in two-digit
/// fields, single spaces between the three.
pub open spec fn starts_with_time(s: Seq<char>) -> bool {
    &&& s.len() >= TIME_LEN
    &&& 'A' <= s[0] <= 'z'
    &&& 'a' <= s[1] <= 'z'
    &&& 'a' <= s[2] <= 'z'
    &&& s[3] == ' '
    &&& is_digit(s[4])
    &&& is_digit(s[5])
    &&& s[6] == ' '
    &&& is_digit(s[7])
    &&& is_digit(s[8])
    &&& s[9] == ':'
    &&& is_digit(s[10])
    &&& is_digit(s[11])
    &&& s[12] == ':'
    &&& is_digit(s[13])
    &&& is_digit(s[14])
}

/// The index after a bracketed process id that starts at `i`; `i` itself where none does.
pub open spec fn after_pid(s: Seq<char>, i: int) -> int {
    let d = run_end(s, i + 1, CharClass::Digit);
    if 0 <= i < s.len() && s[i] == '[' && i + 1 < d < s.len() && s[d] == ']' {
        d + 1
    } else {
        i
    }
}

/// The fields of a line, as the grammar delimits them.
pub struct LineFieldsView {
    pub time: Seq<char>,
    pub host: Seq<char>,
    pub service: Service,
    pub message: Seq<char>,
}

/// The fields of a line, the time not yet resolved to a date.
#[derive(Debug)]
pub struct LineFields {
    pub time: String,
    pub host: String,
    pub service: Service,
    pub message: String,
}

impl View for LineFields {
    type V = LineFieldsView;

    open spec fn view(&self) -> LineFieldsView {
        LineFieldsView {
            time: self.time@,
            host: self.host@,
            service: self.service,
            message: self.message@,
        }
    }
}

/// The grammar of a line: a time at the start, then a host name and a service name, each
/// after white space, an optional process id in brackets, a colon, white space, and the
/// message, which runs to the end of the line and holds no line feed.
pub open spec fn split_line(s: Seq<char>) -> Result<LineFieldsView, LogParseError> {
    let host_start = run_end(s, TIME_LEN as int, CharClass::Space);
    let host_end = run_end(s, host_start, CharClass::Name);
    let service_start = run_end(s, host_end, CharClass::Space);
    let service_end = run_end(s, service_start, CharClass::Name);
    let colon = after_pid(s, service_end);
    let message_start = run_end(s, colon + 1, CharClass::Space);
    if !starts_with_time(s) {
        Err(LogParseError::InvalidTime)
    } else if host_start == TIME_LEN || host_end == host_start {
        Err(LogParseError::InvalidHost)
    } else if service_start == host_end || service_end == service_start {
        Err(LogParseError::InvalidService)
    } else if service_named(s.subrange(service_start, service_end)) is None {
        Err(LogParseError::InvalidService)
    } else if !(colon < s.len() && s[colon] == ':') {
        Err(LogParseError::RegexError)
    } else if message_start == colon + 1 {
        Err(LogParseError::RegexError)
    } else if s.subrange(message_start, s.len() as int).contains('\n') {
        Err(LogParseError::RegexError)
    } else {
        Ok(
            LineFieldsView {
                time: s.subrange(0, TIME_LEN as int),
                host: s.subrange(host_start, host_end),
                service: service_named(s.subrange(service_start, service_end))->0,
                message: s.subrange(message_start, s.len() as int),
            },
        )
    }
}

/// Whether `s` starts with a time.
pub fn has_time(s: &[char]) -> (b: bool)
    ensures
        b == starts_with_time(s@),
{
    s.len() >= TIME_LEN && 'A' <= s[0] && s[0] <= 'z' && 'a' <= s[1] && s[1] <= 'z' && 'a' <= s[2]
        && s[2] <= 'z' && s[3] == ' ' && char_is_digit(s[4]) && char_is_digit(s[5]) && s[6] == ' '
        && char_is_digit(s[7]) && char_is_digit(s[8]) && s[9] == ':' && char_is_digit(s[10])
        && char_is_digit(s[11]) && s[12] == ':' && char_is_digit(s[13]) && char_is_digit(s[14])
}

/// The index after a bracketed process id that starts at `i`; `i` itself where none does.
pub fn skip_pid(s: &[char], i: usize) -> (end: usize)
    requires
        i <= s.len(),
    ensures
        end == after_pid(s@, i as int),
        i <= end <= s.len(),
{
    if i < s.len() && s[i] == '[' {
        let d = scan(s, i + 1, CharClass::Digit);
        if i + 1 < d && d < s.len() && s[d] == ']' {
            return d + 1;
        }
    }
    i
}

/// Whether `c` occurs in `s` at or after index `from`.
pub fn contains_char_from(s: &[char], from: usize, c: char) -> (b: bool)
    requires
        from <= s.len(),
    ensures
        b == s@.subrange(from as int, s.len() as int).contains(c),
{
    let mut i: usize = from;
    let ghost tail = s@.subrange(from as int, s.len() as int);
    while i < s.len()
        invariant
            from <= i <= s.len(),
            tail == s@.subrange(from as int, s.len() as int),
            forall|k: int| 0 <= k < i - from ==> tail[k] != c,
        decreases s.len() - i,
    {
        if s[i] == c {
            assert(tail[i - from] == c);
            return true;
        }
        i += 1;
    }
    false
}

/// Splits a line into its fields.
pub fn split_fields(s: &[char]) -> (r: Result<LineFields, LogParseError>)
    ensures
        match r {
            Ok(f) => split_line(s@) == Ok::<LineFieldsView, LogParseError>(f@),
            Err(e) => split_line(s@) == Err::<LineFieldsView, LogParseError>(e),
        },
{
    if !has_time(s) {
        return Err(LogParseError::InvalidTime);
    }
    let host_start = scan(s, TIME_LEN, CharClass::Space);
    let host_end = scan(s, host_start, CharClass::Name);
    if host_start == TIME_LEN || host_end == host_start {
        return Err(LogParseError::InvalidHost);
    }
    let service_start = scan(s, host_end, CharClass::Space);
    let service_end = scan(s, service_start, CharClass::Name);
    if service_start == host_end || service_end == service_start {
        return Err(LogParseError::InvalidService);
    }
    let service = match Service::from_chars(slice_subrange(s, service_start, service_end)) {
        Some(service) => service,
        None => {
            return Err(LogParseError::InvalidService);
        },
    };
    let colon = skip_pid(s, service_end);
    if !(colon < s.len() && s[colon] == ':') {
        return Err(LogParseError::RegexError);
    }
    let message_start = scan(s, colon + 1, CharClass::Space);
    if message_start == colon + 1 {
        return Err(LogParseError::RegexError);
    }
    if contains_char_from(s, message_start, '\n') {
        return Err(LogParseError::RegexError);
    }
    Ok(
        LineFields {
            time: substring(s, 0, TIME_LEN),
            host: substring(s, host_start, host_end),
            service,
            message: substring(s, message_start, s.len()),
        },
    )
}

/// What the grammar accepts: a time of fifteen characters, a host name of one or more
/// letters, digits and hyphens, and a message without a line feed.
pub proof fn lemma_split_line_fields(s: Seq<char>)
    ensures
        split_line(s) matches Ok(f) ==> {
            &&& f.time.len() == TIME_LEN
            &&& valid_host(f.host)
            &&& !f.message.contains('\n')
        },
{
    if let Ok(f) = split_line(s) {
        let host_start = run_end(s, TIME_LEN as int, CharClass::Space);
        lemma_run_end(s, TIME_LEN as int, CharClass::Space);
        lemma_run_end(s, host_start, CharClass::Name);
    }
}

/// Whether `s` is one or more characters, each of `class`.
pub open spec fn is_run(s: Seq<char>, class: CharClass) -> bool {
    &&& s.len() > 0
    &&& forall|i: int| 0 <= i < s.len() ==> class.has(#[trigger] s[i])
}

/// A process id in its brackets, or nothing where a line has none.
pub open spec fn pid_text(pid: Option<Seq<char>>) -> Seq<char> {
    match pid {
        Some(digits) => seq!['['] + digits + seq![']'],
        None => Seq::empty(),
    }
}

/// The line that is written from the given parts.
pub open spec fn line_of(
    time: Seq<char>,
    gap1: Seq<char>,
    host: Seq<char>,
    gap2: Seq<char>,
    name: Seq<char>,
    pid: Option<Seq<char>>,
    gap3: Seq<char>,
    message: Seq<char>,
) -> Seq<char> {
    time + gap1 + host + gap2 + name + pid_text(pid) + seq![':'] + gap3 + message
}

/// A line that is written by the grammar splits into the fields it was written from.
/// The parts are a time, a host name and a service name, each after white space, a
/// process id of one or more digits if there is one, a colon, white space, and a
/// message that holds no line feed and starts with no white space.
pub proof fn lemma_well_formed_line_splits(
    time: Seq<char>,
    gap1: Seq<char>,
    host: Seq<char>,
    gap2: Seq<char>,
    name: Seq<char>,
    pid: Option<Seq<char>>,
    gap3: Seq<char>,
    message: Seq<char>,
)
    requires
        time.len() == TIME_LEN,
        starts_with_time(time),
        is_run(gap1, CharClass::Space),
        is_run(host, CharClass::Name),
        is_run(gap2, CharClass::Space),
        is_run(name, CharClass::Name),
        service_named(name) is Some,
        pid matches Some(digits) ==> is_run(digits, CharClass::Digit),
        is_run(gap3, CharClass::Space),
        !message.contains('\n'),
        message.len() > 0 ==> !is_whitespace(message[0]),
    ensures
        split_line(line_of(time, gap1, host, gap2, name, pid, gap3, message)) == Ok::<
            LineFieldsView,
            LogParseError,
        >(LineFieldsView { time, host, service: service_named(name)->0, message }),
{
    let s = line_of(time, gap1, host, gap2, name, pid, gap3, message);
    let a0 = TIME_LEN as int;
    let a1 = a0 + gap1.len();
    let a2 = a1 + host.len();
    let a3 = a2 + gap2.len();
    let a4 = a3 + name.len();
    let a5 = a4 + pid_text(pid).len();
    let a6 = a5 + 1;
    let a7 = a6 + gap3.len();
    lemma_line_layout(time, gap1, host, gap2, name, pid_text(pid), gap3, message);
    assert(starts_with_time(s));
    assert(run_end(s, a0, CharClass::Space) == a1) by {
        assert(s[a1] == host[0]);
        lemma_run_end_at(s, a0, a1, CharClass::Space);
    }
    assert(run_end(s, a1, CharClass::Name) == a2) by {
        assert(s[a2] == gap2[0]);
        lemma_run_end_at(s, a1, a2, CharClass::Name);
    }
    assert(run_end(s, a2, CharClass::Space) == a3) by {
        assert(s[a3] == name[0]);
        lemma_run_end_at(s, a2, a3, CharClass::Space);
    }
    assert(run_end(s, a3, CharClass::Name) == a4 && after_pid(s, a4) == a5) by {
        match pid {
            Some(digits) => {
                let text = pid_text(pid);
                assert(text.len() == digits.len() + 2);
                assert(s[a4] == text[0]);
                assert(s[a5 - 1] == text[text.len() - 1]);
                assert forall|k: int| a4 + 1 <= k < a5 - 1 implies CharClass::Digit.has(
                    #[trigger] s[k],
                ) by {
                    assert(s[k] == text[k - a4]);
                    assert(text[k - a4] == digits[k - a4 - 1]);
                }
                lemma_run_end_at(s, a4 + 1, a5 - 1, CharClass::Digit);
            },
            None => {},
        }
        lemma_run_end_at(s, a3, a4, CharClass::Name);
    }
    assert(run_end(s, a6, CharClass::Space) == a7) by {
        if message.len() > 0 {
            assert(s[a7] == message[0]);
        }
        lemma_run_end_at(s, a6, a7, CharClass::Space);
    }
}

/// Where the parts of a line stand in it.
proof fn lemma_line_layout(
    time: Seq<char>,
    gap1: Seq<char>,
    host: Seq<char>,
    gap2: Seq<char>,
    name: Seq<char>,
    pid: Seq<char>,
    gap3: Seq<char>,
    message: Seq<char>,
)
    ensures
        ({
            let s = time + gap1 + host + gap2 + name + pid + seq![':'] + gap3 + message;
            let a0 = time.len() as int;
            let a1 = a0 + gap1.len();
            let a2 = a1 + host.len();
            let a3 = a2 + gap2.len();
            let a4 = a3 + name.len();
            let a5 = a4 + pid.len();
            let a6 = a5 + 1;
            let a7 = a6 + gap3.len();
            &&& s.len() == a7 + message.len()
            &&& s.subrange(0, a0) == time
            &&& s.subrange(a1, a2) == host
            &&& s.subrange(a3, a4) == name
            &&& s.subrange(a7, s.len() as int) == message
            &&& s[a5] == ':'
            &&& forall|k: int| 0 <= k < a0 ==> #[trigger] s[k] == time[k]
            &&& forall|k: int| a0 <= k < a1 ==> #[trigger] s[k] == gap1[k - a0]
            &&& forall|k: int| a1 <= k < a2 ==> #[trigger] s[k] == host[k - a1]
            &&& forall|k: int| a2 <= k < a3 ==> #[trigger] s[k] == gap2[k - a2]
            &&& forall|k: int| a3 <= k < a4 ==> #[trigger] s[k] == name[k - a3]
            &&& forall|k: int| a4 <= k < a5 ==> #[trigger] s[k] == pid[k - a4]
            &&& forall|k: int| a6 <= k < a7 ==> #[trigger] s[k] == gap3[k - a6]
            &&& forall|k: int| a7 <= k < s.len() ==> #[trigger] s[k] == message[k - a7]
        }),
{
    let s = time + gap1 + host + gap2 + name + pid + seq![':'] + gap3 + message;
    let a0 = time.len() as int;
    let a1 = a0 + gap1.len();
    let a2 = a1 + host.len();
    let a3 = a2 + gap2.len();
    let a4 = a3 + name.len();
    let a5 = a4 + pid.len();
    let a6 = a5 + 1;
    let a7 = a6 + gap3.len();
    assert(s.subrange(0, a0) =~= time);
    assert(s.subrange(a1, a2) =~= host);
    assert(s.subrange(a3, a4) =~= name);
    assert(s.subrange(a7, s.len() as int) =~= message);
}

/// A line whose service name spells none of the known services is rejected as
/// `InvalidService`, whatever follows the name.
pub proof fn lemma_unknown_service_splits_to_error(
    time: Seq<char>,
    gap1: Seq<char>,
    host: Seq<char>,
    gap2: Seq<char>,
    name: Seq<char>,
    rest: Seq<char>,
)
    requires
        time.len() == TIME_LEN,
        starts_with_time(time),
        is_run(gap1, CharClass::Space),
        is_run(host, CharClass::Name),
        is_run(gap2, CharClass::Space),
        is_run(name, CharClass::Name),
        rest.len() > 0 ==> !is_name_char(rest[0]),
        service_named(name) is None,
    ensures
        split_line(time + gap1 + host + gap2 + name + rest) == Err::<
            LineFieldsView,
            LogParseError,
        >(LogParseError::InvalidService),
{
    let s = time + gap1 + host + gap2 + name + rest;
    let a0 = TIME_LEN as int;
    let a1 = a0 + gap1.len();
    let a2 = a1 + host.len();
    let a3 = a2 + gap2.len();
    let a4 = a3 + name.len();
    assert(s.subrange(a3, a4) =~= name);
    assert(starts_with_time(s)) by {
        assert(forall|k: int| 0 <= k < a0 ==> s[k] == time[k]);
    }
    assert(run_end(s, a0, CharClass::Space) == a1) by {
        assert forall|k: int| a0 <= k < a1 implies CharClass::Space.has(#[trigger] s[k]) by {
            assert(s[k] == gap1[k - a0]);
        }
        assert(s[a1] == host[0]);
        lemma_run_end_at(s, a0, a1, CharClass::Space);
    }
    assert(run_end(s, a1, CharClass::Name) == a2) by {
        assert forall|k: int| a1 <= k < a2 implies CharClass::Name.has(#[trigger] s[k]) by {
            assert(s[k] == host[k - a1]);
        }
        assert(s[a2] == gap2[0]);
        lemma_run_end_at(s, a1, a2, CharClass::Name);
    }
    assert(run_end(s, a2, CharClass::Space) == a3) by {
        assert forall|k: int| a2 <= k < a3 implies CharClass::Space.has(#[trigger] s[k]) by {
            assert(s[k] == gap2[k - a2]);
        }
        assert(s[a3] == name[0]);
        lemma_run_end_at(s, a2, a3, CharClass::Space);
    }
    assert(run_end(s, a3, CharClass::Name) == a4) by {
        assert forall|k: int| a3 <= k < a4 implies CharClass::Name.has(#[trigger] s[k]) by {
            assert(s[k] == name[k - a3]);
        }
        if rest.len() > 0 {
            assert(s[a4] == rest[0]);
        }
        lemma_run_end_at(s, a3, a4, CharClass::Name);
    }
}

} // verus!
