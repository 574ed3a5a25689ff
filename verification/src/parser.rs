//! Log lines to entries, and entries to the runs they record.

use crate::clock::{current_year, parse_time, resolved_time};
use crate::entry::{
    service_named, AnsibleRun, AnsibleRunView, AnsibleStrategy, LogEntry, LogEntryView, Service,
    Timestamp,
};
use crate::grammar::{
    is_run, lemma_split_line_fields, lemma_unknown_service_splits_to_error,
    lemma_well_formed_line_splits, line_of, split_fields, split_line, starts_with_time, LineFields,
    LineFieldsView, TIME_LEN,
};
use crate::text::{
    chars_of, contains, contains_chars, first_field, first_field_of, is_name_char, is_whitespace,
    texts, CharClass,
};
use vstd::prelude::*;

verus! {

/// Why a line was rejected.
#[derive(Debug, Clone, Copy, PartialEq, Eq, Structural)]
pub enum LogParseError {
    /// The separator before the message, or the message itself, is missing or malformed.
    RegexError,
    /// No host name follows the time.
    InvalidHost,
    /// No service name follows the host, or it names no known service.
    InvalidService,
    /// The line does not start with a time, or the time is none of the calendar.
    InvalidTime,
}

impl LogParseError {
    /// What the error says to a reader.
    pub open spec fn spec_message(self) -> Seq<char> {
        match self {
            LogParseError::RegexError => "Regex did not capture results"@,
            LogParseError::InvalidHost => "Could not parse host"@,
            LogParseError::InvalidService => "Could not parse service"@,
            LogParseError::InvalidTime => "Could not parse time"@,
        }
    }

    /// What the error says to a reader.
    pub fn message(&self) -> (s: String)
        ensures
            s@ == self.spec_message(),
    {
        match self {
            LogParseError::RegexError => "Regex did not capture results".to_owned(),
            LogParseError::InvalidHost => "Could not parse host".to_owned(),
            LogParseError::InvalidService => "Could not parse service".to_owned(),
            LogParseError::InvalidTime => "Could not parse time".to_owned(),
        }
    }
}

/// The entry that the fields of a line make once their time is resolved; a line whose
/// time is none of the calendar is rejected.
pub open spec fn entry_of(f: LineFieldsView, time: Option<Timestamp>) -> Result<
    LogEntryView,
    LogParseError,
> {
    match time {
        Some(t) => Ok(
            LogEntryView { time: t, host: f.host, service: f.service, message: f.message },
        ),
        None => Err(LogParseError::InvalidTime),
    }
}

/// What parsing a line gives when the current year is `year`.
pub open spec fn parse_in_year(s: Seq<char>, year: int) -> Result<LogEntryView, LogParseError> {
    match split_line(s) {
        Ok(f) => entry_of(f, resolved_time(year, f.time)),
        Err(e) => Err(e),
    }
}

/// The entry of a line that parses in `year`; `None` for a line that is rejected.
pub open spec fn accepted_in_year(s: Seq<char>, year: int) -> Option<LogEntryView> {
    match parse_in_year(s, year) {
        Ok(e) => Some(e),
        Err(_) => None,
    }
}

/// The entries of the lines that parse in `year`, in the order of the lines.
pub open spec fn parsed_lines(lines: Seq<Seq<char>>, year: int) -> Seq<LogEntryView> {
    lines.filter_map(|s: Seq<char>| accepted_in_year(s, year))
}

/// The result of a parse, the entry taken by its view.
pub open spec fn parse_result_view(r: Result<LogEntry, LogParseError>) -> Result<
    LogEntryView,
    LogParseError,
> {
    match r {
        Ok(e) => Ok(e@),
        Err(e) => Err(e),
    }
}

/// The views of a sequence of entries.
pub open spec fn entry_views(entries: Seq<LogEntry>) -> Seq<LogEntryView> {
    entries.map_values(|e: LogEntry| e@)
}

/// Makes the entry of a line from its fields and its resolved time.
pub fn build_entry(fields: LineFields, time: Option<Timestamp>) -> (r: Result<
    LogEntry,
    LogParseError,
>)
    ensures
        parse_result_view(r) == entry_of(fields@, time),
{
    match time {
        Some(t) => Ok(
            LogEntry { time: t, host: fields.host, service: fields.service, message: fields.message },
        ),
        None => Err(LogParseError::InvalidTime),
    }
}

/// Parses one line, taking `year` for the year that the line does not state.
pub fn parse_line_in_year(line: &str, year: i32) -> (r: Result<LogEntry, LogParseError>)
    ensures
        parse_result_view(r) == parse_in_year(line@, year as int),
        r matches Ok(e) ==> e@.wf(),
{
    let chars = chars_of(line);
    match split_fields(chars.as_slice()) {
        Ok(fields) => {
            proof {
                lemma_split_line_fields(line@);
            }
            let time = parse_time(year, fields.time.as_str());
            build_entry(fields, time)
        },
        Err(e) => Err(e),
    }
}

/// Parses one line, taking the current year for the year that the line does not state.
///
/// Lines of one log that were written in different years all get the current one.
pub fn parse_line(line: &str) -> (r: Result<LogEntry, LogParseError>)
    ensures
        match split_line(line@) {
            Ok(f) => exists|year: i32|
                parse_result_view(r) == entry_of(f, #[trigger] resolved_time(year as int, f.time)),
            Err(e) => r == Err::<LogEntry, LogParseError>(e),
        },
        r matches Ok(e) ==> e@.wf(),
{
    let year = current_year();
    let r = parse_line_in_year(line, year);
    proof {
        if let Ok(f) = split_line(line@) {
            assert(parse_result_view(r) == entry_of(f, resolved_time(year as int, f.time)));
        }
    }
    r
}

/// Parses the lines that can be parsed, in order, taking `year` for their year; the
/// others are left out.
pub fn parse_lines_in_year(lines: Vec<String>, year: i32) -> (entries: Vec<LogEntry>)
    ensures
        entry_views(entries@) == parsed_lines(texts(lines@), year as int),
        forall|i: int| 0 <= i < entries.len() ==> (#[trigger] entries[i])@.wf(),
{
    let mut entries: Vec<LogEntry> = Vec::new();
    let mut i: usize = 0;
    while i < lines.len()
        invariant
            i <= lines.len(),
            entry_views(entries@) == parsed_lines(texts(lines@).take(i as int), year as int),
            forall|k: int| 0 <= k < entries.len() ==> (#[trigger] entries[k])@.wf(),
        decreases lines.len() - i,
    {
        let ghost before = entries@;
        let r = parse_line_in_year(lines[i].as_str(), year);
        proof {
            let prefix = texts(lines@).take(i + 1);
            assert(prefix.drop_last() =~= texts(lines@).take(i as int));
            assert(prefix.last() == lines@[i as int]@);
        }
        match r {
            Ok(entry) => {
                entries.push(entry);
                assert(entry_views(entries@) =~= entry_views(before) + seq![entry@]);
            },
            Err(_) => {},
        }
        i += 1;
    }
    assert(texts(lines@).take(lines.len() as int) =~= texts(lines@));
    entries
}

/// Parses the lines that can be parsed, in order, taking the current year for their
/// year; the others are left out. The year is read once for all the lines.
pub fn parse_lines(lines: Vec<String>) -> (entries: Vec<LogEntry>)
    ensures
        exists|year: i32|
            entry_views(entries@) == #[trigger] parsed_lines(texts(lines@), year as int),
        forall|i: int| 0 <= i < entries.len() ==> (#[trigger] entries[i])@.wf(),
{
    let year = current_year();
    let entries = parse_lines_in_year(lines, year);
    assert(entry_views(entries@) == parsed_lines(texts(lines@), year as int));
    entries
}

/// A line that is written by the grammar parses into the fields it was written from:
/// the time, resolved in the year that is given, the host, the service that the name
/// spells, and the message. The parts are a time, a host name and a service name, each
/// after white space, a process id of one or more digits if there is one, a colon,
/// white space, and a message that holds no line feed and starts with no white space.
pub proof fn lemma_well_formed_line_parses(
    time: Seq<char>,
    gap1: Seq<char>,
    host: Seq<char>,
    gap2: Seq<char>,
    name: Seq<char>,
    pid: Option<Seq<char>>,
    gap3: Seq<char>,
    message: Seq<char>,
    year: int,
)
    requires
        time.len() == TIME_LEN,
        starts_with_time(time),
        is_run(gap1, CharClass::Space),
        is_run(host, CharClass::Name),
        is_run(gap2, CharClass::Space),
        is_run(name, CharClass::Name),
        service_named(name) is Some,
        pid matches Some(digits) ==> is_run(digits, CharClass::Digit),
        is_run(gap3, CharClass::Space),
        !message.contains('\n'),
        message.len() > 0 ==> !is_whitespace(message[0]),
    ensures
        parse_in_year(line_of(time, gap1, host, gap2, name, pid, gap3, message), year) == match resolved_time(
            year,
            time,
        ) {
            Some(t) => Ok::<LogEntryView, LogParseError>(
                LogEntryView { time: t, host, service: service_named(name)->0, message },
            ),
            None => Err::<LogEntryView, LogParseError>(LogParseError::InvalidTime),
        },
{
    lemma_well_formed_line_splits(time, gap1, host, gap2, name, pid, gap3, message);
}

/// A line whose service name spells none of the known services is rejected as
/// `InvalidService`, whatever follows the name and whatever the year.
pub proof fn lemma_unknown_service_rejected(
    time: Seq<char>,
    gap1: Seq<char>,
    host: Seq<char>,
    gap2: Seq<char>,
    name: Seq<char>,
    rest: Seq<char>,
    year: int,
)
    requires
        time.len() == TIME_LEN,
        starts_with_time(time),
        is_run(gap1, CharClass::Space),
        is_run(host, CharClass::Name),
        is_run(gap2, CharClass::Space),
        is_run(name, CharClass::Name),
        rest.len() > 0 ==> !is_name_char(rest[0]),
        service_named(name) is None,
    ensures
        parse_in_year(time + gap1 + host + gap2 + name + rest, year) == Err::<
            LogEntryView,
            LogParseError,
        >(LogParseError::InvalidService),
{
    lemma_unknown_service_splits_to_error(time, gap1, host, gap2, name, rest);
}

/// Whether a line parses in `year`.
pub open spec fn parses_in_year(s: Seq<char>, year: int) -> bool {
    parse_in_year(s, year) is Ok
}

/// The lines that parse in `year`, in their order.
pub open spec fn valid_lines(lines: Seq<Seq<char>>, year: int) -> Seq<Seq<char>> {
    lines.filter(|s: Seq<char>| parses_in_year(s, year))
}

/// The lines that do not parse in `year`, in their order.
pub open spec fn invalid_lines(lines: Seq<Seq<char>>, year: int) -> Seq<Seq<char>> {
    lines.filter(|s: Seq<char>| !parses_in_year(s, year))
}

/// Parsing a batch gives one entry for each line that parses, in the order of those
/// lines, and nothing for the others: of `N` lines that parse and `M` that do not, `N`
/// entries.
pub proof fn lemma_parsed_lines_are_the_valid_lines(lines: Seq<Seq<char>>, year: int)
    ensures
        parsed_lines(lines, year).len() == valid_lines(lines, year).len(),
        forall|i: int|
            0 <= i < valid_lines(lines, year).len() ==> parse_in_year(
                #[trigger] valid_lines(lines, year)[i],
                year,
            ) == Ok::<LogEntryView, LogParseError>(parsed_lines(lines, year)[i]),
        valid_lines(lines, year).len() + invalid_lines(lines, year).len() == lines.len(),
    decreases lines.len(),
{
    reveal(Seq::filter);
    if lines.len() > 0 {
        lemma_parsed_lines_are_the_valid_lines(lines.drop_last(), year);
        let before = valid_lines(lines.drop_last(), year);
        if parses_in_year(lines.last(), year) {
            assert(valid_lines(lines, year) == before.push(lines.last()));
        } else {
            assert(valid_lines(lines, year) == before);
        }
    }
}

/// Parsing a line twice in one year gives the same result both times.
pub proof fn lemma_parse_is_repeatable(
    line: Seq<char>,
    year: int,
    first: Result<LogEntry, LogParseError>,
    second: Result<LogEntry, LogParseError>,
)
    requires
        parse_result_view(first) == parse_in_year(line, year),
        parse_result_view(second) == parse_in_year(line, year),
    ensures
        parse_result_view(first) == parse_result_view(second),
{
}

/// The text that the payload of a run over the native transport holds.
pub open spec fn bootstrap_marker() -> Seq<char> {
    "AnsiballZ"@
}

/// The text that the interpreter call of a run over the Mitogen transport holds.
pub open spec fn decode_marker() -> Seq<char> {
    "_=codecs.decode"@
}

/// Whether an entry records a run: `sudo` wrote it, and its message holds a marker.
pub open spec fn is_ansible_entry(e: LogEntryView) -> bool {
    &&& e.service == Service::SUDO
    &&& (contains(e.message, bootstrap_marker()) || contains(e.message, decode_marker()))
}

/// The transport that a message tells of: Mitogen where the decode marker occurs,
/// whatever else does, and native otherwise.
pub open spec fn strategy_of(message: Seq<char>) -> AnsibleStrategy {
    if contains(message, decode_marker()) {
        AnsibleStrategy::Mitogen
    } else {
        AnsibleStrategy::Native
    }
}

/// The run that an entry records, if it records one. The user is the first field of the
/// message, as `sudo` writes it.
pub open spec fn classified(e: LogEntryView) -> Option<AnsibleRunView> {
    if is_ansible_entry(e) {
        Some(
            AnsibleRunView {
                time: e.time,
                host: e.host,
                user: first_field(e.message),
                strategy: strategy_of(e.message),
            },
        )
    } else {
        None
    }
}

/// The runs that the entries record, in the order of the entries.
pub open spec fn ansible_runs(entries: Seq<LogEntryView>) -> Seq<AnsibleRunView> {
    entries.filter_map(|e: LogEntryView| classified(e))
}

/// The views of a sequence of runs.
pub open spec fn run_views(runs: Seq<AnsibleRun>) -> Seq<AnsibleRunView> {
    runs.map_values(|r: AnsibleRun| r@)
}

/// The run that an entry records, if it records one.
pub fn classify_entry(entry: &LogEntry) -> (r: Option<AnsibleRun>)
    ensures
        match r {
            Some(run) => classified(entry@) == Some(run@),
            None => classified(entry@) is None,
        },
{
    match entry.service {
        Service::SUDO => {},
        _ => {
            return None;
        },
    }
    let message = chars_of(entry.message.as_str());
    let bootstrap = chars_of("AnsiballZ");
    let decode = chars_of("_=codecs.decode");
    let decoded = contains_chars(message.as_slice(), decode.as_slice());
    if !decoded && !contains_chars(message.as_slice(), bootstrap.as_slice()) {
        return None;
    }
    let strategy = if decoded {
        AnsibleStrategy::Mitogen
    } else {
        AnsibleStrategy::Native
    };
    Some(
        AnsibleRun {
            time: entry.time,
            host: entry.host.clone(),
            user: first_field_of(message.as_slice()),
            strategy,
        },
    )
}

/// The runs that the entries record, in the order of the entries.
pub fn get_ansible_runs(entries: Vec<LogEntry>) -> (runs: Vec<AnsibleRun>)
    ensures
        run_views(runs@) == ansible_runs(entry_views(entries@)),
{
    let mut runs: Vec<AnsibleRun> = Vec::new();
    let mut i: usize = 0;
    while i < entries.len()
        invariant
            i <= entries.len(),
            run_views(runs@) == ansible_runs(entry_views(entries@).take(i as int)),
        decreases entries.len() - i,
    {
        let ghost before = runs@;
        let r = classify_entry(&entries[i]);
        proof {
            let prefix = entry_views(entries@).take(i + 1);
            assert(prefix.drop_last() =~= entry_views(entries@).take(i as int));
            assert(prefix.last() == entries@[i as int]@);
        }
        match r {
            Some(run) => {
                runs.push(run);
                assert(run_views(runs@) =~= run_views(before) + seq![run@]);
            },
            None => {},
        }
        i += 1;
    }
    assert(entry_views(entries@).take(entries.len() as int) =~= entry_views(entries@));
    runs
}

/// What an entry is classified as: an entry of `sudo` whose message holds the decode
/// marker is a run over Mitogen; one whose message holds the bootstrap marker and not
/// the decode marker is a native run; an entry of another service is no run, whatever
/// its message holds.
pub proof fn lemma_classification(e: LogEntryView)
    ensures
        e.service == Service::SUDO && contains(e.message, decode_marker()) ==> (classified(e)
            matches Some(run) && run.strategy == AnsibleStrategy::Mitogen),
        e.service == Service::SUDO && contains(e.message, bootstrap_marker()) && !contains(
            e.message,
            decode_marker(),
        ) ==> (classified(e) matches Some(run) && run.strategy == AnsibleStrategy::Native),
        e.service != Service::SUDO ==> classified(e) is None,
        classified(e) matches Some(run) ==> run.time == e.time && run.host == e.host && run.user
            == first_field(e.message),
{
}

} // verus!
