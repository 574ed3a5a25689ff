//! The records that the parser and the classifier produce.

use crate::text::{
    ascii_fold, chars_eq_ignore_ascii_case, chars_of, eq_ignore_ascii_case, is_name_char,
};
use vstd::prelude::*;

verus! {

/// The services whose log lines are read.
#[derive(Debug, Clone, Copy, PartialEq, Eq, Structural)]
pub enum Service {
    CRON,
    SUDO,
    SSHD,
}

/// The transport that a configuration-management run used.
#[derive(Debug, Clone, Copy, PartialEq, Eq, Structural)]
pub enum AnsibleStrategy {
    Native,
    Mitogen,
}

/// A calendar date and time of day without a time zone, field by field.
#[derive(Debug, Clone, Copy, PartialEq, Eq, Structural)]
pub struct Timestamp {
    pub year: i32,
    pub month: u32,
    pub day: u32,
    pub hour: u32,
    pub minute: u32,
    pub second: u32,
    /// Nanoseconds past `second`; a leap second counts from 1_000_000_000.
    pub nanosecond: u32,
}

/// One parsed log line.
#[derive(Debug)]
pub struct LogEntry {
    pub time: Timestamp,
    pub host: String,
    pub service: Service,
    pub message: String,
}

/// One detected configuration-management run.
#[derive(Debug)]
pub struct AnsibleRun {
    pub time: Timestamp,
    pub host: String,
    pub user: String,
    pub strategy: AnsibleStrategy,
}

/// What a `LogEntry` holds, as mathematical values.
pub struct LogEntryView {
    pub time: Timestamp,
    pub host: Seq<char>,
    pub service: Service,
    pub message: Seq<char>,
}

/// What an `AnsibleRun` holds, as mathematical values.
pub struct AnsibleRunView {
    pub time: Timestamp,
    pub host: Seq<char>,
    pub user: Seq<char>,
    pub strategy: AnsibleStrategy,
}

impl View for LogEntry {
    type V = LogEntryView;

    open spec fn view(&self) -> LogEntryView {
        LogEntryView {
            time: self.time,
            host: self.host@,
            service: self.service,
            message: self.message@,
        }
    }
}

impl View for AnsibleRun {
    type V = AnsibleRunView;

    open spec fn view(&self) -> AnsibleRunView {
        AnsibleRunView {
            time: self.time,
            host: self.host@,
            user: self.user@,
            strategy: self.strategy,
        }
    }
}

/// Whether `host` is a host name: one or more letters, digits and hyphens.
pub open spec fn valid_host(host: Seq<char>) -> bool {
    &&& host.len() > 0
    &&& forall|i: int| 0 <= i < host.len() ==> is_name_char(#[trigger] host[i])
}

impl LogEntryView {
    /// The time is a date of the calendar and the host is a host name.
    pub open spec fn wf(&self) -> bool {
        &&& self.time.wf()
        &&& valid_host(self.host)
    }
}

impl Timestamp {
    /// The fields lie in the ranges of a calendar date and a time of day.
    pub open spec fn wf(&self) -> bool {
        &&& 1 <= self.month <= 12
        &&& 1 <= self.day <= 31
        &&& self.hour <= 23
        &&& self.minute <= 59
        &&& self.second <= 59
        &&& self.nanosecond <= 1_999_999_999
    }
}

/// The service that `name` spells, whatever the case of its letters.
pub open spec fn service_named(name: Seq<char>) -> Option<Service> {
    if eq_ignore_ascii_case(name, seq!['C', 'R', 'O', 'N']) {
        Some(Service::CRON)
    } else if eq_ignore_ascii_case(name, seq!['S', 'U', 'D', 'O']) {
        Some(Service::SUDO)
    } else if eq_ignore_ascii_case(name, seq!['S', 'S', 'H', 'D']) {
        Some(Service::SSHD)
    } else {
        None
    }
}

/// The strategy that `name` spells, whatever the case of its letters.
pub open spec fn strategy_named(name: Seq<char>) -> Option<AnsibleStrategy> {
    if eq_ignore_ascii_case(name, seq!['N', 'A', 'T', 'I', 'V', 'E']) {
        Some(AnsibleStrategy::Native)
    } else if eq_ignore_ascii_case(name, seq!['M', 'I', 'T', 'O', 'G', 'E', 'N']) {
        Some(AnsibleStrategy::Mitogen)
    } else {
        None
    }
}

impl Service {
    /// Reads a service from the characters of its name; `None` for any other token.
    pub fn from_chars(name: &[char]) -> (r: Option<Service>)
        ensures
            r == service_named(name@),
    {
        let cron: [char; 4] = ['C', 'R', 'O', 'N'];
        let sudo: [char; 4] = ['S', 'U', 'D', 'O'];
        let sshd: [char; 4] = ['S', 'S', 'H', 'D'];
        assert(cron@ =~= seq!['C', 'R', 'O', 'N']);
        assert(sudo@ =~= seq!['S', 'U', 'D', 'O']);
        assert(sshd@ =~= seq!['S', 'S', 'H', 'D']);
        if chars_eq_ignore_ascii_case(name, cron.as_slice()) {
            Some(Service::CRON)
        } else if chars_eq_ignore_ascii_case(name, sudo.as_slice()) {
            Some(Service::SUDO)
        } else if chars_eq_ignore_ascii_case(name, sshd.as_slice()) {
            Some(Service::SSHD)
        } else {
            None
        }
    }

    /// Reads a service from its name; `None` for any other token.
    pub fn from_name(name: &str) -> (r: Option<Service>)
        ensures
            r == service_named(name@),
    {
        let chars = chars_of(name);
        Service::from_chars(chars.as_slice())
    }
}

impl AnsibleStrategy {
    /// Reads a strategy from its name; `None` for any other text.
    pub fn from_name(name: &str) -> (r: Option<AnsibleStrategy>)
        ensures
            r == strategy_named(name@),
    {
        let chars = chars_of(name);
        let native: [char; 6] = ['N', 'A', 'T', 'I', 'V', 'E'];
        let mitogen: [char; 7] = ['M', 'I', 'T', 'O', 'G', 'E', 'N'];
        assert(native@ =~= seq!['N', 'A', 'T', 'I', 'V', 'E']);
        assert(mitogen@ =~= seq!['M', 'I', 'T', 'O', 'G', 'E', 'N']);
        if chars_eq_ignore_ascii_case(chars.as_slice(), native.as_slice()) {
            Some(AnsibleStrategy::Native)
        } else if chars_eq_ignore_ascii_case(chars.as_slice(), mitogen.as_slice()) {
            Some(AnsibleStrategy::Mitogen)
        } else {
            None
        }
    }
}

/// Names that differ only in the case of their letters spell the same service, or none.
pub proof fn lemma_service_name_ignores_case(a: Seq<char>, b: Seq<char>)
    requires
        eq_ignore_ascii_case(a, b),
    ensures
        service_named(a) == service_named(b),
{
    assert forall|c: Seq<char>| eq_ignore_ascii_case(a, c) == eq_ignore_ascii_case(b, c) by {
        if a.len() == c.len() {
            if eq_ignore_ascii_case(a, c) {
                assert forall|i: int| 0 <= i < b.len() implies ascii_fold(#[trigger] b[i])
                    == ascii_fold(c[i]) by {
                    assert(ascii_fold(a[i]) == ascii_fold(b[i]));
                    assert(ascii_fold(a[i]) == ascii_fold(c[i]));
                }
            }
            if eq_ignore_ascii_case(b, c) {
                assert forall|i: int| 0 <= i < a.len() implies ascii_fold(#[trigger] a[i])
                    == ascii_fold(c[i]) by {
                    assert(ascii_fold(a[i]) == ascii_fold(b[i]));
                    assert(ascii_fold(b[i]) == ascii_fold(c[i]));
                }
            }
        }
    }
}

} // verus!
