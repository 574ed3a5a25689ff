use ansible_snoop::entry::{AnsibleStrategy, Service, Timestamp};
use ansible_snoop::grammar::{split_fields, LineFields};
use ansible_snoop::parser::{
    build_entry, parse_line, parse_line_in_year, parse_lines, parse_lines_in_year, LogParseError,
};
use chrono::{Datelike, Local, NaiveDateTime, Timelike};

fn timestamp_of(t: NaiveDateTime) -> Timestamp {
    Timestamp {
        year: t.year(),
        month: t.month(),
        day: t.day(),
        hour: t.hour(),
        minute: t.minute(),
        second: t.second(),
        nanosecond: t.nanosecond(),
    }
}

#[test]
fn parser_parses_time() {
    let current_year = Local::now().year();

    let line = "Jan 01 00:00:00 host sudo: user : TTY=pts/0 ; PWD=/home/user ; USER=root ; COMMAND=/bin/bash";
    let expected = NaiveDateTime::parse_from_str(
        &format!("{} Jan 01 00:00:00", current_year),
        "%Y %b %d %H:%M:%S",
    )
    .unwrap();

    let entry = parse_line(line).unwrap();
    assert_eq!(entry.time, timestamp_of(expected));

    let line = "Mar 15 23:22:13 host sudo: user : TTY=pts/0 ; PWD=/home/user ; USER=root ; COMMAND=/bin/bash";
    let expected = NaiveDateTime::parse_from_str(
        &format!("{} Mar 15 23:22:13", current_year),
        "%Y %b %d %H:%M:%S",
    )
    .unwrap();

    let entry = parse_line(line).unwrap();
    assert_eq!(entry.time, timestamp_of(expected));
}

#[test]
fn parser_parses_host() {
    let line = "Jan 01 00:00:00 host sudo: user : TTY=pts/0 ; PWD=/home/user ; USER=root ; COMMAND=/bin/bash";
    let entry = parse_line(line).unwrap();
    assert_eq!(entry.host, "host");
}

#[test]
fn parser_parses_service() {
    let line = "Jan 01 00:00:00 host sudo: user : TTY=pts/0 ; PWD=/home/user ; USER=root ; COMMAND=/bin/bash";
    let entry = parse_line(line).unwrap();
    assert_eq!(entry.service, Service::SUDO);

    let line = "Jan 01 00:00:00 host sshd[1234]: user : TTY=pts/0 ; PWD=/home/user ; USER=root ; COMMAND=/bin/bash";
    let entry = parse_line(line).unwrap();
    assert_eq!(entry.service, Service::SSHD);
}

#[test]
fn parser_fails_unsupported_service() {
    let line = "Jan 01 00:00:00 host unsupported: user : TTY=pts/0 ; PWD=/home/user ; USER=root ; COMMAND=/bin/bash";
    let result = parse_line(line).unwrap_err();
    let expected = LogParseError::InvalidService;
    assert_eq!(result, expected);
}

#[test]
fn parser_parses_message() {
    let line = "Jan 01 00:00:00 host sudo: user : TTY=pts/0 ; PWD=/home/user ; USER=root ; COMMAND=/bin/bash";
    let entry = parse_line(line).unwrap();
    assert_eq!(
        entry.message,
        "user : TTY=pts/0 ; PWD=/home/user ; USER=root ; COMMAND=/bin/bash"
    );
}

const SUDO_MESSAGE: &str = "user : TTY=pts/0 ; PWD=/home/user ; USER=root ; COMMAND=/bin/bash";

fn at(year: i32, month: u32, day: u32, hour: u32, minute: u32, second: u32) -> Timestamp {
    Timestamp { year, month, day, hour, minute, second, nanosecond: 0 }
}

#[test]
fn line_parses_into_its_fields() {
    let line = format!("Mar 15 23:22:13 web-01 sudo[4242]: {}", SUDO_MESSAGE);
    let entry = parse_line_in_year(&line, 2023).unwrap();
    assert_eq!(entry.time, at(2023, 3, 15, 23, 22, 13));
    assert_eq!(entry.host, "web-01");
    assert_eq!(entry.service, Service::SUDO);
    assert_eq!(entry.message, SUDO_MESSAGE);
}

#[test]
fn current_year_is_injected() {
    let entry = parse_line("Dec 31 23:59:59 host cron: tick").unwrap();
    assert_eq!(entry.time.year, Local::now().year());
    assert_eq!(entry.time.month, 12);
    assert_eq!(entry.time.day, 31);
    assert_eq!(entry.service, Service::CRON);
}

#[test]
fn year_decides_leap_day() {
    let line = "Feb 29 12:00:00 host sshd: ok";
    assert_eq!(parse_line_in_year(line, 2024).unwrap().time, at(2024, 2, 29, 12, 0, 0));
    assert_eq!(parse_line_in_year(line, 2023).unwrap_err(), LogParseError::InvalidTime);
}

#[test]
fn leap_second_is_kept() {
    let entry = parse_line_in_year("Jun 30 23:59:60 host sshd: ok", 2015).unwrap();
    assert_eq!(
        entry.time,
        Timestamp {
            year: 2015,
            month: 6,
            day: 30,
            hour: 23,
            minute: 59,
            second: 59,
            nanosecond: 1_000_000_000
        }
    );
}

#[test]
fn month_is_read_whatever_the_case_of_its_first_letter() {
    let entry = parse_line_in_year("jan 02 03:04:05 host sshd: ok", 2020).unwrap();
    assert_eq!(entry.time, at(2020, 1, 2, 3, 4, 5));
}

#[test]
fn time_outside_the_calendar_is_invalid_time() {
    for line in [
        "Xyz 01 00:00:00 host sudo: m",
        "Jan 32 00:00:00 host sudo: m",
        "Jan 00 00:00:00 host sudo: m",
        "Jan 01 24:00:00 host sudo: m",
        "Jan 01 00:60:00 host sudo: m",
        "Jan 01 00:00:61 host sudo: m",
        "_an 01 00:00:00 host sudo: m",
    ] {
        assert_eq!(parse_line_in_year(line, 2024).unwrap_err(), LogParseError::InvalidTime);
    }
}

#[test]
fn line_without_time_is_invalid_time() {
    for line in [
        "",
        "host sudo: m",
        " Jan 01 00:00:00 host sudo: m",
        "JAN 01 00:00:00 host sudo: m",
        "Jan 1 00:00:00 host sudo: m",
        "Jan 01 00:00 host sudo: m",
        "Jan  01 00:00:00 host sudo: m",
        "Jan 01 00-00-00 host sudo: m",
        "Jan 01 00:00:0",
        "1an 01 00:00:00 host sudo: m",
    ] {
        assert_eq!(parse_line_in_year(line, 2024).unwrap_err(), LogParseError::InvalidTime);
    }
}

#[test]
fn line_without_host_is_invalid_host() {
    for line in [
        "Jan 01 00:00:00",
        "Jan 01 00:00:00 ",
        "Jan 01 00:00:00host sudo: m",
        "Jan 01 00:00:00 _host sudo: m",
        "Jan 01 00:00:00 : m",
    ] {
        assert_eq!(parse_line_in_year(line, 2024).unwrap_err(), LogParseError::InvalidHost);
    }
}

#[test]
fn line_without_service_is_invalid_service() {
    for line in [
        "Jan 01 00:00:00 host",
        "Jan 01 00:00:00 host ",
        "Jan 01 00:00:00 host: m",
        "Jan 01 00:00:00 host.example sudo: m",
        "Jan 01 00:00:00 host [1]: m",
    ] {
        assert_eq!(parse_line_in_year(line, 2024).unwrap_err(), LogParseError::InvalidService);
    }
}

#[test]
fn service_outside_the_set_is_invalid_service() {
    for name in ["telnetd", "su", "sudoo", "ssh", "crond", "systemd-logind", "CRO", "s-u-d-o"] {
        let line = format!("Jan 01 00:00:00 host {}[7]: m", name);
        assert_eq!(parse_line_in_year(&line, 2024).unwrap_err(), LogParseError::InvalidService);
        let line = format!("Jan 01 00:00:00 host {}", name);
        assert_eq!(parse_line_in_year(&line, 2024).unwrap_err(), LogParseError::InvalidService);
        let line = format!("Feb 30 00:00:00 host {}: m", name);
        assert_eq!(parse_line_in_year(&line, 2024).unwrap_err(), LogParseError::InvalidService);
    }
}

#[test]
fn service_is_read_whatever_its_case() {
    for (name, service) in [
        ("SSHD", Service::SSHD),
        ("sshd", Service::SSHD),
        ("Sshd", Service::SSHD),
        ("CRON", Service::CRON),
        ("cron", Service::CRON),
        ("cRoN", Service::CRON),
        ("SUDO", Service::SUDO),
        ("sudo", Service::SUDO),
        ("suDO", Service::SUDO),
    ] {
        let line = format!("Jan 01 00:00:00 host {}: m", name);
        assert_eq!(parse_line_in_year(&line, 2024).unwrap().service, service);
        assert_eq!(Service::from_name(name), Some(service));
    }
    assert_eq!(Service::from_name("telnetd"), None);
    assert_eq!(Service::from_name(""), None);
    assert_eq!(Service::from_name("\u{017F}udo"), None);
    assert_eq!(Service::from_name("\u{212A}ron"), None);
}

#[test]
fn strategy_is_read_whatever_its_case() {
    assert_eq!(AnsibleStrategy::from_name("NATIVE"), Some(AnsibleStrategy::Native));
    assert_eq!(AnsibleStrategy::from_name("native"), Some(AnsibleStrategy::Native));
    assert_eq!(AnsibleStrategy::from_name("Mitogen"), Some(AnsibleStrategy::Mitogen));
    assert_eq!(AnsibleStrategy::from_name("MITOGEN"), Some(AnsibleStrategy::Mitogen));
    assert_eq!(AnsibleStrategy::from_name("ssh"), None);
}

#[test]
fn malformed_rest_is_regex_error() {
    for line in [
        "Jan 01 00:00:00 host sudo",
        "Jan 01 00:00:00 host sudo m",
        "Jan 01 00:00:00 host sudo:",
        "Jan 01 00:00:00 host sudo:m",
        "Jan 01 00:00:00 host sudo[]: m",
        "Jan 01 00:00:00 host sudo[12: m",
        "Jan 01 00:00:00 host sudo[1a]: m",
        "Jan 01 00:00:00 host sudo[12] : m",
        "Jan 01 00:00:00 host sudo [12]: m",
        "Jan 01 00:00:00 host sudo: first\nsecond",
        "Jan 01 00:00:00 host sudo: m\n",
    ] {
        assert_eq!(parse_line_in_year(line, 2024).unwrap_err(), LogParseError::RegexError);
    }
}

#[test]
fn message_may_be_empty() {
    let entry = parse_line_in_year("Jan 01 00:00:00 host sudo: ", 2024).unwrap();
    assert_eq!(entry.message, "");
    let entry = parse_line_in_year("Jan 01 00:00:00 host sudo:\n", 2024).unwrap();
    assert_eq!(entry.message, "");
}

#[test]
fn white_space_between_fields_is_dropped() {
    let entry =
        parse_line_in_year("Jan 01 00:00:00 \t host\u{00A0}\u{2003}sshd[1]:\t  a b \t", 2024)
            .unwrap();
    assert_eq!(entry.host, "host");
    assert_eq!(entry.service, Service::SSHD);
    assert_eq!(entry.message, "a b \t");
}

#[test]
fn message_keeps_colons_and_carriage_returns() {
    let entry = parse_line_in_year("Jan 01 00:00:00 h-1 cron[9]: a: b; c\r", 2024).unwrap();
    assert_eq!(entry.host, "h-1");
    assert_eq!(entry.message, "a: b; c\r");
}

#[test]
fn fields_are_split_before_the_time_is_resolved() {
    let line: Vec<char> = "Feb 30 10:11:12 host sshd[22]: hello".chars().collect();
    let fields = split_fields(&line).unwrap();
    assert_eq!(fields.time, "Feb 30 10:11:12");
    assert_eq!(fields.host, "host");
    assert_eq!(fields.service, Service::SSHD);
    assert_eq!(fields.message, "hello");
    assert_eq!(
        parse_line_in_year("Feb 30 10:11:12 host sshd[22]: hello", 2024).unwrap_err(),
        LogParseError::InvalidTime
    );
}

#[test]
fn entry_is_built_from_fields_and_time() {
    let fields = |message: &str| LineFields {
        time: "Jan 01 00:00:00".to_string(),
        host: "host".to_string(),
        service: Service::CRON,
        message: message.to_string(),
    };
    let entry = build_entry(fields("m"), Some(at(1999, 1, 1, 0, 0, 0))).unwrap();
    assert_eq!(entry.time, at(1999, 1, 1, 0, 0, 0));
    assert_eq!(entry.host, "host");
    assert_eq!(entry.service, Service::CRON);
    assert_eq!(entry.message, "m");
    assert_eq!(build_entry(fields("m"), None).unwrap_err(), LogParseError::InvalidTime);
}

#[test]
fn batch_keeps_valid_lines_in_order() {
    let lines: Vec<String> = [
        "Jan 01 00:00:01 a sudo: one",
        "garbage",
        "Jan 01 00:00:02 b telnetd: two",
        "Jan 01 00:00:03 c sshd[3]: three",
        "",
        "Feb 30 00:00:04 d cron: four",
        "Jan 01 00:00:05 e CRON: five",
        "Jan 01 00:00:06 f sudo:six",
    ]
    .iter()
    .map(|s| s.to_string())
    .collect();
    let entries = parse_lines_in_year(lines.clone(), 2024);
    assert_eq!(entries.len(), 3);
    let hosts: Vec<&str> = entries.iter().map(|e| e.host.as_str()).collect();
    assert_eq!(hosts, vec!["a", "c", "e"]);
    let messages: Vec<&str> = entries.iter().map(|e| e.message.as_str()).collect();
    assert_eq!(messages, vec!["one", "three", "five"]);
    assert_eq!(entries[1].time, at(2024, 1, 1, 0, 0, 3));

    let entries = parse_lines(lines);
    assert_eq!(entries.len(), 3);
    let year = Local::now().year();
    assert!(entries.iter().all(|e| e.time.year == year));
}

#[test]
fn batch_of_nothing_is_empty() {
    assert_eq!(parse_lines_in_year(Vec::new(), 2024).len(), 0);
    assert_eq!(parse_lines(vec!["nothing".to_string()]).len(), 0);
}

#[test]
fn parsing_twice_gives_equal_entries() {
    let line = "Mar 15 23:22:13 host sudo[1]: user : COMMAND=/bin/true";
    let first = parse_line_in_year(line, 2024).unwrap();
    let second = parse_line_in_year(line, 2024).unwrap();
    assert_eq!(first.time, second.time);
    assert_eq!(first.host, second.host);
    assert_eq!(first.service, second.service);
    assert_eq!(first.message, second.message);
    assert_eq!(parse_line_in_year("x", 2024).unwrap_err(), parse_line_in_year("x", 2024).unwrap_err());
}

#[test]
fn parse_errors_say_what_went_wrong() {
    assert_eq!(LogParseError::RegexError.message(), "Regex did not capture results");
    assert_eq!(LogParseError::InvalidTime.message(), "Could not parse time");
    assert_eq!(LogParseError::InvalidHost.message(), "Could not parse host");
    assert_eq!(LogParseError::InvalidService.message(), "Could not parse service");
}
