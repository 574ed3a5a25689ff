use ansible_snoop::reader::{
    advance_plain, advance_with, determine_source, make_distribution_command,
    make_plain_sudo_command, make_readable_command, make_retrieval_command, make_sudo_command,
    plan_retrieval, LocalSource, Phase, RemoteCommand, RemoteEvent, RemoteSource, Retrieval,
    Source, SourceReader, Step, Wanted,
};
use ansible_snoop::remote::{LogFamily, RemoteLogError};
use std::path::PathBuf;

const PASSWORD: &str = "hunter2-s3cret";

fn source(password: Option<&str>) -> RemoteSource {
    RemoteSource::new("host.example".to_string(), password.map(|p| p.to_string()))
}

fn run(step: Step) -> RemoteCommand {
    match step {
        Step::Run(command) => command,
        Step::Done(lines) => panic!("no command, but lines: {:?}", lines),
        Step::Failed(e) => panic!("no command, but a failure: {:?}", e),
    }
}

fn failed(step: Step) -> RemoteLogError {
    match step {
        Step::Failed(e) => e,
        Step::Done(lines) => panic!("no failure, but lines: {:?}", lines),
        Step::Run(command) => panic!("no failure, but a command: {}", command.program),
    }
}

fn output(s: &str) -> RemoteEvent {
    RemoteEvent::Output(s.as_bytes().to_vec())
}

fn assert_command(
    command: &RemoteCommand,
    program: &str,
    args: &[&str],
    input: Option<&str>,
    discard_errors: bool,
    wanted: Wanted,
) {
    assert_eq!(command.program, program);
    assert_eq!(command.args, args);
    assert_eq!(command.input.as_deref(), input);
    assert_eq!(command.discard_errors, discard_errors);
    assert_eq!(command.wanted, wanted);
}

#[test]
fn sources_hold_what_they_are_given() {
    let local = LocalSource::new(PathBuf::from("/var/log/auth.log"));
    assert_eq!(local.path, PathBuf::from("/var/log/auth.log"));
    let remote = RemoteSource::new("web".to_string(), Some("pw".to_string()));
    assert_eq!(remote.host, "web");
    assert_eq!(remote.password.as_deref(), Some("pw"));
    let remote = RemoteSource::new("db".to_string(), None);
    assert_eq!(remote.host, "db");
    assert_eq!(remote.password, None);
    match SourceReader::Local(local) {
        SourceReader::Local(l) => assert_eq!(l.path, PathBuf::from("/var/log/auth.log")),
        SourceReader::Remote(_) => panic!("not local"),
    }
    match SourceReader::Remote(remote) {
        SourceReader::Remote(r) => assert_eq!(r.host, "db"),
        SourceReader::Local(_) => panic!("not remote"),
    }
}

#[test]
fn source_is_a_file_where_it_names_one() {
    match determine_source("/var/log/auth.log".to_string(), true) {
        Source::File(path) => assert_eq!(path, "/var/log/auth.log"),
        Source::Remote(_) => panic!("not a file"),
    }
    match determine_source("web-01".to_string(), false) {
        Source::Remote(host) => assert_eq!(host, "web-01"),
        Source::File(_) => panic!("not a host"),
    }
    match determine_source("/no/such/file".to_string(), false) {
        Source::Remote(host) => assert_eq!(host, "/no/such/file"),
        Source::File(_) => panic!("not a host"),
    }
}

#[test]
fn readable_log_is_read_directly() {
    for passwordless in [false, true] {
        for has_password in [false, true] {
            assert_eq!(plan_retrieval(true, passwordless, has_password), Ok(Retrieval::Direct));
        }
    }
}

#[test]
fn passwordless_sudo_reads_without_password() {
    assert_eq!(plan_retrieval(false, true, false), Ok(Retrieval::Sudo));
    assert_eq!(plan_retrieval(false, true, true), Ok(Retrieval::Sudo));
}

#[test]
fn sudo_with_password_gets_it_piped() {
    assert_eq!(plan_retrieval(false, false, true), Ok(Retrieval::SudoWithPassword));
}

#[test]
fn no_access_and_no_password_is_log_not_readable() {
    assert_eq!(plan_retrieval(false, false, false), Err(RemoteLogError::LogNotReadable));
}

#[test]
fn sudo_is_available_without_password_or_with_one() {
    assert!(source(None).check_sudo_available(true));
    assert!(!source(None).check_sudo_available(false));
    assert!(source(Some(PASSWORD)).check_sudo_available(true));
    assert!(source(Some(PASSWORD)).check_sudo_available(false));
}

#[test]
fn commands() {
    assert_command(
        &make_distribution_command(),
        "cat",
        &["/etc/os-release"],
        None,
        true,
        Wanted::Output,
    );
    assert_command(
        &make_readable_command(LogFamily::Debian),
        "test",
        &["-r", "/var/log/auth.log"],
        None,
        true,
        Wanted::Status,
    );
    assert_command(
        &make_readable_command(LogFamily::RedHat),
        "test",
        &["-r", "/var/log/secure"],
        None,
        true,
        Wanted::Status,
    );
    assert_command(&make_sudo_command(), "sudo", &["-n", "true"], None, true, Wanted::Status);
    let password = Some(PASSWORD.to_string());
    assert_command(
        &make_retrieval_command(Retrieval::Direct, LogFamily::RedHat, &password),
        "cat",
        &["/var/log/secure"],
        None,
        false,
        Wanted::Output,
    );
    assert_command(
        &make_retrieval_command(Retrieval::Sudo, LogFamily::Debian, &password),
        "sudo",
        &["-S", "cat", "/var/log/auth.log"],
        None,
        false,
        Wanted::Output,
    );
    assert_command(
        &make_retrieval_command(Retrieval::SudoWithPassword, LogFamily::Debian, &password),
        "sudo",
        &["-S", "cat", "/var/log/auth.log"],
        Some(PASSWORD),
        true,
        Wanted::Output,
    );
}

#[test]
fn reading_a_readable_log() {
    let source = source(None);
    let phase = source.start();
    assert_eq!(phase, Phase::Connecting);
    let (phase, step) = source.advance(phase, RemoteEvent::Connected);
    assert_eq!(phase, Phase::Distribution);
    assert_command(&run(step), "cat", &["/etc/os-release"], None, true, Wanted::Output);
    let (phase, step) = source.advance(phase, output("NAME=Ubuntu\nID=ubuntu\n"));
    assert_eq!(phase, Phase::Readable(LogFamily::Debian));
    assert_command(&run(step), "test", &["-r", "/var/log/auth.log"], None, true, Wanted::Status);
    let (phase, step) = source.advance(phase, RemoteEvent::Status(true));
    assert_eq!(phase, Phase::Sudo(LogFamily::Debian, true));
    assert_command(&run(step), "sudo", &["-n", "true"], None, true, Wanted::Status);
    let (phase, step) = source.advance(phase, RemoteEvent::Status(false));
    assert_eq!(phase, Phase::Retrieval);
    assert_command(&run(step), "cat", &["/var/log/auth.log"], None, false, Wanted::Output);
    let (phase, step) = source.advance(phase, output("line one\r\nline two\n"));
    assert_eq!(phase, Phase::Finished);
    match step {
        Step::Done(lines) => assert_eq!(lines, vec!["line one", "line two"]),
        Step::Run(command) => panic!("not done, but a command: {}", command.program),
        Step::Failed(e) => panic!("not done, but a failure: {:?}", e),
    }
}

fn retrieval(password: Option<&str>, readable: bool, passwordless: bool) -> (Phase, Step) {
    source(password)
        .advance(Phase::Sudo(LogFamily::RedHat, readable), RemoteEvent::Status(passwordless))
}

#[test]
fn decision_table() {
    for password in [None, Some(PASSWORD)] {
        for passwordless in [false, true] {
            let (phase, step) = retrieval(password, true, passwordless);
            assert_eq!(phase, Phase::Retrieval);
            assert_command(&run(step), "cat", &["/var/log/secure"], None, false, Wanted::Output);
        }
        let (phase, step) = retrieval(password, false, true);
        assert_eq!(phase, Phase::Retrieval);
        assert_command(
            &run(step),
            "sudo",
            &["-S", "cat", "/var/log/secure"],
            None,
            false,
            Wanted::Output,
        );
    }
    let (phase, step) = retrieval(Some(PASSWORD), false, false);
    assert_eq!(phase, Phase::Retrieval);
    assert_command(
        &run(step),
        "sudo",
        &["-S", "cat", "/var/log/secure"],
        Some(PASSWORD),
        true,
        Wanted::Output,
    );
    let (phase, step) = retrieval(None, false, false);
    assert_eq!(phase, Phase::Finished);
    assert_eq!(failed(step), RemoteLogError::LogNotReadable);
}

#[test]
fn password_stands_in_no_argument() {
    let source = source(Some(PASSWORD));
    let families = [LogFamily::Debian, LogFamily::RedHat];
    let mut phases = vec![Phase::Connecting, Phase::Distribution, Phase::Retrieval, Phase::Finished];
    for family in families {
        phases.push(Phase::Readable(family));
        phases.push(Phase::Sudo(family, false));
        phases.push(Phase::Sudo(family, true));
    }
    let mut with_input = 0;
    for phase in phases {
        let events = vec![
            RemoteEvent::Connected,
            output("ID=ubuntu\n"),
            output("ID=rhel\n"),
            output(PASSWORD),
            RemoteEvent::Status(true),
            RemoteEvent::Status(false),
            RemoteEvent::InputFailed,
            RemoteEvent::Failed,
        ];
        for event in events {
            if let (_, Step::Run(command)) = source.advance(phase, event) {
                assert!(!command.program.contains(PASSWORD));
                assert!(command.args.iter().all(|a| !a.contains(PASSWORD)));
                if let Some(input) = command.input {
                    assert_eq!(input, PASSWORD);
                    assert_eq!(command.program, "sudo");
                    with_input += 1;
                }
            }
        }
    }
    assert_eq!(with_input, 2);
}

#[test]
fn unreadable_distribution_ends_the_reading() {
    let source = source(None);
    for (contents, error) in [
        ("", RemoteLogError::UnsupportedDistro),
        ("NAME=x\n", RemoteLogError::UnsupportedDistro),
        ("ID=arch\n", RemoteLogError::UnsupportedDistro),
    ] {
        let (phase, step) = source.advance(Phase::Distribution, output(contents));
        assert_eq!(phase, Phase::Finished);
        assert_eq!(failed(step), error);
    }
    let (phase, step) = source.advance(Phase::Distribution, RemoteEvent::Output(vec![0xFF, 0xFE]));
    assert_eq!(phase, Phase::Finished);
    assert_eq!(failed(step), RemoteLogError::Decode);
    let (phase, step) = source.advance(Phase::Distribution, output("ID=\"centos\"\n"));
    assert_eq!(phase, Phase::Readable(LogFamily::RedHat));
    assert_command(&run(step), "test", &["-r", "/var/log/secure"], None, true, Wanted::Status);
}

#[test]
fn log_that_is_no_text_is_a_decode_error() {
    let (phase, step) = source(None).advance(Phase::Retrieval, RemoteEvent::Output(vec![b'a', 0x80]));
    assert_eq!(phase, Phase::Finished);
    assert_eq!(failed(step), RemoteLogError::Decode);
}

#[test]
fn closed_input_is_a_sudo_stdin_error() {
    let (phase, step) = source(Some(PASSWORD)).advance(Phase::Retrieval, RemoteEvent::InputFailed);
    assert_eq!(phase, Phase::Finished);
    assert_eq!(failed(step), RemoteLogError::SudoStdin);
}

#[test]
fn failed_command_is_a_connection_error() {
    let source = source(Some(PASSWORD));
    for phase in [
        Phase::Connecting,
        Phase::Distribution,
        Phase::Readable(LogFamily::Debian),
        Phase::Sudo(LogFamily::Debian, false),
        Phase::Retrieval,
        Phase::Finished,
    ] {
        let (next, step) = source.advance(phase, RemoteEvent::Failed);
        assert_eq!(next, Phase::Finished);
        assert_eq!(failed(step), RemoteLogError::Connection);
    }
}

#[test]
fn answer_to_another_question_is_a_connection_error() {
    let source = source(None);
    for (phase, event) in [
        (Phase::Connecting, RemoteEvent::Status(true)),
        (Phase::Connecting, output("ID=ubuntu\n")),
        (Phase::Distribution, RemoteEvent::Connected),
        (Phase::Distribution, RemoteEvent::Status(true)),
        (Phase::Distribution, RemoteEvent::InputFailed),
        (Phase::Readable(LogFamily::Debian), output("x")),
        (Phase::Readable(LogFamily::Debian), RemoteEvent::InputFailed),
        (Phase::Sudo(LogFamily::Debian, true), output("x")),
        (Phase::Retrieval, RemoteEvent::Status(true)),
        (Phase::Retrieval, RemoteEvent::Connected),
        (Phase::Finished, RemoteEvent::Connected),
        (Phase::Finished, output("x")),
    ] {
        let (next, step) = source.advance(phase, event);
        assert_eq!(next, Phase::Finished);
        assert_eq!(failed(step), RemoteLogError::Connection);
    }
}

#[test]
fn plain_reading_of_a_readable_log_uses_cat() {
    for passwordless in [false, true] {
        let (phase, step) =
            advance_plain(Phase::Sudo(LogFamily::Debian, true), RemoteEvent::Status(passwordless));
        assert_eq!(phase, Phase::Retrieval);
        assert_command(&run(step), "cat", &["/var/log/auth.log"], None, false, Wanted::Output);
    }
}

#[test]
fn plain_reading_through_sudo_uses_sudo_cat() {
    let (phase, step) =
        advance_plain(Phase::Sudo(LogFamily::Debian, false), RemoteEvent::Status(true));
    assert_eq!(phase, Phase::Retrieval);
    assert_command(&run(step), "sudo", &["cat", "/var/log/auth.log"], None, false, Wanted::Output);
    let (phase, step) =
        advance_plain(Phase::Sudo(LogFamily::RedHat, false), RemoteEvent::Status(true));
    assert_eq!(phase, Phase::Retrieval);
    assert_command(&run(step), "sudo", &["cat", "/var/log/secure"], None, false, Wanted::Output);
    assert_command(
        &make_plain_sudo_command(LogFamily::RedHat),
        "sudo",
        &["cat", "/var/log/secure"],
        None,
        false,
        Wanted::Output,
    );
}

#[test]
fn plain_reading_without_access_is_log_not_readable() {
    let (phase, step) =
        advance_plain(Phase::Sudo(LogFamily::Debian, false), RemoteEvent::Status(false));
    assert_eq!(phase, Phase::Finished);
    assert_eq!(failed(step), RemoteLogError::LogNotReadable);
}

#[test]
fn plain_reading_from_start_to_end() {
    let (phase, step) = advance_plain(Phase::Connecting, RemoteEvent::Connected);
    assert_eq!(phase, Phase::Distribution);
    assert_command(&run(step), "cat", &["/etc/os-release"], None, true, Wanted::Output);
    let (phase, step) = advance_plain(phase, output("ID=\"centos\"\n"));
    assert_eq!(phase, Phase::Readable(LogFamily::RedHat));
    assert_command(&run(step), "test", &["-r", "/var/log/secure"], None, true, Wanted::Status);
    let (phase, step) = advance_plain(phase, RemoteEvent::Status(false));
    assert_eq!(phase, Phase::Sudo(LogFamily::RedHat, false));
    assert_command(&run(step), "sudo", &["-n", "true"], None, true, Wanted::Status);
    let (phase, step) = advance_plain(phase, RemoteEvent::Status(true));
    assert_eq!(phase, Phase::Retrieval);
    assert_command(&run(step), "sudo", &["cat", "/var/log/secure"], None, false, Wanted::Output);
    let (phase, step) = advance_plain(phase, output("a\nb\n"));
    assert_eq!(phase, Phase::Finished);
    match step {
        Step::Done(lines) => assert_eq!(lines, vec!["a", "b"]),
        Step::Run(command) => panic!("not done, but a command: {}", command.program),
        Step::Failed(e) => panic!("not done, but a failure: {:?}", e),
    }
    let (phase, step) = advance_plain(Phase::Distribution, output("ID=arch\n"));
    assert_eq!(phase, Phase::Finished);
    assert_eq!(failed(step), RemoteLogError::UnsupportedDistro);
    let (phase, step) = advance_plain(Phase::Retrieval, RemoteEvent::Failed);
    assert_eq!(phase, Phase::Finished);
    assert_eq!(failed(step), RemoteLogError::Connection);
}

#[test]
fn advancing_with_a_password_is_advancing_the_source() {
    let password = Some(PASSWORD.to_string());
    let (phase, step) =
        advance_with(&password, Phase::Sudo(LogFamily::Debian, false), RemoteEvent::Status(false));
    assert_eq!(phase, Phase::Retrieval);
    assert_command(
        &run(step),
        "sudo",
        &["-S", "cat", "/var/log/auth.log"],
        Some(PASSWORD),
        true,
        Wanted::Output,
    );
    let (phase, step) =
        advance_with(&None, Phase::Sudo(LogFamily::Debian, false), RemoteEvent::Status(true));
    assert_eq!(phase, Phase::Retrieval);
    assert_command(
        &run(step),
        "sudo",
        &["-S", "cat", "/var/log/auth.log"],
        None,
        false,
        Wanted::Output,
    );
}

#[test]
fn remote_errors_say_what_went_wrong() {
    assert_eq!(
        RemoteLogError::LogNotReadable.message(),
        "Log file is not readable by user and sudo is not available"
    );
    assert_eq!(RemoteLogError::UnsupportedDistro.message(), "Unsupported distribution");
    assert_eq!(RemoteLogError::SudoStdin.message(), "Failed to open stdin for sudo");
    assert_eq!(
        RemoteLogError::Connection.message(),
        "Could not reach the host or run a command on it"
    );
    assert_eq!(
        RemoteLogError::Decode.message(),
        "The host answered with bytes that are not UTF-8 text"
    );
}
