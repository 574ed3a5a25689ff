//! Where the lines of a log come from, and the steps by which they are had from a
//! remote host.

use crate::remote::{
    check_family, family_in, output_lines, parse_output, LogFamily, RemoteLogError,
};
use crate::text::texts;
use std::path::PathBuf;
use vstd::prelude::*;

verus! {

/// `std::path::PathBuf`, carried through as it is given.
#[verifier::external_type_specification]
#[verifier::external_body]
pub struct ExPathBuf(PathBuf);

/// A log on this machine.
pub struct LocalSource {
    pub path: PathBuf,
}

/// The log of another host, and the password for `sudo` on it, if there is one.
pub struct RemoteSource {
    pub host: String,
    pub password: Option<String>,
}

/// The source of the lines.
pub enum SourceReader {
    Local(LocalSource),
    Remote(RemoteSource),
}

/// What the name of a source stands for.
#[derive(Debug)]
pub enum Source {
    File(String),
    Remote(String),
}

impl LocalSource {
    /// The log at `path`.
    pub fn new(path: PathBuf) -> (source: Self)
        ensures
            source.path == path,
    {
        Self { path }
    }
}

impl RemoteSource {
    /// The log of `host`, with the password for `sudo` on it, if there is one.
    pub fn new(host: String, password: Option<String>) -> (source: Self)
        ensures
            source.host == host,
            source.password == password,
    {
        Self { host, password }
    }
}

/// Takes the name of a source for a file of this machine where it names one, and for a
/// host otherwise.
pub fn determine_source(source: String, is_file: bool) -> (r: Source)
    ensures
        is_file ==> r == Source::File(source),
        !is_file ==> r == Source::Remote(source),
{
    if is_file {
        Source::File(source)
    } else {
        Source::Remote(source)
    }
}

/// What is wanted of a command that is run on the host.
#[derive(Debug, Clone, Copy, PartialEq, Eq, Structural)]
pub enum Wanted {
    /// What it writes to its standard output.
    Output,
    /// Whether it succeeds.
    Status,
}

/// A command to run on the host. It cannot be printed, so that no password comes to
/// stand in a log.
pub struct RemoteCommand {
    pub program: String,
    pub args: Vec<String>,
    /// What to write to the standard input of the command, which is closed right after;
    /// with `None` the command is given no input.
    pub input: Option<String>,
    /// Whether what the command writes to its standard error is thrown away.
    pub discard_errors: bool,
    pub wanted: Wanted,
}

/// A command, as mathematical values.
pub struct RemoteCommandView {
    pub program: Seq<char>,
    pub args: Seq<Seq<char>>,
    pub input: Option<Seq<char>>,
    pub discard_errors: bool,
    pub wanted: Wanted,
}

impl View for RemoteCommand {
    type V = RemoteCommandView;

    open spec fn view(&self) -> RemoteCommandView {
        RemoteCommandView {
            program: self.program@,
            args: texts(self.args@),
            input: text_of(self.input),
            discard_errors: self.discard_errors,
            wanted: self.wanted,
        }
    }
}

/// What the host, or the connection to it, answered.
#[derive(Debug)]
pub enum RemoteEvent {
    /// The session with the host is open.
    Connected,
    /// The command ran, and wrote these bytes to its standard output.
    Output(Vec<u8>),
    /// The command ran, and succeeded or did not.
    Status(bool),
    /// What was to be written to the standard input of the command could not be: the
    /// input was not open, or the writing failed.
    InputFailed,
    /// The session could not be opened, or the command could not be run.
    Failed,
}

/// An answer, as mathematical values.
pub enum RemoteEventView {
    Connected,
    Output(Seq<u8>),
    Status(bool),
    InputFailed,
    Failed,
}

impl View for RemoteEvent {
    type V = RemoteEventView;

    open spec fn view(&self) -> RemoteEventView {
        match self {
            RemoteEvent::Connected => RemoteEventView::Connected,
            RemoteEvent::Output(bytes) => RemoteEventView::Output(bytes@),
            RemoteEvent::Status(success) => RemoteEventView::Status(*success),
            RemoteEvent::InputFailed => RemoteEventView::InputFailed,
            RemoteEvent::Failed => RemoteEventView::Failed,
        }
    }
}

/// How far the reading of a remote log has come: what was asked last, with what is
/// known from the answers so far.
#[derive(Debug, Clone, Copy, PartialEq, Eq, Structural)]
pub enum Phase {
    /// The session is being opened.
    Connecting,
    /// The host was asked for `/etc/os-release`.
    Distribution,
    /// The host was asked whether the user may read the log.
    Readable(LogFamily),
    /// The host was asked whether `sudo` runs without a password; the user may read the
    /// log or may not.
    Sudo(LogFamily, bool),
    /// The host was asked for the log.
    Retrieval,
    /// The lines were handed out, or the reading failed.
    Finished,
}

/// What to do next.
pub enum Step {
    /// Run the command on the host, and come back with its answer.
    Run(RemoteCommand),
    /// The lines of the log.
    Done(Vec<String>),
    /// The log cannot be had.
    Failed(RemoteLogError),
}

/// A step, as mathematical values.
pub enum StepView {
    Run(RemoteCommandView),
    Done(Seq<Seq<char>>),
    Failed(RemoteLogError),
}

impl View for Step {
    type V = StepView;

    open spec fn view(&self) -> StepView {
        match self {
            Step::Run(command) => StepView::Run(command@),
            Step::Done(lines) => StepView::Done(texts(lines@)),
            Step::Failed(e) => StepView::Failed(*e),
        }
    }
}

/// How the log is read.
#[derive(Debug, Clone, Copy, PartialEq, Eq, Structural)]
pub enum Retrieval {
    /// As the user who is connected.
    Direct,
    /// Through `sudo`, which asks for no password.
    Sudo,
    /// Through `sudo`, which is handed the password on its standard input.
    SudoWithPassword,
}

/// The text of a string that may be absent.
pub open spec fn text_of(s: Option<String>) -> Option<Seq<char>> {
    match s {
        Some(s) => Some(s@),
        None => None,
    }
}

/// How the log is read: directly where the user may read it; else through `sudo`, with
/// the password only where `sudo` asks for one; and not at all where it asks for one
/// and none was given.
pub open spec fn retrieval_plan(readable: bool, passwordless: bool, has_password: bool) -> Option<
    Retrieval,
> {
    if readable {
        Some(Retrieval::Direct)
    } else if passwordless {
        Some(Retrieval::Sudo)
    } else if has_password {
        Some(Retrieval::SudoWithPassword)
    } else {
        None
    }
}

/// The command that shows which distribution the host runs.
pub open spec fn distribution_command() -> RemoteCommandView {
    RemoteCommandView {
        program: "cat"@,
        args: seq!["/etc/os-release"@],
        input: None,
        discard_errors: true,
        wanted: Wanted::Output,
    }
}

/// The command that tests whether the user may read the log.
pub open spec fn readable_command(family: LogFamily) -> RemoteCommandView {
    RemoteCommandView {
        program: "test"@,
        args: seq!["-r"@, family.spec_log_path()],
        input: None,
        discard_errors: true,
        wanted: Wanted::Status,
    }
}

/// The command that tests whether `sudo` runs without asking for a password.
pub open spec fn sudo_command() -> RemoteCommandView {
    RemoteCommandView {
        program: "sudo"@,
        args: seq!["-n"@, "true"@],
        input: None,
        discard_errors: true,
        wanted: Wanted::Status,
    }
}

/// The command that reads the log. The password stands in no argument: `sudo` reads it
/// from its standard input.
pub open spec fn retrieval_command(
    plan: Retrieval,
    family: LogFamily,
    password: Option<Seq<char>>,
) -> RemoteCommandView {
    match plan {
        Retrieval::Direct => RemoteCommandView {
            program: "cat"@,
            args: seq![family.spec_log_path()],
            input: None,
            discard_errors: false,
            wanted: Wanted::Output,
        },
        Retrieval::Sudo => RemoteCommandView {
            program: "sudo"@,
            args: seq!["-S"@, "cat"@, family.spec_log_path()],
            input: None,
            discard_errors: false,
            wanted: Wanted::Output,
        },
        Retrieval::SudoWithPassword => RemoteCommandView {
            program: "sudo"@,
            args: seq!["-S"@, "cat"@, family.spec_log_path()],
            input: password,
            discard_errors: true,
            wanted: Wanted::Output,
        },
    }
}

/// The phase that follows `phase` on `event`, and what to do then, when the password
/// for `sudo` is `password`. An answer to another question than the one asked counts
/// as a failed command.
pub open spec fn next_step(password: Option<Seq<char>>, phase: Phase, event: RemoteEventView) -> (
    Phase,
    StepView,
) {
    match (phase, event) {
        (Phase::Connecting, RemoteEventView::Connected) => (
            Phase::Distribution,
            StepView::Run(distribution_command()),
        ),
        (Phase::Distribution, RemoteEventView::Output(output)) => match family_in(output) {
            Ok(family) => (Phase::Readable(family), StepView::Run(readable_command(family))),
            Err(e) => (Phase::Finished, StepView::Failed(e)),
        },
        (Phase::Readable(family), RemoteEventView::Status(readable)) => (
            Phase::Sudo(family, readable),
            StepView::Run(sudo_command()),
        ),
        (Phase::Sudo(family, readable), RemoteEventView::Status(passwordless)) => {
            match retrieval_plan(readable, passwordless, password is Some) {
                Some(plan) => (
                    Phase::Retrieval,
                    StepView::Run(retrieval_command(plan, family, password)),
                ),
                None => (Phase::Finished, StepView::Failed(RemoteLogError::LogNotReadable)),
            }
        },
        (Phase::Retrieval, RemoteEventView::Output(output)) => match output_lines(output) {
            Ok(lines) => (Phase::Finished, StepView::Done(lines)),
            Err(e) => (Phase::Finished, StepView::Failed(e)),
        },
        (Phase::Retrieval, RemoteEventView::InputFailed) => (
            Phase::Finished,
            StepView::Failed(RemoteLogError::SudoStdin),
        ),
        _ => (Phase::Finished, StepView::Failed(RemoteLogError::Connection)),
    }
}

/// The command that reads the log through a `sudo` that was found to ask for no
/// password, when no password is at hand at all: `sudo` is told of no input to read.
pub open spec fn plain_sudo_command(family: LogFamily) -> RemoteCommandView {
    RemoteCommandView {
        program: "sudo"@,
        args: seq!["cat"@, family.spec_log_path()],
        input: None,
        discard_errors: false,
        wanted: Wanted::Output,
    }
}

/// The phase that follows `phase` on `event`, and what to do then, when the log is read
/// with no thought of a password: as without a password, but that a log which only
/// `sudo` may read is read with `sudo cat`.
pub open spec fn next_step_plain(phase: Phase, event: RemoteEventView) -> (Phase, StepView) {
    match (phase, event) {
        (Phase::Sudo(family, false), RemoteEventView::Status(true)) => (
            Phase::Retrieval,
            StepView::Run(plain_sudo_command(family)),
        ),
        _ => next_step(None, phase, event),
    }
}

/// How the log is read, or why it cannot be.
pub fn plan_retrieval(readable: bool, passwordless: bool, has_password: bool) -> (r: Result<
    Retrieval,
    RemoteLogError,
>)
    ensures
        match r {
            Ok(plan) => retrieval_plan(readable, passwordless, has_password) == Some(plan),
            Err(e) => retrieval_plan(readable, passwordless, has_password) is None && e
                == RemoteLogError::LogNotReadable,
        },
{
    if readable {
        Ok(Retrieval::Direct)
    } else if passwordless {
        Ok(Retrieval::Sudo)
    } else if has_password {
        Ok(Retrieval::SudoWithPassword)
    } else {
        Err(RemoteLogError::LogNotReadable)
    }
}

/// The command that shows which distribution the host runs.
pub fn make_distribution_command() -> (command: RemoteCommand)
    ensures
        command@ == distribution_command(),
{
    let mut args: Vec<String> = Vec::new();
    args.push("/etc/os-release".to_owned());
    assert(texts(args@) =~= seq!["/etc/os-release"@]);
    RemoteCommand {
        program: "cat".to_owned(),
        args,
        input: None,
        discard_errors: true,
        wanted: Wanted::Output,
    }
}

/// The command that tests whether the user may read the log.
pub fn make_readable_command(family: LogFamily) -> (command: RemoteCommand)
    ensures
        command@ == readable_command(family),
{
    let mut args: Vec<String> = Vec::new();
    args.push("-r".to_owned());
    args.push(family.log_path());
    assert(texts(args@) =~= seq!["-r"@, family.spec_log_path()]);
    RemoteCommand {
        program: "test".to_owned(),
        args,
        input: None,
        discard_errors: true,
        wanted: Wanted::Status,
    }
}

/// The command that tests whether `sudo` runs without asking for a password.
pub fn make_sudo_command() -> (command: RemoteCommand)
    ensures
        command@ == sudo_command(),
{
    let mut args: Vec<String> = Vec::new();
    args.push("-n".to_owned());
    args.push("true".to_owned());
    assert(texts(args@) =~= seq!["-n"@, "true"@]);
    RemoteCommand {
        program: "sudo".to_owned(),
        args,
        input: None,
        discard_errors: true,
        wanted: Wanted::Status,
    }
}

/// The command that reads the log.
pub fn make_retrieval_command(plan: Retrieval, family: LogFamily, password: &Option<String>) -> (command:
    RemoteCommand)
    ensures
        command@ == retrieval_command(plan, family, text_of(*password)),
{
    let mut args: Vec<String> = Vec::new();
    match plan {
        Retrieval::Direct => {
            args.push(family.log_path());
            assert(texts(args@) =~= seq![family.spec_log_path()]);
            RemoteCommand {
                program: "cat".to_owned(),
                args,
                input: None,
                discard_errors: false,
                wanted: Wanted::Output,
            }
        },
        Retrieval::Sudo => {
            args.push("-S".to_owned());
            args.push("cat".to_owned());
            args.push(family.log_path());
            assert(texts(args@) =~= seq!["-S"@, "cat"@, family.spec_log_path()]);
            RemoteCommand {
                program: "sudo".to_owned(),
                args,
                input: None,
                discard_errors: false,
                wanted: Wanted::Output,
            }
        },
        Retrieval::SudoWithPassword => {
            args.push("-S".to_owned());
            args.push("cat".to_owned());
            args.push(family.log_path());
            assert(texts(args@) =~= seq!["-S"@, "cat"@, family.spec_log_path()]);
            RemoteCommand {
                program: "sudo".to_owned(),
                args,
                input: password.clone(),
                discard_errors: true,
                wanted: Wanted::Output,
            }
        },
    }
}

/// The command that reads the log through `sudo`, which is told of no input to read.
pub fn make_plain_sudo_command(family: LogFamily) -> (command: RemoteCommand)
    ensures
        command@ == plain_sudo_command(family),
{
    let mut args: Vec<String> = Vec::new();
    args.push("cat".to_owned());
    args.push(family.log_path());
    assert(texts(args@) =~= seq!["cat"@, family.spec_log_path()]);
    RemoteCommand {
        program: "sudo".to_owned(),
        args,
        input: None,
        discard_errors: false,
        wanted: Wanted::Output,
    }
}

/// Takes the answer to what was asked in `phase`, and says what to do next, when the
/// password for `sudo` is `password`.
pub fn advance_with(password: &Option<String>, phase: Phase, event: RemoteEvent) -> (r: (
    Phase,
    Step,
))
    ensures
        (r.0, r.1@) == next_step(text_of(*password), phase, event@),
{
    match (phase, event) {
        (Phase::Connecting, RemoteEvent::Connected) => (
            Phase::Distribution,
            Step::Run(make_distribution_command()),
        ),
        (Phase::Distribution, RemoteEvent::Output(output)) => match check_family(output) {
            Ok(family) => (Phase::Readable(family), Step::Run(make_readable_command(family))),
            Err(e) => (Phase::Finished, Step::Failed(e)),
        },
        (Phase::Readable(family), RemoteEvent::Status(readable)) => (
            Phase::Sudo(family, readable),
            Step::Run(make_sudo_command()),
        ),
        (Phase::Sudo(family, readable), RemoteEvent::Status(passwordless)) => {
            match plan_retrieval(readable, passwordless, password.is_some()) {
                Ok(plan) => (
                    Phase::Retrieval,
                    Step::Run(make_retrieval_command(plan, family, password)),
                ),
                Err(e) => (Phase::Finished, Step::Failed(e)),
            }
        },
        (Phase::Retrieval, RemoteEvent::Output(output)) => match parse_output(output) {
            Ok(lines) => (Phase::Finished, Step::Done(lines)),
            Err(e) => (Phase::Finished, Step::Failed(e)),
        },
        (Phase::Retrieval, RemoteEvent::InputFailed) => (
            Phase::Finished,
            Step::Failed(RemoteLogError::SudoStdin),
        ),
        _ => (Phase::Finished, Step::Failed(RemoteLogError::Connection)),
    }
}

/// Takes the answer to what was asked in `phase`, and says what to do next, when the
/// log is read with no thought of a password.
pub fn advance_plain(phase: Phase, event: RemoteEvent) -> (r: (Phase, Step))
    ensures
        (r.0, r.1@) == next_step_plain(phase, event@),
{
    match (phase, event) {
        (Phase::Sudo(family, false), RemoteEvent::Status(true)) => (
            Phase::Retrieval,
            Step::Run(make_plain_sudo_command(family)),
        ),
        (phase, event) => advance_with(&None, phase, event),
    }
}

impl RemoteSource {
    /// Whether `sudo` can be used on the host: it asks for no password, or there is one
    /// to give it.
    pub fn check_sudo_available(&self, passwordless: bool) -> (available: bool)
        ensures
            available == (passwordless || self.password is Some),
    {
        passwordless || self.password.is_some()
    }

    /// The phase in which the reading of the log starts: nothing was asked yet, and the
    /// session is to be opened.
    pub fn start(&self) -> (phase: Phase)
        ensures
            phase == Phase::Connecting,
    {
        Phase::Connecting
    }

    /// Takes the answer to what was asked in `phase`, and says what to do next.
    pub fn advance(&self, phase: Phase, event: RemoteEvent) -> (r: (Phase, Step))
        ensures
            (r.0, r.1@) == next_step(text_of(self.password), phase, event@),
    {
        advance_with(&self.password, phase, event)
    }
}

/// How many answers a phase has behind it.
pub open spec fn phase_rank(phase: Phase) -> int {
    match phase {
        Phase::Connecting => 0,
        Phase::Distribution => 1,
        Phase::Readable(_) => 2,
        Phase::Sudo(_, _) => 3,
        Phase::Retrieval => 4,
        Phase::Finished => 5,
    }
}

/// The password shapes no command but through its standard input: whatever the
/// password is, the same phase follows, the same program is run with the same arguments,
/// and what a command is given as input is the password itself. It is given only to the
/// `sudo` that reads the log, and only after `sudo` was found to ask for one.
pub proof fn lemma_password_reaches_input_only(
    password: Seq<char>,
    other: Seq<char>,
    phase: Phase,
    event: RemoteEventView,
)
    ensures
        next_step(Some(password), phase, event).0 == next_step(Some(other), phase, event).0,
        match next_step(Some(password), phase, event).1 {
            StepView::Run(command) => {
                &&& next_step(Some(other), phase, event).1 matches StepView::Run(same)
                &&& same.program == command.program
                &&& same.args == command.args
                &&& command.input is Some ==> {
                    &&& command.input == Some(password)
                    &&& same.input == Some(other)
                    &&& phase matches Phase::Sudo(_, false)
                    &&& event == RemoteEventView::Status(false)
                }
            },
            step => next_step(Some(other), phase, event).1 == step,
        },
        next_step(None, phase, event).1 matches StepView::Run(command) ==> command.input is None,
{
}

/// Every answer brings the reading one phase on, or ends it: it ends after five
/// commands at most, with the lines or with an error, and a phase that is left is not
/// come back to.
pub proof fn lemma_reading_advances(password: Option<Seq<char>>, phase: Phase, event: RemoteEventView)
    ensures
        ({
            let (next, step) = next_step(password, phase, event);
            &&& step is Run <==> next != Phase::Finished
            &&& step is Run ==> phase_rank(next) == phase_rank(phase) + 1
        }),
{
}

/// Read with no thought of a password, the log is had by the same steps as without a
/// password, but for the one command: no command is given any input, a readable log is
/// read with `cat`, one that only a `sudo` without password may read with `sudo cat`,
/// and one that neither may read is not read at all.
pub proof fn lemma_plain_reading(phase: Phase, event: RemoteEventView)
    ensures
        ({
            let (next, step) = next_step_plain(phase, event);
            &&& step matches StepView::Run(command) ==> command.input is None
            &&& step is Run <==> next != Phase::Finished
            &&& step is Run ==> phase_rank(next) == phase_rank(phase) + 1
            &&& !(phase matches Phase::Sudo(_, false) && event == RemoteEventView::Status(true))
                ==> (next, step) == next_step(None, phase, event)
        }),
        forall|family: LogFamily, passwordless: bool|
            next_step_plain(
                Phase::Sudo(family, true),
                RemoteEventView::Status(passwordless),
            ).1 == StepView::Run(retrieval_command(Retrieval::Direct, family, None)),
        forall|family: LogFamily|
            next_step_plain(Phase::Sudo(family, false), RemoteEventView::Status(true)).1
                == StepView::Run(plain_sudo_command(family)),
        forall|family: LogFamily|
            next_step_plain(Phase::Sudo(family, false), RemoteEventView::Status(false))
                == (Phase::Finished, StepView::Failed(RemoteLogError::LogNotReadable)),
{
}

} // verus!
