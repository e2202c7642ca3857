//! What each command does.
//!
//! A handler does not touch the world. It says what is to be done, as an
//! [`Action`], and the caller does it. Where the result of the command
//! depends on how that went, a second function takes the caller's report
//! and gives the result.
use vstd::prelude::*;
use crate::command::path::is_builtin;
use crate::command::{kind_of, CommandType, CommandTypeView};
use crate::text::{appended, decimal, decimal_string, join_from, joined, same_text, texts, trimmed};
use crate::util::{RushError, RushErrorView};

verus! {

/// A failure of the operating system: its text and, where it has one, its
/// error number.
#[derive(Clone, Debug)]
pub struct OsError {
    pub msg: String,
    pub code: Option<i32>,
}

/// An operating system failure as contracts see it.
pub struct OsErrorView {
    pub msg: Seq<char>,
    pub code: Option<i32>,
}

impl View for OsError {
    type V = OsErrorView;

    open spec fn view(&self) -> OsErrorView {
        OsErrorView { msg: self.msg@, code: self.code }
    }
}

/// Where `cd` goes.
#[derive(Clone, Debug, PartialEq, Eq)]
pub enum CdTarget {
    /// The user's home directory.
    Home,
    /// The directory at this path.
    Path(String),
}

/// A `cd` target as contracts see it.
pub enum CdTargetView {
    Home,
    Path(Seq<char>),
}

impl View for CdTarget {
    type V = CdTargetView;

    open spec fn view(&self) -> CdTargetView {
        match *self {
            CdTarget::Home => CdTargetView::Home,
            CdTarget::Path(path) => CdTargetView::Path(path@),
        }
    }
}

/// How changing the working directory went.
#[derive(Clone, Debug)]
pub enum CdOutcome {
    /// The working directory is the target.
    Done,
    /// The target was the home directory, and none could be found.
    HomeUnknown,
    /// The operating system refused.
    Failed(OsError),
}

/// The outcome of a change of directory as contracts see it.
pub enum CdOutcomeView {
    Done,
    HomeUnknown,
    Failed(OsErrorView),
}

impl View for CdOutcome {
    type V = CdOutcomeView;

    open spec fn view(&self) -> CdOutcomeView {
        match *self {
            CdOutcome::Done => CdOutcomeView::Done,
            CdOutcome::HomeUnknown => CdOutcomeView::HomeUnknown,
            CdOutcome::Failed(error) => CdOutcomeView::Failed(error@),
        }
    }
}

/// How running a program went.
#[derive(Clone, Debug)]
pub enum ChildReport {
    /// The program could not be started.
    SpawnFailed(OsError),
    /// The program was started, and waiting for its end failed.
    WaitFailed(OsError),
    /// The program ended and both relays were joined. Each relay reports
    /// its failure, if it had one; `code` is the exit code, absent where a
    /// signal ended the program.
    Finished { stdout: Option<OsError>, stderr: Option<OsError>, code: Option<i32> },
}

/// The report on a program as contracts see it.
pub enum ChildReportView {
    SpawnFailed(OsErrorView),
    WaitFailed(OsErrorView),
    Finished { stdout: Option<OsErrorView>, stderr: Option<OsErrorView>, code: Option<i32> },
}

/// An optional failure as contracts see it.
pub open spec fn failure_view(failure: Option<OsError>) -> Option<OsErrorView> {
    match failure {
        Some(error) => Some(error@),
        None => None,
    }
}

impl View for ChildReport {
    type V = ChildReportView;

    open spec fn view(&self) -> ChildReportView {
        match *self {
            ChildReport::SpawnFailed(error) => ChildReportView::SpawnFailed(error@),
            ChildReport::WaitFailed(error) => ChildReportView::WaitFailed(error@),
            ChildReport::Finished { stdout, stderr, code } => ChildReportView::Finished {
                stdout: failure_view(stdout),
                stderr: failure_view(stderr),
                code,
            },
        }
    }
}

/// What the caller is to do for a command.
#[derive(Clone, Debug, PartialEq, Eq)]
pub enum Action {
    /// Nothing.
    Nothing,
    /// Write this line to standard output.
    Print(String),
    /// Change the working directory, and report with a [`CdOutcome`].
    ChangeDir(CdTarget),
    /// Find the working directory, and hand it to [`handle_pwd`].
    WorkingDir,
    /// Look this name up on the search path, and hand the answer to
    /// [`type_result`].
    Locate(String),
    /// Run the program `name`, which was found at `path`, with these
    /// arguments, relay its two output streams, and hand the
    /// [`ChildReport`] to [`handle_executable`].
    Spawn { path: String, name: String, args: Vec<String> },
}

/// An action as contracts see it.
pub enum ActionView {
    Nothing,
    Print(Seq<char>),
    ChangeDir(CdTargetView),
    WorkingDir,
    Locate(Seq<char>),
    Spawn { path: Seq<char>, name: Seq<char>, args: Seq<Seq<char>> },
}

impl View for Action {
    type V = ActionView;

    open spec fn view(&self) -> ActionView {
        match *self {
            Action::Nothing => ActionView::Nothing,
            Action::Print(line) => ActionView::Print(line@),
            Action::ChangeDir(target) => ActionView::ChangeDir(target@),
            Action::WorkingDir => ActionView::WorkingDir,
            Action::Locate(name) => ActionView::Locate(name@),
            Action::Spawn { path, name, args } => ActionView::Spawn {
                path: path@,
                name: name@,
                args: texts(args@),
            },
        }
    }
}

/// What `echo` does: it prints its arguments with one space between
/// neighbours, and with no argument it prints nothing.
pub open spec fn echo_action(args: Seq<Seq<char>>) -> ActionView {
    if args.len() <= 1 {
        ActionView::Nothing
    } else {
        ActionView::Print(joined(args.skip(1), " "@))
    }
}

/// Where `cd` goes: to its first argument, and home where that is `~` or
/// missing.
pub open spec fn cd_target(args: Seq<Seq<char>>) -> CdTargetView {
    if args.len() >= 2 && args[1] != "~"@ {
        CdTargetView::Path(args[1])
    } else {
        CdTargetView::Home
    }
}

/// The result of `cd`, given how the change went.
pub open spec fn cd_result_of(target: CdTargetView, outcome: CdOutcomeView) -> Result<
    (),
    RushErrorView,
> {
    match outcome {
        CdOutcomeView::Done => Ok(()),
        CdOutcomeView::HomeUnknown => Err(
            RushErrorView::CommandError {
                type_: CommandTypeView::Cd,
                msg: "failed to locate home directory"@,
                status: Some(1i32),
            },
        ),
        CdOutcomeView::Failed(error) => Err(
            RushErrorView::CommandError {
                type_: CommandTypeView::Cd,
                msg: match target {
                    CdTargetView::Home => error.msg,
                    CdTargetView::Path(path) => path + ": No such file or directory"@,
                },
                status: error.code,
            },
        ),
    }
}

/// The result of `pwd`, given the working directory or why it is unknown:
/// the line to print.
pub open spec fn pwd_result_of(cwd: Result<Seq<char>, OsErrorView>) -> Result<
    Seq<char>,
    RushErrorView,
> {
    match cwd {
        Ok(dir) => Ok(dir),
        Err(error) => Err(
            RushErrorView::CommandError {
                type_: CommandTypeView::Pwd,
                msg: error.msg,
                status: error.code,
            },
        ),
    }
}

/// What `type` does. It needs an argument, and looks at the first only: a
/// builtin is reported at once, another name is looked up.
pub open spec fn type_action(args: Seq<Seq<char>>) -> Result<ActionView, RushErrorView> {
    if args.len() < 2 {
        Err(
            RushErrorView::CommandError {
                type_: CommandTypeView::Type,
                msg: "missing argument"@,
                status: Some(1i32),
            },
        )
    } else if kind_of(trimmed(args[1])).is_builtin() {
        Ok(ActionView::Print(args[1] + " is a shell builtin"@))
    } else {
        Ok(ActionView::Locate(args[1]))
    }
}

/// The result of `type` for a name that is no builtin, given what the
/// search path holds for it: the line to print.
pub open spec fn type_result_of(name: Seq<char>, found: Option<Seq<char>>) -> Result<
    Seq<char>,
    RushErrorView,
> {
    match found {
        Some(path) => Ok(name + " is "@ + path),
        None => Err(
            RushErrorView::CommandError {
                type_: CommandTypeView::Unknown(name),
                msg: "not found"@,
                status: Some(1i32),
            },
        ),
    }
}

/// How a program is run: under its name, with the arguments behind the
/// name on the line.
pub open spec fn spawn_action(
    path: Seq<char>,
    name: Seq<char>,
    args: Seq<Seq<char>>,
) -> ActionView {
    ActionView::Spawn { path, name, args: args.skip(1) }
}

/// The command error that passes an operating system failure on.
pub open spec fn os_failure(kind: CommandTypeView, error: OsErrorView) -> RushErrorView {
    RushErrorView::CommandError { type_: kind, msg: error.msg, status: error.code }
}

/// The result of running a program, given the report on it. A failure to
/// start, to wait or to relay is passed on, the relay of standard output
/// before that of standard error. Otherwise exit code 0 is success, any
/// other code is an error that carries it, and so is the end by a signal,
/// which carries no code.
pub open spec fn child_result_of(
    path: Seq<char>,
    name: Seq<char>,
    report: ChildReportView,
) -> Result<Option<i32>, RushErrorView> {
    let kind = CommandTypeView::Executable { path, name };
    match report {
        ChildReportView::SpawnFailed(error) => Err(os_failure(kind, error)),
        ChildReportView::WaitFailed(error) => Err(os_failure(kind, error)),
        ChildReportView::Finished { stdout: Some(error), stderr, code } => Err(
            os_failure(kind, error),
        ),
        ChildReportView::Finished { stdout: None, stderr: Some(error), code } => Err(
            os_failure(kind, error),
        ),
        ChildReportView::Finished { stdout: None, stderr: None, code: Some(n) } => if n == 0 {
            Ok(Some(0i32))
        } else {
            Err(
                RushErrorView::CommandError {
                    type_: kind,
                    msg: "process exited with code "@ + decimal(n as int),
                    status: Some(n),
                },
            )
        },
        ChildReportView::Finished { stdout: None, stderr: None, code: None } => Err(
            RushErrorView::CommandError {
                type_: kind,
                msg: "process terminated by signal"@,
                status: None,
            },
        ),
    }
}

/// `cd` without an argument does what `cd ~` does: both go home, and
/// both end the same way whatever comes of it.
pub proof fn law_cd_alone_is_cd_home(name: Seq<char>, outcome: CdOutcomeView)
    ensures
        cd_target(seq![name]) == CdTargetView::Home,
        cd_target(seq![name, "~"@]) == CdTargetView::Home,
        cd_result_of(cd_target(seq![name]), outcome) == cd_result_of(
            cd_target(seq![name, "~"@]),
            outcome,
        ),
{
}

/// Asking `type` about the name of a builtin always succeeds, and the
/// line it prints calls the name a shell builtin.
pub proof fn law_type_of_builtin(args: Seq<Seq<char>>)
    requires
        args.len() >= 2,
        kind_of(trimmed(args[1])).is_builtin(),
    ensures
        type_action(args) == Ok::<ActionView, RushErrorView>(
            ActionView::Print(args[1] + " is a shell builtin"@),
        ),
{
}

/// Asking `type` about a name that is nowhere always fails with a command
/// error, and the line that reports it holds the name and `not found`.
pub proof fn law_type_of_missing(name: Seq<char>)
    ensures
        type_result_of(name, None) matches Err(e) && e is CommandError && e.message() == name
            + ": "@ + "not found"@,
{
}

/// A relay that failed is never passed over: with one failure or two, the
/// result is a command error, whatever the exit code was.
pub proof fn law_relay_failure_surfaces(
    path: Seq<char>,
    name: Seq<char>,
    stdout: Option<OsErrorView>,
    stderr: Option<OsErrorView>,
    code: Option<i32>,
)
    requires
        stdout is Some || stderr is Some,
    ensures
        child_result_of(path, name, ChildReportView::Finished { stdout, stderr, code })
            matches Err(e) && e is CommandError,
{
}

/// What `echo` does with the arguments of its line, the name first.
pub fn handle_echo(args: &Vec<String>) -> (action: Action)
    requires
        args.len() >= 1,
    ensures
        action@ == echo_action(texts(args@)),
{
    if args.len() == 1 {
        return Action::Nothing;
    }
    let line = join_from(args, 1, " ");
    Action::Print(line)
}

/// Where `cd` goes, given the arguments of its line, the name first.
pub fn handle_cd(args: &Vec<String>) -> (action: Action)
    ensures
        action@ == ActionView::ChangeDir(cd_target(texts(args@))),
{
    if args.len() >= 2 {
        if !same_text(args[1].as_str(), "~") {
            return Action::ChangeDir(CdTarget::Path(args[1].clone()));
        }
    }
    Action::ChangeDir(CdTarget::Home)
}

/// The result of `cd`, given where it went and how that went.
pub fn cd_result(target: &CdTarget, outcome: CdOutcome) -> (r: Result<(), RushError>)
    ensures
        match cd_result_of(target@, outcome@) {
            Ok(_) => r is Ok,
            Err(e) => r matches Err(x) && x@ == e,
        },
{
    match outcome {
        CdOutcome::Done => Ok(()),
        CdOutcome::HomeUnknown => Err(
            RushError::CommandError {
                type_: CommandType::Cd,
                msg: "failed to locate home directory".to_owned(),
                status: Some(1),
            },
        ),
        CdOutcome::Failed(error) => {
            let msg = match target {
                CdTarget::Home => error.msg,
                CdTarget::Path(path) => appended(path.as_str(), ": No such file or directory"),
            };
            Err(RushError::CommandError { type_: CommandType::Cd, msg, status: error.code })
        },
    }
}

/// The result of `pwd`, given the working directory or the failure to
/// find it: the line to print.
pub fn handle_pwd(cwd: Result<String, OsError>) -> (r: Result<String, RushError>)
    ensures
        match pwd_result_of(
            match cwd {
                Ok(dir) => Ok(dir@),
                Err(error) => Err(error@),
            },
        ) {
            Ok(line) => r matches Ok(s) && s@ == line,
            Err(e) => r matches Err(x) && x@ == e,
        },
{
    match cwd {
        Ok(dir) => Ok(dir),
        Err(error) => Err(
            RushError::CommandError {
                type_: CommandType::Pwd,
                msg: error.msg,
                status: error.code,
            },
        ),
    }
}

/// What `type` does with the arguments of its line, the name first.
pub fn handle_type(args: &Vec<String>) -> (r: Result<Action, RushError>)
    ensures
        match type_action(texts(args@)) {
            Ok(action) => r matches Ok(a) && a@ == action,
            Err(e) => r matches Err(x) && x@ == e,
        },
{
    if args.len() < 2 {
        return Err(
            RushError::CommandError {
                type_: CommandType::Type,
                msg: "missing argument".to_owned(),
                status: Some(1),
            },
        );
    }
    let cmd_name = &args[1];
    if is_builtin(cmd_name.as_str()) {
        return Ok(Action::Print(appended(cmd_name.as_str(), " is a shell builtin")));
    }
    Ok(Action::Locate(cmd_name.clone()))
}

/// The result of `type` for a name that is no builtin, given the answer
/// of the search path: the line to print.
pub fn type_result(cmd_name: &str, found: Option<String>) -> (r: Result<String, RushError>)
    ensures
        match type_result_of(
            cmd_name@,
            match found {
                Some(path) => Some(path@),
                None => None,
            },
        ) {
            Ok(line) => r matches Ok(s) && s@ == line,
            Err(e) => r matches Err(x) && x@ == e,
        },
{
    match found {
        Some(path) => {
            let mut line = appended(cmd_name, " is ");
            line.append(path.as_str());
            Ok(line)
        },
        None => Err(
            RushError::CommandError {
                type_: CommandType::Unknown(cmd_name.to_owned()),
                msg: "not found".to_owned(),
                status: Some(1),
            },
        ),
    }
}

/// How the program `name`, found at `path`, is run for a line with these
/// arguments, the name first.
pub fn spawn_request(path: &str, name: &str, args: &Vec<String>) -> (action: Action)
    requires
        args.len() >= 1,
    ensures
        action@ == spawn_action(path@, name@, texts(args@)),
{
    let mut rest: Vec<String> = Vec::new();
    let mut i: usize = 1;
    while i < args.len()
        invariant
            1 <= i <= args.len(),
            rest.len() == i - 1,
            forall|k: int| 0 <= k < rest.len() ==> (#[trigger] rest@[k])@ == args@[k + 1]@,
        decreases args.len() - i,
    {
        rest.push(args[i].clone());
        i += 1;
    }
    assert(texts(rest@) =~= texts(args@).skip(1));
    Action::Spawn { path: path.to_owned(), name: name.to_owned(), args: rest }
}

/// The command error that passes an operating system failure on.
fn os_error(path: &str, name: &str, error: OsError) -> (e: RushError)
    ensures
        e@ == os_failure(CommandTypeView::Executable { path: path@, name: name@ }, error@),
{
    RushError::CommandError {
        type_: CommandType::Executable { path: path.to_owned(), name: name.to_owned() },
        msg: error.msg,
        status: error.code,
    }
}

/// The result of running the program `name`, found at `path`, given the
/// report on how that went.
pub fn handle_executable(path: &str, name: &str, report: ChildReport) -> (r: Result<
    Option<i32>,
    RushError,
>)
    ensures
        match child_result_of(path@, name@, report@) {
            Ok(code) => r matches Ok(c) && c == code,
            Err(e) => r matches Err(x) && x@ == e,
        },
{
    match report {
        ChildReport::SpawnFailed(error) => Err(os_error(path, name, error)),
        ChildReport::WaitFailed(error) => Err(os_error(path, name, error)),
        ChildReport::Finished { stdout, stderr, code } => {
            if let Some(error) = stdout {
                return Err(os_error(path, name, error));
            }
            if let Some(error) = stderr {
                return Err(os_error(path, name, error));
            }
            match code {
                Some(n) => {
                    if n == 0 {
                        return Ok(Some(0));
                    }
                    let mut msg = "process exited with code ".to_owned();
                    msg.append(decimal_string(n).as_str());
                    Err(
                        RushError::CommandError {
                            type_: CommandType::Executable {
                                path: path.to_owned(),
                                name: name.to_owned(),
                            },
                            msg,
                            status: Some(n),
                        },
                    )
                },
                None => Err(
                    RushError::CommandError {
                        type_: CommandType::Executable {
                            path: path.to_owned(),
                            name: name.to_owned(),
                        },
                        msg: "process terminated by signal".to_owned(),
                        status: None,
                    },
                ),
            }
        },
    }
}

} // verus!
