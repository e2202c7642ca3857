//! Commands: their kinds, and how the first argument of a line names one.
use vstd::prelude::*;
use crate::command::handlers::{
    child_result_of, echo_action, cd_target, handle_cd, handle_echo, handle_type, spawn_action,
    spawn_request, type_action, Action, ActionView, ChildReport, ChildReportView,
};
use crate::text::{same_text, texts, trim, trimmed};
use crate::util::{RushError, RushErrorView};

pub mod handlers;
pub mod path;

verus! {

/// What a line asks for.
#[derive(Clone, Debug, PartialEq, Eq)]
pub enum CommandType {
    Cd,
    Echo,
    Executable { path: String, name: String },
    Exit,
    Pwd,
    Type,
    Unknown(String),
}

/// A command kind as contracts see it: its strings as texts.
pub enum CommandTypeView {
    Cd,
    Echo,
    Executable { path: Seq<char>, name: Seq<char> },
    Exit,
    Pwd,
    Type,
    Unknown(Seq<char>),
}

impl View for CommandType {
    type V = CommandTypeView;

    open spec fn view(&self) -> CommandTypeView {
        match *self {
            CommandType::Cd => CommandTypeView::Cd,
            CommandType::Echo => CommandTypeView::Echo,
            CommandType::Executable { path, name } => CommandTypeView::Executable {
                path: path@,
                name: name@,
            },
            CommandType::Exit => CommandTypeView::Exit,
            CommandType::Pwd => CommandTypeView::Pwd,
            CommandType::Type => CommandTypeView::Type,
            CommandType::Unknown(name) => CommandTypeView::Unknown(name@),
        }
    }
}

impl CommandTypeView {
    /// The name a kind is shown under: a builtin's own name, an executable's
    /// name as typed, or the name that could not be resolved.
    pub open spec fn label(self) -> Seq<char> {
        match self {
            CommandTypeView::Cd => "cd"@,
            CommandTypeView::Echo => "echo"@,
            CommandTypeView::Executable { path, name } => name,
            CommandTypeView::Exit => "exit"@,
            CommandTypeView::Pwd => "pwd"@,
            CommandTypeView::Type => "type"@,
            CommandTypeView::Unknown(name) => name,
        }
    }

    /// Whether the kind is one of the five builtins.
    pub open spec fn is_builtin(self) -> bool {
        self is Cd || self is Echo || self is Exit || self is Pwd || self is Type
    }
}

/// The kind that a name stands for by itself: one of the five builtins on
/// an exact match, and otherwise a name still to be resolved.
pub open spec fn kind_of(name: Seq<char>) -> CommandTypeView {
    if name == "cd"@ {
        CommandTypeView::Cd
    } else if name == "exit"@ {
        CommandTypeView::Exit
    } else if name == "echo"@ {
        CommandTypeView::Echo
    } else if name == "pwd"@ {
        CommandTypeView::Pwd
    } else if name == "type"@ {
        CommandTypeView::Type
    } else {
        CommandTypeView::Unknown(name)
    }
}

impl CommandType {
    /// Classifies a name by itself, after trimming white space from its two
    /// ends.
    pub fn from_str(s: &str) -> (kind: CommandType)
        ensures
            kind@ == kind_of(trimmed(s@)),
    {
        let name = trim(s);
        if same_text(name.as_str(), "cd") {
            CommandType::Cd
        } else if same_text(name.as_str(), "exit") {
            CommandType::Exit
        } else if same_text(name.as_str(), "echo") {
            CommandType::Echo
        } else if same_text(name.as_str(), "pwd") {
            CommandType::Pwd
        } else if same_text(name.as_str(), "type") {
            CommandType::Type
        } else {
            CommandType::Unknown(name)
        }
    }

    /// The name the kind is shown under.
    pub fn to_string(&self) -> (s: String)
        ensures
            s@ == self@.label(),
    {
        match self {
            CommandType::Cd => "cd".to_owned(),
            CommandType::Echo => "echo".to_owned(),
            CommandType::Executable { path: _, name } => name.clone(),
            CommandType::Exit => "exit".to_owned(),
            CommandType::Pwd => "pwd".to_owned(),
            CommandType::Type => "type".to_owned(),
            CommandType::Unknown(name) => name.clone(),
        }
    }
}

/// A command ready to run: its kind, and the arguments of its line, of
/// which the first is the name as typed.
#[derive(Debug)]
pub struct Command {
    pub type_: CommandType,
    pub args: Vec<String>,
}

/// A command as contracts see it.
pub struct CommandView {
    pub type_: CommandTypeView,
    pub args: Seq<Seq<char>>,
}

impl View for Command {
    type V = CommandView;

    open spec fn view(&self) -> CommandView {
        CommandView { type_: self.type_@, args: texts(self.args@) }
    }
}

/// The name that has to be looked up on the search path before a line
/// with these arguments can be classified: the first argument, trimmed,
/// where there is one and it names no builtin.
pub open spec fn name_to_resolve(args: Seq<Seq<char>>) -> Option<Seq<char>> {
    if args.len() > 0 && !kind_of(trimmed(args[0])).is_builtin() {
        Some(trimmed(args[0]))
    } else {
        None
    }
}

/// The command that a line with these arguments asks for, `found` being
/// what the search path holds for `name_to_resolve(args)`. A line without
/// arguments asks for nothing, a builtin is itself, and any other name is
/// the program found for it or an error.
pub open spec fn classified(args: Seq<Seq<char>>, found: Option<Seq<char>>) -> Result<
    CommandView,
    RushErrorView,
> {
    if args.len() == 0 {
        Err(RushErrorView::Nop)
    } else {
        let name = trimmed(args[0]);
        if kind_of(name).is_builtin() {
            Ok(CommandView { type_: kind_of(name), args })
        } else {
            match found {
                Some(path) => Ok(
                    CommandView { type_: CommandTypeView::Executable { path, name }, args },
                ),
                None => Err(RushErrorView::CommandNotFound(name)),
            }
        }
    }
}

/// What running a command asks the caller to do.
pub open spec fn dispatched(command: CommandView) -> Result<ActionView, RushErrorView> {
    match command.type_ {
        CommandTypeView::Cd => Ok(ActionView::ChangeDir(cd_target(command.args))),
        CommandTypeView::Echo => Ok(echo_action(command.args)),
        CommandTypeView::Executable { path, name } => Ok(spawn_action(path, name, command.args)),
        CommandTypeView::Exit => Ok(ActionView::Nothing),
        CommandTypeView::Pwd => Ok(ActionView::WorkingDir),
        CommandTypeView::Type => type_action(command.args),
        CommandTypeView::Unknown(name) => Err(RushErrorView::CommandNotFound(name)),
    }
}

/// A command that was classified has its line's arguments, at least one,
/// and a kind that can run: a builtin or a program that was found, never
/// an unresolved name.
pub proof fn law_classified_can_run(args: Seq<Seq<char>>, found: Option<Seq<char>>)
    ensures
        classified(args, found) matches Ok(command) ==> command.args == args && args.len() > 0
            && (command.type_.is_builtin() || command.type_ is Executable),
        classified(args, found) is Ok <==> args.len() > 0 && (name_to_resolve(args) is None
            || found is Some),
{
}

/// A name that the search path resolves runs as the program found for
/// it, under its name and with the arguments that follow the name; and
/// the exit code comes back as it was: 0 is success with code 0, any other
/// code is an error that carries that very code.
pub proof fn law_resolved_program_round_trip(args: Seq<Seq<char>>, path: Seq<char>, code: i32)
    requires
        name_to_resolve(args) is Some,
    ensures
        ({
            let name = name_to_resolve(args)->0;
            let report = ChildReportView::Finished { stdout: None, stderr: None, code: Some(code) };
            &&& classified(args, Some(path)) matches Ok(command) && command.type_
                == (CommandTypeView::Executable { path, name }) && dispatched(command) == Ok::<
                ActionView,
                RushErrorView,
            >(ActionView::Spawn { path, name, args: args.skip(1) })
            &&& code == 0 ==> child_result_of(path, name, report) == Ok::<
                Option<i32>,
                RushErrorView,
            >(Some(0i32))
            &&& code != 0 ==> (child_result_of(path, name, report) matches Err(e) && e
                matches RushErrorView::CommandError { status, .. } && status == Some(code))
        }),
{
}

impl Command {
    /// Whether the command has the name it was typed under.
    pub open spec fn well_formed(&self) -> bool {
        self.args@.len() > 0
    }

    /// The name to look up on the search path before `new` can classify a
    /// line with these arguments, if there is one.
    pub fn lookup_name(args: &Vec<String>) -> (name: Option<String>)
        ensures
            match name_to_resolve(texts(args@)) {
                Some(text) => name matches Some(n) && n@ == text,
                None => name is None,
            },
    {
        if args.len() == 0 {
            return None;
        }
        match CommandType::from_str(args[0].as_str()) {
            CommandType::Unknown(name) => Some(name),
            _ => None,
        }
    }

    /// Classifies a line by its arguments. `found` is what the search path
    /// holds for the name that `lookup_name` gives for them; it is not
    /// looked at where that gives none.
    pub fn new(args: Vec<String>, found: Option<String>) -> (r: Result<Command, RushError>)
        ensures
            match classified(
                texts(args@),
                match found {
                    Some(path) => Some(path@),
                    None => None,
                },
            ) {
                Ok(command) => r matches Ok(c) && c@ == command && c.well_formed(),
                Err(e) => r matches Err(x) && x@ == e,
            },
    {
        if args.len() == 0 {
            return Err(RushError::Nop);
        }
        let type_ = CommandType::from_str(args[0].as_str());
        match type_ {
            CommandType::Unknown(cmd) => match found {
                Some(path) => Ok(
                    Command { type_: CommandType::Executable { path, name: cmd }, args },
                ),
                None => Err(RushError::CommandNotFound(cmd)),
            },
            _ => Ok(Command { type_, args }),
        }
    }

    /// Says what is to be done for the command, or why nothing can be.
    pub fn run(&self) -> (r: Result<Action, RushError>)
        requires
            self.well_formed(),
        ensures
            match dispatched(self@) {
                Ok(action) => r matches Ok(a) && a@ == action,
                Err(e) => r matches Err(x) && x@ == e,
            },
    {
        match &self.type_ {
            CommandType::Cd => Ok(handle_cd(&self.args)),
            CommandType::Echo => Ok(handle_echo(&self.args)),
            CommandType::Executable { path, name } => Ok(
                spawn_request(path.as_str(), name.as_str(), &self.args),
            ),
            CommandType::Exit => Ok(Action::Nothing),
            CommandType::Pwd => Ok(Action::WorkingDir),
            CommandType::Type => handle_type(&self.args),
            CommandType::Unknown(cmd_name) => match self.handle_unknown_cmd(cmd_name.as_str()) {
                Ok(_) => Ok(Action::Nothing),
                Err(e) => Err(e),
            },
        }
    }

    /// The result of running the command as the program `name` found at
    /// `path`, given the report on how that went.
    pub fn handle_executable(&self, path: &str, name: &str, report: ChildReport) -> (r: Result<
        Option<i32>,
        RushError,
    >)
        ensures
            match child_result_of(path@, name@, report@) {
                Ok(code) => r matches Ok(c) && c == code,
                Err(e) => r matches Err(x) && x@ == e,
            },
    {
        crate::command::handlers::handle_executable(path, name, report)
    }

    /// The result of running a name that was never resolved: always the
    /// error that the command was not found.
    pub fn handle_unknown_cmd(&self, cmd: &str) -> (r: Result<(), RushError>)
        ensures
            r matches Err(e) && e@ == RushErrorView::CommandNotFound(cmd@),
    {
        Err(RushError::CommandNotFound(cmd.to_owned()))
    }
}

} // verus!
