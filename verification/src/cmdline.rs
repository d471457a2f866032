//! The command line: what the program is asked to do.
//!
//! There is one flag, which asks for help and takes priority over anything
//! else. Any other argument is a usage error, reported argument by argument.

use pico_args::Arguments;
use vstd::prelude::*;
use vstd::string::*;

use crate::trusted::{finish, has_flag, pending, take_flag};

verus! {

/// The help text.
pub const HELP: &'static str =
    "Usage: hello [options]\n\nOptions:\n    -h, --help      Print this help information";

/// The short spelling of the help flag.
pub const HELP_SHORT: &'static str = "-h";

/// The long spelling of the help flag.
pub const HELP_LONG: &'static str = "--help";

/// What follows the program's name where an argument looks like an option.
pub const UNRECOGNIZED_OPTION: &'static str = ": error: unrecognized option: ";

/// What follows the program's name where an argument does not look like an
/// option.
pub const UNUSED_ARGUMENT: &'static str = ": error: unused argument: ";

/// What follows the program's name where an argument is not valid Unicode.
pub const UNUSED_PARAMETER: &'static str =
    ": error: unused/unrecognized command line parameter: ";

/// What follows the program's name once every argument has been reported.
pub const INVALID_ARGUMENTS: &'static str = ": error: invalid command line arguments.";

/// What follows the program's name in the last line of a usage report.
pub const TRY_HELP: &'static str = ": Try 'hello --help' for more information.";

/// What the program is asked to do.
#[derive(Clone, Copy, Debug, PartialEq, Eq, Structural)]
pub enum Task {
    /// The default: read lines and tokenize them.
    Shell,
    /// Print the help text.
    Help,
}

/// How the process ends.
#[derive(Clone, Copy, Debug, PartialEq, Eq, Structural)]
pub enum Exit {
    /// All went well.
    Success,
    /// The line editor could not be set up, or a line could not be read.
    Failure,
    /// The command line was not understood.
    Usage,
}

impl Exit {
    /// The exit status of the process.
    pub open spec fn spec_code(self) -> i32 {
        match self {
            Exit::Success => 0,
            Exit::Failure => 1,
            Exit::Usage => 2,
        }
    }

    /// The exit status of the process.
    #[verifier::when_used_as_spec(spec_code)]
    pub fn code(self) -> (code: i32)
        ensures
            code == self.spec_code(),
    {
        match self {
            Exit::Success => 0,
            Exit::Failure => 1,
            Exit::Usage => 2,
        }
    }
}

/// What an argument of the command line is.
pub enum Word {
    /// Valid Unicode: the text of the argument.
    Text(Seq<char>),
    /// Not valid Unicode: the escaped rendering of the argument.
    Raw(Seq<char>),
}

/// An argument of the command line.
#[derive(Debug, PartialEq, Eq)]
pub enum Argument {
    /// An argument that is valid Unicode: its text.
    Text(String),
    /// An argument that is not valid Unicode: its escaped rendering.
    Raw(String),
}

impl View for Argument {
    type V = Word;

    open spec fn view(&self) -> Word {
        match self {
            Argument::Text(text) => Word::Text(text@),
            Argument::Raw(shown) => Word::Raw(shown@),
        }
    }
}

/// The parsed command line.
#[derive(Debug, PartialEq, Eq)]
pub struct CmdLine {
    /// The name of the executable, without leading path or extension.
    pub prog: String,
    /// The task to perform.
    pub task: Task,
}

/// A command line that was not understood.
#[derive(Debug, PartialEq, Eq)]
pub struct UsageError {
    /// The lines to report, in order: one for each argument that is left
    /// over, then a summary, then a hint at the help flag.
    pub report: Vec<String>,
}

impl UsageError {
    /// How the process ends on a usage error.
    pub fn exit(&self) -> (exit: Exit)
        ensures
            exit == Exit::Usage,
    {
        Exit::Usage
    }
}

/// The line that reports one argument that is left over. An argument whose
/// first character is a hyphen is taken for an option.
pub open spec fn complaint_text(prog: Seq<char>, word: Word) -> Seq<char> {
    match word {
        Word::Text(text) => if text.len() > 0 && text[0] == '-' {
            prog + UNRECOGNIZED_OPTION@ + text
        } else {
            prog + UNUSED_ARGUMENT@ + text
        },
        Word::Raw(shown) => prog + UNUSED_PARAMETER@ + shown,
    }
}

/// The lines that report the arguments `words`, in order.
pub open spec fn complaints(prog: Seq<char>, words: Seq<Word>) -> Seq<Seq<char>> {
    words.map_values(|word: Word| complaint_text(prog, word))
}

/// The whole report of a usage error: a line for each argument that is left
/// over, a summary, and a hint at the help flag.
pub open spec fn usage_report(prog: Seq<char>, words: Seq<Word>) -> Seq<Seq<char>> {
    complaints(prog, words) + seq![prog + INVALID_ARGUMENTS@, prog + TRY_HELP@]
}

/// Whether the arguments ask for help.
pub open spec fn asks_help(words: Seq<Word>) -> bool {
    has_flag(words, HELP_SHORT@, HELP_LONG@)
}

/// Writes the line that reports one argument that is left over.
pub fn complaint(prog: &str, arg: &Argument) -> (line: String)
    ensures
        line@ == complaint_text(prog@, arg@),
{
    let mut line = prog.to_owned();
    match arg {
        Argument::Text(text) => {
            let text = text.as_str();
            if !text.is_empty() && text.get_char(0) == '-' {
                line.append(UNRECOGNIZED_OPTION);
            } else {
                line.append(UNUSED_ARGUMENT);
            }
            line.append(text);
        },
        Argument::Raw(shown) => {
            line.append(UNUSED_PARAMETER);
            line.append(shown.as_str());
        },
    }
    line
}

/// Writes the report of a usage error for the arguments that are left over.
pub fn report_usage(prog: &str, rest: &Vec<Argument>) -> (report: Vec<String>)
    ensures
        report@.map_values(|line: String| line@) == usage_report(
            prog@,
            rest@.map_values(|a: Argument| a@),
        ),
{
    let ghost words = rest@.map_values(|a: Argument| a@);
    let mut report: Vec<String> = Vec::new();
    let mut i: usize = 0;
    while i < rest.len()
        invariant
            i <= rest.len(),
            words == rest@.map_values(|a: Argument| a@),
            report@.len() == i,
            forall|j: int| 0 <= j < i ==> (#[trigger] report@[j])@ == complaint_text(prog@, words[j]),
        decreases rest.len() - i,
    {
        let line = complaint(prog, &rest[i]);
        report.push(line);
        i = i + 1;
    }
    let mut summary = prog.to_owned();
    summary.append(INVALID_ARGUMENTS);
    report.push(summary);
    let mut hint = prog.to_owned();
    hint.append(TRY_HELP);
    report.push(hint);
    report
}

impl CmdLine {
    /// Reads the command line from the arguments that the parser holds.
    ///
    /// The help flag takes priority: where it is among the arguments,
    /// nothing else is looked at. Else every argument is one too many: with
    /// none the task is the shell, and with any the command line is refused,
    /// with a report that names each of them.
    pub fn from_arguments(prog: String, args: Arguments) -> (parsed: Result<CmdLine, UsageError>)
        ensures
            match parsed {
                Ok(cmdline) => {
                    &&& cmdline.prog@ == prog@
                    &&& cmdline.task == if asks_help(pending(args)) {
                        Task::Help
                    } else {
                        Task::Shell
                    }
                    &&& asks_help(pending(args)) || pending(args).len() == 0
                },
                Err(error) => {
                    &&& !asks_help(pending(args))
                    &&& pending(args).len() > 0
                    &&& error.report@.map_values(|line: String| line@) == usage_report(
                        prog@,
                        pending(args),
                    )
                },
            },
    {
        let mut args = args;
        proof {
            reveal_strlit("-h");
            reveal_strlit("--help");
        }
        if take_flag(&mut args, HELP_SHORT, HELP_LONG) {
            return Ok(CmdLine { prog, task: Task::Help });
        }
        let rest = finish(args);
        if rest.len() == 0 {
            Ok(CmdLine { prog, task: Task::Shell })
        } else {
            let report = report_usage(prog.as_str(), &rest);
            Err(UsageError { report })
        }
    }
}

} // verus!
