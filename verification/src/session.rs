//! A session of the shell: the tokens of all the lines read so far.

use vstd::prelude::*;
use vstd::string::*;

use crate::classifier::{clusters_of, Classifier};
use crate::cmdline::Exit;
use crate::scan::Scan;
use crate::segment::lexed;
use crate::token::{Lexeme, Token};

verus! {

/// The prompt for a line.
pub const PROMPT: &'static str = ">>> ";

/// What precedes the cluster in the diagnostic for an unrecognized cluster.
pub const UNRECOGNIZED: &'static str = "unrecognized grapheme: ";

/// What follows the program's name where the line editor cannot be set up.
pub const SETUP_FAILED: &'static str = ": error: unable to create readline interface: ";

/// What follows the program's name where a line cannot be read.
pub const READ_FAILED: &'static str = ": error: unable to read from stdin: ";

/// What can go wrong with the source of lines. Either is fatal.
#[derive(Clone, Copy, Debug, PartialEq, Eq, Structural)]
pub enum Fault {
    /// The line editor could not be set up.
    Setup,
    /// A line could not be read.
    Read,
}

impl Fault {
    /// The line that reports the fault: the program's name, what failed, and
    /// the reason as the source of lines gives it.
    pub open spec fn report_text(self, prog: Seq<char>, reason: Seq<char>) -> Seq<char> {
        match self {
            Fault::Setup => prog + SETUP_FAILED@ + reason,
            Fault::Read => prog + READ_FAILED@ + reason,
        }
    }

    /// Writes the line that reports the fault.
    pub fn report(self, prog: &str, reason: &str) -> (line: String)
        ensures
            line@ == self.report_text(prog@, reason@),
    {
        let mut line = prog.to_owned();
        match self {
            Fault::Setup => line.append(SETUP_FAILED),
            Fault::Read => line.append(READ_FAILED),
        }
        line.append(reason);
        line
    }

    /// How the process ends on the fault.
    pub fn exit(self) -> (exit: Exit)
        ensures
            exit == Exit::Failure,
    {
        Exit::Failure
    }
}

/// Whether a character has the Unicode property `Pattern_White_Space`.
pub open spec fn spec_is_pattern_white_space(c: char) -> bool {
    let code = c as u32;
    ||| 0x9 <= code <= 0xd
    ||| code == 0x20
    ||| code == 0x85
    ||| code == 0x200e
    ||| code == 0x200f
    ||| code == 0x2028
    ||| code == 0x2029
}

/// Whether a character has the Unicode property `Pattern_White_Space`.
#[verifier::when_used_as_spec(spec_is_pattern_white_space)]
pub fn is_pattern_white_space(c: char) -> (white: bool)
    ensures
        white == spec_is_pattern_white_space(c),
{
    let code = c as u32;
    (0x9 <= code && code <= 0xd) || code == 0x20 || code == 0x85 || code == 0x200e || code
        == 0x200f || code == 0x2028 || code == 0x2029
}

/// The line without the pattern white space at its start.
pub open spec fn trim_start(line: Seq<char>) -> Seq<char>
    decreases line.len(),
{
    if line.len() > 0 && is_pattern_white_space(line[0]) {
        trim_start(line.drop_first())
    } else {
        line
    }
}

/// The line without the pattern white space at its end.
pub open spec fn trim_end(line: Seq<char>) -> Seq<char>
    decreases line.len(),
{
    if line.len() > 0 && is_pattern_white_space(line.last()) {
        trim_end(line.drop_last())
    } else {
        line
    }
}

/// Whether a line is blank: nothing is left of it once pattern white space
/// is trimmed from both of its ends.
pub open spec fn spec_is_blank(line: Seq<char>) -> bool {
    trim_end(trim_start(line)).len() == 0
}

/// Whether a line holds nothing but pattern white space.
pub open spec fn is_all_white_space(line: Seq<char>) -> bool {
    forall|i: int| 0 <= i < line.len() ==> is_pattern_white_space(#[trigger] line[i])
}

/// Trimming the start of a line stops at the first character that is not
/// pattern white space, and leaves nothing only where there is none.
proof fn lemma_trim_start(line: Seq<char>)
    ensures
        trim_start(line).len() > 0 ==> !is_pattern_white_space(trim_start(line)[0]),
        trim_start(line).len() == 0 <==> is_all_white_space(line),
    decreases line.len(),
{
    if line.len() > 0 && is_pattern_white_space(line[0]) {
        let rest = line.drop_first();
        lemma_trim_start(rest);
        if is_all_white_space(rest) {
            assert forall|i: int| 0 <= i < line.len() implies is_pattern_white_space(
                #[trigger] line[i],
            ) by {
                if i > 0 {
                    assert(line[i] == rest[i - 1]);
                }
            }
        }
        if is_all_white_space(line) {
            assert(is_all_white_space(rest));
        }
    }
}

/// Trimming the end of a line leaves nothing only where the line holds
/// nothing but pattern white space.
proof fn lemma_trim_end(line: Seq<char>)
    ensures
        trim_end(line).len() == 0 <==> is_all_white_space(line),
    decreases line.len(),
{
    if line.len() > 0 && is_pattern_white_space(line.last()) {
        let rest = line.drop_last();
        lemma_trim_end(rest);
        if is_all_white_space(rest) {
            assert forall|i: int| 0 <= i < line.len() implies is_pattern_white_space(
                #[trigger] line[i],
            ) by {
                if i < rest.len() {
                    assert(line[i] == rest[i]);
                }
            }
        }
        if is_all_white_space(line) {
            assert(is_all_white_space(rest));
        }
    }
}

/// A line is blank where it holds nothing but pattern white space, and only
/// there: the empty line is blank, and so is any mix of blanks and tabs.
pub proof fn lemma_blank_is_all_white_space(line: Seq<char>)
    ensures
        spec_is_blank(line) <==> is_all_white_space(line),
{
    lemma_trim_start(line);
    lemma_trim_end(trim_start(line));
}

/// Whether a line is blank.
pub fn is_blank(line: &str) -> (blank: bool)
    ensures
        blank == spec_is_blank(line@),
        blank == is_all_white_space(line@),
{
    proof {
        lemma_blank_is_all_white_space(line@);
    }
    for c in it: line.chars()
        invariant
            it.seq() == line@,
            spec_is_blank(line@) <==> is_all_white_space(line@),
            forall|j: int| 0 <= j < it.index() ==> is_pattern_white_space(#[trigger] line@[j]),
    {
        if !is_pattern_white_space(c) {
            return false;
        }
    }
    true
}

/// How a sequence of tokens is shown: each token in turn.
pub open spec fn rendered(tokens: Seq<Lexeme>) -> Seq<char>
    decreases tokens.len(),
{
    if tokens.len() == 0 {
        Seq::empty()
    } else {
        rendered(tokens.drop_last()) + tokens.last().rendered()
    }
}

/// Shows a sequence of tokens on one line.
pub fn render(tokens: &Vec<Token>) -> (shown: String)
    ensures
        shown@ == rendered(tokens@.map_values(|t: Token| t@)),
{
    let ghost all = tokens@.map_values(|t: Token| t@);
    let mut shown = String::new();
    let mut i: usize = 0;
    while i < tokens.len()
        invariant
            i <= tokens.len(),
            all == tokens@.map_values(|t: Token| t@),
            shown@ == rendered(all.take(i as int)),
        decreases tokens.len() - i,
    {
        let one = tokens[i].render();
        proof {
            assert(all.take(i + 1).drop_last() =~= all.take(i as int));
        }
        shown.append(one.as_str());
        i = i + 1;
    }
    proof {
        assert(all.take(tokens.len() as int) =~= all);
    }
    shown
}

/// The diagnostic for an unrecognized cluster, which names the cluster.
pub open spec fn diagnostic_text(cluster: Seq<char>) -> Seq<char> {
    UNRECOGNIZED@ + cluster
}

/// Writes the diagnostic for an unrecognized cluster.
pub fn diagnostic(cluster: &str) -> (line: String)
    ensures
        line@ == diagnostic_text(cluster@),
{
    let mut line = UNRECOGNIZED.to_owned();
    line.append(cluster);
    line
}

/// Writes the diagnostics for the unrecognized clusters of a line: one for
/// each, in order.
pub fn diagnostics(unrecognized: &Vec<String>) -> (lines: Vec<String>)
    ensures
        lines@.map_values(|line: String| line@) == unrecognized@.map_values(
            |cluster: String| diagnostic_text(cluster@),
        ),
{
    let mut lines: Vec<String> = Vec::new();
    let mut i: usize = 0;
    while i < unrecognized.len()
        invariant
            i <= unrecognized.len(),
            lines@.len() == i,
            forall|j: int|
                0 <= j < i ==> (#[trigger] lines@[j])@ == diagnostic_text(unrecognized@[j]@),
        decreases unrecognized.len() - i,
    {
        let line = diagnostic(unrecognized[i].as_str());
        lines.push(line);
        i = i + 1;
    }
    lines
}

/// What the source of lines hands back when it is asked for a line.
#[derive(Debug, PartialEq, Eq)]
pub enum Input {
    /// A line of text, which may be empty.
    Line(String),
    /// The input has come to its end.
    End,
    /// No line could be read, for the reason given.
    Failed(String),
}

/// What the shell does next.
#[derive(Debug, PartialEq, Eq)]
pub enum Step {
    /// The session is over, and all went well.
    End,
    /// A line was tokenized: the diagnostics for its unrecognized clusters
    /// are due, and then the tokens of the whole session so far, on one line.
    /// After that the next line is asked for.
    Show { diagnostics: Vec<String>, rendering: String },
    /// The session cannot go on: the report is due on the error stream, and
    /// the process ends at once.
    Fail { report: String, exit: Exit },
}

/// The tokens of all the lines of a session, in the order of the input.
/// Tokens are only ever added at the end.
#[derive(Debug)]
pub struct Session {
    tokens: Vec<Token>,
}

impl View for Session {
    type V = Seq<Lexeme>;

    closed spec fn view(&self) -> Seq<Lexeme> {
        self.tokens@.map_values(|t: Token| t@)
    }
}

impl Session {
    /// A session in which nothing was read yet.
    pub fn new() -> (session: Session)
        ensures
            session@ == Seq::<Lexeme>::empty(),
    {
        let session = Session { tokens: Vec::new() };
        session
    }

    /// The tokens of the session so far.
    pub fn tokens(&self) -> (tokens: &Vec<Token>)
        ensures
            tokens@.map_values(|t: Token| t@) == self@,
    {
        &self.tokens
    }

    /// Adds the tokens of one more line at the end, and shows the tokens of
    /// the whole session.
    pub fn extend(&mut self, tokens: Vec<Token>) -> (rendering: String)
        ensures
            final(self)@ == old(self)@ + tokens@.map_values(|t: Token| t@),
            rendering@ == rendered(final(self)@),
    {
        let mut tokens = tokens;
        self.tokens.append(&mut tokens);
        render(&self.tokens)
    }

    /// Takes one line of input. A blank line ends the session, and is not
    /// tokenized. Any other line is tokenized, its tokens are added to those
    /// of the session, and all the tokens of the session are shown, not only
    /// the new ones.
    pub fn submit(&mut self, classifier: &Classifier, line: &str) -> (step: Step)
        ensures
            spec_is_blank(line@) ==> step is End && final(self)@ == old(self)@,
            !spec_is_blank(line@) ==> {
                let found = lexed(clusters_of(classifier.classes(), line@));
                &&& final(self)@ == old(self)@ + found.tokens
                &&& step matches Step::Show { diagnostics, rendering }
                &&& diagnostics@.map_values(|line: String| line@) == found.unrecognized.map_values(
                    |cluster: Seq<char>| diagnostic_text(cluster),
                )
                &&& rendering@ == rendered(final(self)@)
            },
    {
        if is_blank(line) {
            return Step::End;
        }
        let Scan { tokens, unrecognized } = classifier.tokenize(line);
        let diagnostics = diagnostics(&unrecognized);
        let rendering = self.extend(tokens);
        Step::Show { diagnostics, rendering }
    }

    /// Takes what the source of lines handed back, and says what to do next.
    ///
    /// A line is taken as `submit` takes it. The end of the input ends the
    /// session as a blank line does. A line that could not be read is fatal:
    /// the report names the program and gives the reason.
    pub fn advance(&mut self, classifier: &Classifier, prog: &str, input: &Input) -> (step: Step)
        ensures
            match input {
                Input::Line(line) => if spec_is_blank(line@) {
                    step is End && final(self)@ == old(self)@
                } else {
                    let found = lexed(clusters_of(classifier.classes(), line@));
                    &&& final(self)@ == old(self)@ + found.tokens
                    &&& step matches Step::Show { diagnostics, rendering }
                    &&& diagnostics@.map_values(|line: String| line@)
                        == found.unrecognized.map_values(
                        |cluster: Seq<char>| diagnostic_text(cluster),
                    )
                    &&& rendering@ == rendered(final(self)@)
                },
                Input::End => step is End && final(self)@ == old(self)@,
                Input::Failed(reason) => {
                    &&& final(self)@ == old(self)@
                    &&& step matches Step::Fail { report, exit }
                    &&& report@ == Fault::Read.report_text(prog@, reason@)
                    &&& exit == Exit::Failure
                },
            },
    {
        match input {
            Input::Line(line) => self.submit(classifier, line.as_str()),
            Input::End => Step::End,
            Input::Failed(reason) => Step::Fail {
                report: Fault::Read.report(prog, reason.as_str()),
                exit: Fault::Read.exit(),
            },
        }
    }
}

} // verus!
