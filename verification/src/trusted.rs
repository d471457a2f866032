//! What this library takes on trust from the crates it rests on.
//!
//! Text is cut into grapheme clusters by `unicode_segmentation`, clusters are
//! matched against Unicode property classes by `regex`, and the arguments of
//! the command line are held by `pico_args`. Nothing here is proved: each
//! contract states what the crate's documentation and source say of the call,
//! and the rest of the library is proved from these contracts.

use pico_args::Arguments;
use regex::Regex;
use unicode_segmentation::UnicodeSegmentation;
use vstd::prelude::*;

use crate::cmdline::{Argument, Word};

verus! {

/// A compiled regular expression of the `regex` crate.
#[verifier::external_type_specification]
#[verifier::external_body]
pub struct ExRegex(regex::Regex);

/// The reason for which the `regex` crate refuses a pattern.
#[verifier::external_type_specification]
#[verifier::external_body]
pub struct ExRegexError(regex::Error);

/// The grapheme clusters of `text`, in order, as
/// `UnicodeSegmentation::graphemes` yields them: the extended clusters where
/// `extended` holds, the legacy ones where it does not.
pub uninterp spec fn grapheme_clusters(text: Seq<char>, extended: bool) -> Seq<Seq<char>>;

/// What `Regex::new` makes of `pattern`: nothing where it refuses the
/// pattern, and else the set of texts in which the compiled expression finds
/// a match.
pub uninterp spec fn compiled(pattern: Seq<char>) -> Option<Set<Seq<char>>>;

/// The texts in which a compiled expression finds a match.
pub uninterp spec fn language(re: Regex) -> Set<Seq<char>>;

/// The texts of `pieces`, joined in order.
pub open spec fn joined(pieces: Seq<Seq<char>>) -> Seq<char>
    decreases pieces.len(),
{
    if pieces.len() == 0 {
        Seq::empty()
    } else {
        joined(pieces.drop_last()) + pieces.last()
    }
}

/// Calls `UnicodeSegmentation::graphemes` and collects what it yields.
///
/// The iterator hands out consecutive slices of `text`, from its start to its
/// end, and never an empty one. So the result is a function of the two
/// arguments, its pieces joined give `text` back, and no piece is empty.
#[verifier::external_body]
pub(crate) fn split_graphemes<'a>(text: &'a str, extended: bool) -> (clusters: Vec<&'a str>)
    ensures
        clusters@.map_values(|c: &str| c@) == grapheme_clusters(text@, extended),
        joined(clusters@.map_values(|c: &str| c@)) == text@,
        forall|i: int| 0 <= i < clusters@.len() ==> (#[trigger] clusters@[i])@.len() > 0,
{
    UnicodeSegmentation::graphemes(text, extended).collect()
}

/// Calls `Regex::new`.
///
/// It returns an error for a pattern that it refuses, and else an expression
/// whose matches depend on the pattern alone.
#[verifier::external_body]
pub(crate) fn compile(pattern: &str) -> (made: Result<Regex, regex::Error>)
    ensures
        made is Ok <==> compiled(pattern@) is Some,
        made matches Ok(re) ==> compiled(pattern@) == Some(language(re)),
{
    Regex::new(pattern)
}

/// Calls `Regex::is_match`: whether the expression finds a match anywhere in
/// `text`.
#[verifier::external_body]
pub(crate) fn is_match(re: &Regex, text: &str) -> (found: bool)
    ensures
        found == language(*re).contains(text@),
{
    re.is_match(text)
}

/// The arguments of a command line, as `pico_args` holds them.
#[verifier::external_type_specification]
#[verifier::external_body]
pub struct ExArguments(pico_args::Arguments);

/// The arguments that a parser holds, in order: those that were given and
/// that no call has consumed yet.
pub uninterp spec fn pending(args: Arguments) -> Seq<Word>;

/// Whether `short` can stand as the short spelling of a flag: a hyphen and
/// one character that is not a hyphen.
pub open spec fn is_short_flag(short: Seq<char>) -> bool {
    short.len() == 2 && short[0] == '-' && short[1] != '-'
}

/// Whether `long` can stand as the long spelling of a flag: it starts with
/// two hyphens.
pub open spec fn is_long_flag(long: Seq<char>) -> bool {
    long.len() >= 2 && long[0] == '-' && long[1] == '-'
}

/// Whether the argument is the flag, in one of its two spellings.
pub open spec fn is_flag(word: Word, short: Seq<char>, long: Seq<char>) -> bool {
    word == Word::Text(short) || word == Word::Text(long)
}

/// Whether the flag is among the arguments.
pub open spec fn has_flag(words: Seq<Word>, short: Seq<char>, long: Seq<char>) -> bool {
    exists|i: int| 0 <= i < words.len() && is_flag(#[trigger] words[i], short, long)
}

/// Calls `Arguments::contains` with the two spellings of a flag.
///
/// It looks through all the arguments for one that equals a spelling, and
/// says whether there is one. If so it removes one such argument, and else
/// it leaves the arguments as they are. In a debug build it panics on
/// spellings that are not a short and a long one: those are left out.
#[verifier::external_body]
pub(crate) fn take_flag(args: &mut Arguments, short: &'static str, long: &'static str) -> (found:
    bool)
    requires
        is_short_flag(short@),
        is_long_flag(long@),
    ensures
        found == has_flag(pending(*old(args)), short@, long@),
        !found ==> pending(*final(args)) == pending(*old(args)),
        found ==> exists|i: int|
            0 <= i < pending(*old(args)).len() && is_flag(
                #[trigger] pending(*old(args))[i],
                short@,
                long@,
            ) && pending(*final(args)) == pending(*old(args)).remove(i),
{
    args.contains([short, long])
}

/// Calls `Arguments::finish`, which hands out the arguments that are left,
/// in order. An argument that is valid Unicode comes out as its text, any
/// other as its escaped rendering.
#[verifier::external_body]
pub(crate) fn finish(args: Arguments) -> (rest: Vec<Argument>)
    ensures
        rest@.map_values(|a: Argument| a@) == pending(args),
{
    args.finish().into_iter().map(|arg| match arg.into_string() {
        Ok(text) => Argument::Text(text),
        Err(raw) => Argument::Raw(format!("{:?}", raw)),
    }).collect()
}

} // verus!
