//! Classifying the clusters of a line by Unicode property classes.

use regex::Regex;
use vstd::prelude::*;

use crate::cluster::{graphemes, Cluster, Grapheme, Traits};
use crate::lines::{is_single_run, lemma_single_run, lemma_white_space_line};
use crate::scan::{scan, Scan};
use crate::segment::{
    is_cut, lemma_text_between_prefix, lemma_tokens_are_not_empty, lexed, line_text, Lexed,
};
use crate::token::{Kind, Lexeme};
use crate::trusted::{
    compile, compiled, grapheme_clusters, is_match, joined, language, split_graphemes,
};

verus! {

/// The four classes that a cluster is tested against.
#[derive(Clone, Copy, Debug, PartialEq, Eq, Structural)]
pub enum Class {
    /// Clusters that may start an identifier.
    IdentStart,
    /// Clusters that may continue an identifier.
    IdentContinue,
    /// Pattern syntax.
    Syntax,
    /// Pattern white space.
    WhiteSpace,
}

/// A cluster may start an identifier where it holds a character that is
/// `XID_Start` or an emoji.
pub const IDENT_START: &'static str = "(\\p{XID_Start}|\\p{Emoji})(\\p{XID_Continue}|\\p{Emoji})*";

/// A cluster may continue an identifier where it holds a character that is
/// `XID_Continue` or an emoji.
pub const IDENT_CONTINUE: &'static str = "(\\p{XID_Continue}|\\p{Emoji})+";

/// A cluster is pattern syntax where it holds a `Pattern_Syntax` character.
pub const SYNTAX: &'static str = "\\p{Pattern_Syntax}+";

/// A cluster is pattern white space where it holds a `Pattern_White_Space`
/// character.
pub const WHITE_SPACE: &'static str = "\\p{Pattern_White_Space}+";

impl Class {
    /// The regular expression that recognizes the class.
    pub open spec fn spec_pattern(self) -> &'static str {
        match self {
            Class::IdentStart => IDENT_START,
            Class::IdentContinue => IDENT_CONTINUE,
            Class::Syntax => SYNTAX,
            Class::WhiteSpace => WHITE_SPACE,
        }
    }

    /// The regular expression that recognizes the class.
    #[verifier::when_used_as_spec(spec_pattern)]
    pub fn pattern(self) -> (pattern: &'static str)
        ensures
            pattern == self.spec_pattern(),
    {
        match self {
            Class::IdentStart => IDENT_START,
            Class::IdentContinue => IDENT_CONTINUE,
            Class::Syntax => SYNTAX,
            Class::WhiteSpace => WHITE_SPACE,
        }
    }
}

/// The four classes as sets of cluster texts.
pub struct Classes {
    pub ident_start: Set<Seq<char>>,
    pub ident_continue: Set<Seq<char>>,
    pub syntax: Set<Seq<char>>,
    pub white_space: Set<Seq<char>>,
}

impl Classes {
    /// The traits of the cluster with text `text`: for each class, whether
    /// the cluster belongs to it.
    pub open spec fn traits_of(self, text: Seq<char>) -> Traits {
        Traits {
            white_space: self.white_space.contains(text),
            ident_start: self.ident_start.contains(text),
            ident_continue: self.ident_continue.contains(text),
            syntax: self.syntax.contains(text),
        }
    }

    /// The clusters with texts `texts`, each with its traits.
    pub open spec fn classify(self, texts: Seq<Seq<char>>) -> Seq<Grapheme> {
        texts.map_values(|text: Seq<char>| Grapheme { text, traits: self.traits_of(text) })
    }
}

/// Whether the compiler of regular expressions accepts `pattern`.
pub open spec fn accepted(pattern: Seq<char>) -> bool {
    compiled(pattern) is Some
}

/// The first class, in the order in which they are compiled, whose regular
/// expression is refused, where the four classes have the given expressions.
pub open spec fn refused(
    ident_start: Seq<char>,
    ident_continue: Seq<char>,
    syntax: Seq<char>,
    white_space: Seq<char>,
) -> Option<Class> {
    if !accepted(ident_start) {
        Some(Class::IdentStart)
    } else if !accepted(ident_continue) {
        Some(Class::IdentContinue)
    } else if !accepted(syntax) {
        Some(Class::Syntax)
    } else if !accepted(white_space) {
        Some(Class::WhiteSpace)
    } else {
        None
    }
}

/// The four classes as the given regular expressions define them, where each
/// of the expressions is accepted: a cluster belongs to a class where the
/// expression of the class finds a match in it.
pub open spec fn classes_of(
    ident_start: Seq<char>,
    ident_continue: Seq<char>,
    syntax: Seq<char>,
    white_space: Seq<char>,
) -> Classes {
    Classes {
        ident_start: compiled(ident_start)->0,
        ident_continue: compiled(ident_continue)->0,
        syntax: compiled(syntax)->0,
        white_space: compiled(white_space)->0,
    }
}

/// The first of the four classes whose own regular expression is refused.
pub open spec fn first_refused() -> Option<Class> {
    refused(IDENT_START@, IDENT_CONTINUE@, SYNTAX@, WHITE_SPACE@)
}

/// The four classes as their own regular expressions define them.
pub open spec fn standard_classes() -> Classes {
    classes_of(IDENT_START@, IDENT_CONTINUE@, SYNTAX@, WHITE_SPACE@)
}

/// The clusters of the line `input`, each with its traits under `classes`.
pub open spec fn clusters_of(classes: Classes, input: Seq<char>) -> Seq<Grapheme> {
    classes.classify(grapheme_clusters(input, true))
}

/// Whether the line `input` is white space and nothing else: every cluster
/// of it belongs to the class of white space.
pub open spec fn is_white_space(classes: Classes, input: Seq<char>) -> bool {
    forall|i: int|
        0 <= i < clusters_of(classes, input).len() ==> (#[trigger] clusters_of(
            classes,
            input,
        )[i]).traits.white_space
}

/// Whether the line `input` is one unbroken run of class `kind`: its first
/// cluster opens a token of that class, and every other cluster continues it.
pub open spec fn is_one_run(classes: Classes, input: Seq<char>, kind: Kind) -> bool {
    is_single_run(clusters_of(classes, input), kind)
}

/// What a line that is one unbroken run of class `kind` yields: one token,
/// which is the line.
pub open spec fn one_token(kind: Kind, input: Seq<char>) -> Lexed {
    Lexed { tokens: seq![Lexeme { kind, text: input }], unrecognized: Seq::empty() }
}

/// What a line yields in which there is nothing to find.
pub open spec fn nothing() -> Lexed {
    Lexed { tokens: Seq::empty(), unrecognized: Seq::empty() }
}

/// A class whose regular expression was refused.
#[derive(Clone, Copy, Debug, PartialEq, Eq, Structural)]
pub struct PatternError {
    /// The class that could not be set up.
    pub class: Class,
}

/// The compiled regular expressions of the four classes.
pub struct Classifier {
    ident_start: Regex,
    ident_continue: Regex,
    syntax: Regex,
    white_space: Regex,
}

impl Classifier {
    /// The classes that this classifier tests for.
    pub closed spec fn classes(&self) -> Classes {
        Classes {
            ident_start: language(self.ident_start),
            ident_continue: language(self.ident_continue),
            syntax: language(self.syntax),
            white_space: language(self.white_space),
        }
    }

    /// Compiles the given regular expressions for the four classes, in the
    /// order identifier start, identifier continuation, syntax, white space.
    /// Fails with the first class whose expression is refused.
    pub fn from_patterns(
        ident_start: &str,
        ident_continue: &str,
        syntax: &str,
        white_space: &str,
    ) -> (made: Result<Classifier, PatternError>)
        ensures
            match made {
                Ok(classifier) => {
                    &&& refused(ident_start@, ident_continue@, syntax@, white_space@) is None
                    &&& classifier.classes() == classes_of(
                        ident_start@,
                        ident_continue@,
                        syntax@,
                        white_space@,
                    )
                },
                Err(error) => refused(ident_start@, ident_continue@, syntax@, white_space@)
                    == Some(error.class),
            },
    {
        let ident_start = match compile(ident_start) {
            Ok(re) => re,
            Err(_) => {
                return Err(PatternError { class: Class::IdentStart });
            },
        };
        let ident_continue = match compile(ident_continue) {
            Ok(re) => re,
            Err(_) => {
                return Err(PatternError { class: Class::IdentContinue });
            },
        };
        let syntax = match compile(syntax) {
            Ok(re) => re,
            Err(_) => {
                return Err(PatternError { class: Class::Syntax });
            },
        };
        let white_space = match compile(white_space) {
            Ok(re) => re,
            Err(_) => {
                return Err(PatternError { class: Class::WhiteSpace });
            },
        };
        Ok(Classifier { ident_start, ident_continue, syntax, white_space })
    }

    /// Compiles the regular expressions of the four classes. Fails with the
    /// first class whose expression is refused.
    pub fn new() -> (made: Result<Classifier, PatternError>)
        ensures
            match made {
                Ok(classifier) => first_refused() is None && classifier.classes()
                    == standard_classes(),
                Err(error) => first_refused() == Some(error.class),
            },
    {
        Classifier::from_patterns(IDENT_START, IDENT_CONTINUE, SYNTAX, WHITE_SPACE)
    }

    /// Tests one cluster against the four classes.
    pub fn classify(&self, text: &str) -> (traits: Traits)
        ensures
            traits == self.classes().traits_of(text@),
    {
        Traits {
            white_space: is_match(&self.white_space, text),
            ident_start: is_match(&self.ident_start, text),
            ident_continue: is_match(&self.ident_continue, text),
            syntax: is_match(&self.syntax, text),
        }
    }

    /// Cuts a line into its extended grapheme clusters and classifies each.
    ///
    /// The clusters are consecutive pieces of the line: none is empty, and
    /// their texts joined give the line back.
    pub fn clusters<'a>(&self, input: &'a str) -> (clusters: Vec<Cluster<'a>>)
        ensures
            graphemes(clusters@) == clusters_of(self.classes(), input@),
            is_cut(graphemes(clusters@), input@),
    {
        let pieces = split_graphemes(input, true);
        let ghost texts = pieces@.map_values(|c: &str| c@);
        let mut clusters: Vec<Cluster<'a>> = Vec::new();
        let mut i: usize = 0;
        while i < pieces.len()
            invariant
                i <= pieces.len(),
                texts == pieces@.map_values(|c: &str| c@),
                clusters@.len() == i,
                forall|j: int|
                    0 <= j < i ==> (#[trigger] clusters@[j])@ == (Grapheme {
                        text: texts[j],
                        traits: self.classes().traits_of(texts[j]),
                    }),
            decreases pieces.len() - i,
        {
            let text = pieces[i];
            let traits = self.classify(text);
            clusters.push(Cluster { text, traits });
            i = i + 1;
        }
        proof {
            let s = graphemes(clusters@);
            assert(s =~= self.classes().classify(texts));
            lemma_line_text_is_joined(self.classes(), texts);
        }
        clusters
    }

    /// Tokenizes one line: cuts it into clusters, classifies them, and scans
    /// them by maximal munch.
    ///
    /// The clusters are consecutive pieces of the line, none of them empty,
    /// so no token is empty either, and there are no more tokens and
    /// unrecognized clusters than the line has clusters. A line of white
    /// space yields nothing, and a line that is one unbroken run yields one
    /// token equal to the line.
    pub fn tokenize(&self, input: &str) -> (out: Scan)
        ensures
            out@ == lexed(clusters_of(self.classes(), input@)),
            is_cut(clusters_of(self.classes(), input@), input@),
            is_white_space(self.classes(), input@) ==> out@ == nothing(),
            forall|kind: Kind| #[trigger]
                is_one_run(self.classes(), input@, kind) ==> out@ == one_token(kind, input@),
            out@.tokens.len() + out@.unrecognized.len() <= clusters_of(
                self.classes(),
                input@,
            ).len(),
            forall|k: int| 0 <= k < out@.tokens.len() ==> (#[trigger] out@.tokens[k]).text.len() > 0,
    {
        let clusters = self.clusters(input);
        let out = scan(&clusters);
        proof {
            let s = graphemes(clusters@);
            if is_white_space(self.classes(), input@) {
                lemma_white_space_line(s);
            }
            assert forall|kind: Kind| #[trigger]
                is_one_run(self.classes(), input@, kind) implies out@ == one_token(
                kind,
                input@,
            ) by {
                lemma_single_run(s, kind);
            }
            lemma_tokens_are_not_empty(s);
        }
        out
    }
}

/// The text of a classified line is its cluster texts joined.
pub proof fn lemma_line_text_is_joined(classes: Classes, texts: Seq<Seq<char>>)
    ensures
        line_text(classes.classify(texts)) == joined(texts),
    decreases texts.len(),
{
    let s = classes.classify(texts);
    if texts.len() > 0 {
        lemma_line_text_is_joined(classes, texts.drop_last());
        let shorter = classes.classify(texts.drop_last());
        assert(shorter =~= s.drop_last());
        lemma_text_between_prefix(s, s.drop_last(), 0, s.len() - 1);
    }
}

/// Tokenizes one line under the four classes as their regular expressions
/// define them. Fails where one of the expressions is refused, with the
/// first class for which that is so.
pub fn tokenize(input: &str) -> (out: Result<Scan, PatternError>)
    ensures
        match out {
            Ok(scan) => {
                &&& first_refused() is None
                &&& scan@ == lexed(clusters_of(standard_classes(), input@))
                &&& is_cut(clusters_of(standard_classes(), input@), input@)
                &&& is_white_space(standard_classes(), input@) ==> scan@ == nothing()
                &&& forall|kind: Kind| #[trigger]
                    is_one_run(standard_classes(), input@, kind) ==> scan@ == one_token(
                        kind,
                        input@,
                    )
                &&& scan@.tokens.len() + scan@.unrecognized.len() <= clusters_of(
                    standard_classes(),
                    input@,
                ).len()
                &&& forall|k: int|
                    0 <= k < scan@.tokens.len() ==> (#[trigger] scan@.tokens[k]).text.len() > 0
            },
            Err(error) => first_refused() == Some(error.class),
        },
{
    match Classifier::new() {
        Ok(classifier) => Ok(classifier.tokenize(input)),
        Err(error) => Err(error),
    }
}

} // verus!
