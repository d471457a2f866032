//! Grapheme clusters and the classes they fall under.
//!
//! A cluster is the atomic unit of classification. What the scanner needs to
//! know of a cluster is its text and four independent facts about it, its
//! [`Traits`].

use vstd::prelude::*;

use crate::token::Kind;

verus! {

/// The four facts about a cluster that drive the scan.
#[derive(Clone, Copy, Debug, PartialEq, Eq, Structural)]
pub struct Traits {
    /// The cluster is pattern white space.
    pub white_space: bool,
    /// The cluster may start an identifier.
    pub ident_start: bool,
    /// The cluster may continue an identifier.
    pub ident_continue: bool,
    /// The cluster is pattern syntax.
    pub syntax: bool,
}

/// What a stretch of consecutive clusters amounts to.
#[derive(Clone, Copy, Debug, PartialEq, Eq, Structural)]
pub enum Part {
    /// One cluster of white space: skipped, leaving no trace.
    WhiteSpace,
    /// A token of the given class.
    Token(Kind),
    /// One cluster that fits no class: skipped, and reported.
    Unrecognized,
}

impl Traits {
    /// What a cluster with these traits does where no token is open.
    /// White space takes precedence over an identifier, an identifier over a
    /// symbol, and what is none of these is unrecognized.
    pub open spec fn spec_opening(self) -> Part {
        if self.white_space {
            Part::WhiteSpace
        } else if self.ident_start {
            Part::Token(Kind::Identifier)
        } else if self.syntax {
            Part::Token(Kind::Symbol)
        } else {
            Part::Unrecognized
        }
    }

    /// Whether a cluster with these traits extends an open token of class
    /// `kind`. Only the class of the open token matters.
    pub open spec fn spec_continues(self, kind: Kind) -> bool {
        match kind {
            Kind::Identifier => self.ident_continue,
            Kind::Symbol => self.syntax,
        }
    }

    /// What a cluster with these traits does where no token is open.
    #[verifier::when_used_as_spec(spec_opening)]
    pub fn opening(self) -> (part: Part)
        ensures
            part == self.spec_opening(),
    {
        if self.white_space {
            Part::WhiteSpace
        } else if self.ident_start {
            Part::Token(Kind::Identifier)
        } else if self.syntax {
            Part::Token(Kind::Symbol)
        } else {
            Part::Unrecognized
        }
    }

    /// Whether a cluster with these traits extends an open token of class
    /// `kind`.
    #[verifier::when_used_as_spec(spec_continues)]
    pub fn continues(self, kind: Kind) -> (extends: bool)
        ensures
            extends == self.spec_continues(kind),
    {
        match kind {
            Kind::Identifier => self.ident_continue,
            Kind::Symbol => self.syntax,
        }
    }
}

/// What a cluster is: its text and its traits.
pub struct Grapheme {
    pub text: Seq<char>,
    pub traits: Traits,
}

/// A classified grapheme cluster of a line.
#[derive(Clone, Copy, Debug)]
pub struct Cluster<'a> {
    /// The text of the cluster.
    pub text: &'a str,
    /// The classes the cluster falls under.
    pub traits: Traits,
}

impl<'a> View for Cluster<'a> {
    type V = Grapheme;

    open spec fn view(&self) -> Grapheme {
        Grapheme { text: self.text@, traits: self.traits }
    }
}

/// The clusters that a vector of classified clusters stands for.
pub open spec fn graphemes(clusters: Seq<Cluster>) -> Seq<Grapheme> {
    clusters.map_values(|c: Cluster| c@)
}

} // verus!
