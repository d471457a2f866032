//! Tokens and their mathematical model.

use vstd::prelude::*;
use vstd::string::*;

verus! {

/// What opens the rendering of an identifier.
pub const IDENTIFIER_OPEN: &'static str = "Identifier(";

/// What opens the rendering of a symbol.
pub const SYMBOL_OPEN: &'static str = "Symbol(";

/// What closes the rendering of a token.
pub const CLOSE: &'static str = ") ";

/// The two classes of token.
#[derive(Clone, Copy, Debug, PartialEq, Eq, Structural)]
pub enum Kind {
    /// A run of identifier-forming clusters.
    Identifier,
    /// A run of pattern-syntax clusters.
    Symbol,
}

/// What a token is: its class, and the exact text of the clusters that
/// compose it, in order.
pub struct Lexeme {
    pub kind: Kind,
    pub text: Seq<char>,
}

impl Lexeme {
    /// How the token is shown: the name of its class, and its text in round
    /// brackets, followed by a blank.
    pub open spec fn rendered(self) -> Seq<char> {
        match self.kind {
            Kind::Identifier => IDENTIFIER_OPEN@ + self.text + CLOSE@,
            Kind::Symbol => SYMBOL_OPEN@ + self.text + CLOSE@,
        }
    }
}

/// A token of one line of input.
#[derive(Debug, PartialEq, Eq)]
pub enum Token {
    /// An identifier.
    Identifier(String),
    /// A symbol.
    Symbol(String),
}

impl View for Token {
    type V = Lexeme;

    open spec fn view(&self) -> Lexeme {
        match self {
            Token::Identifier(text) => Lexeme { kind: Kind::Identifier, text: text@ },
            Token::Symbol(text) => Lexeme { kind: Kind::Symbol, text: text@ },
        }
    }
}

impl Clone for Token {
    fn clone(&self) -> (copy: Token)
        ensures
            copy@ == self@,
    {
        match self {
            Token::Identifier(text) => Token::Identifier(text.clone()),
            Token::Symbol(text) => Token::Symbol(text.clone()),
        }
    }
}

impl Token {
    /// Makes the token of class `kind` that holds `text`.
    pub fn new(kind: Kind, text: String) -> (token: Token)
        ensures
            token@ == (Lexeme { kind, text: text@ }),
    {
        match kind {
            Kind::Identifier => Token::Identifier(text),
            Kind::Symbol => Token::Symbol(text),
        }
    }

    /// The class of the token.
    pub fn kind(&self) -> (kind: Kind)
        ensures
            kind == self@.kind,
    {
        match self {
            Token::Identifier(_) => Kind::Identifier,
            Token::Symbol(_) => Kind::Symbol,
        }
    }

    /// The text of the token.
    pub fn text(&self) -> (text: &str)
        ensures
            text@ == self@.text,
    {
        match self {
            Token::Identifier(text) => text.as_str(),
            Token::Symbol(text) => text.as_str(),
        }
    }

    /// Shows the token.
    pub fn render(&self) -> (shown: String)
        ensures
            shown@ == self@.rendered(),
    {
        let mut shown = match self {
            Token::Identifier(_) => IDENTIFIER_OPEN.to_owned(),
            Token::Symbol(_) => SYMBOL_OPEN.to_owned(),
        };
        shown.append(self.text());
        shown.append(CLOSE);
        shown
    }
}

} // verus!
