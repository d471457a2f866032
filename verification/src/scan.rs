//! The maximal-munch scan over classified clusters.

use vstd::prelude::*;
use vstd::string::*;

use crate::cluster::{graphemes, Cluster, Part};
use crate::segment::{
    lemma_segment_bounds, lemma_text_of_one, lemma_tokens_are_maximal_runs, lexed, run_end,
    segment_at, segments, segments_from, text_between, tokens_in, unrecognized_in, Lexed,
};
use crate::token::Token;

verus! {

/// The outcome of scanning one line.
#[derive(Debug)]
pub struct Scan {
    /// The tokens of the line, in order.
    pub tokens: Vec<Token>,
    /// The clusters that fit no class, in order: one diagnostic is due for
    /// each.
    pub unrecognized: Vec<String>,
}

impl View for Scan {
    type V = Lexed;

    open spec fn view(&self) -> Lexed {
        Lexed {
            tokens: self.tokens@.map_values(|t: Token| t@),
            unrecognized: self.unrecognized@.map_values(|u: String| u@),
        }
    }
}

/// Scans a line of classified clusters into tokens, skipping white space and
/// setting aside the clusters that fit no class. What comes out is never
/// more than what went in.
pub fn scan(clusters: &Vec<Cluster>) -> (out: Scan)
    ensures
        out@ == lexed(graphemes(clusters@)),
        out@.tokens.len() + out@.unrecognized.len() <= clusters@.len(),
{
    let ghost s = graphemes(clusters@);
    let n = clusters.len();
    let mut tokens: Vec<Token> = Vec::new();
    let mut unrecognized: Vec<String> = Vec::new();
    let mut i: usize = 0;
    while i < n
        invariant
            n == clusters.len(),
            s == graphemes(clusters@),
            i <= n,
            tokens@.map_values(|t: Token| t@) + tokens_in(s, segments_from(s, i as int))
                == tokens_in(s, segments(s)),
            unrecognized@.map_values(|u: String| u@) + unrecognized_in(
                s,
                segments_from(s, i as int),
            ) == unrecognized_in(s, segments(s)),
        decreases n - i,
    {
        let first = clusters[i];
        let ghost seg = segment_at(s, i as int);
        let ghost rest = segments_from(s, seg.end);
        proof {
            lemma_segment_bounds(s, i as int);
            assert((seq![seg] + rest).drop_first() =~= rest);
        }
        match first.traits.opening() {
            Part::WhiteSpace => {
                i = i + 1;
            },
            Part::Unrecognized => {
                let text = first.text.to_owned();
                proof {
                    lemma_text_of_one(s, i as int);
                }
                unrecognized.push(text);
                i = i + 1;
            },
            Part::Token(kind) => {
                let mut text = first.text.to_owned();
                let mut j: usize = i + 1;
                proof {
                    lemma_text_of_one(s, i as int);
                }
                while j < n && clusters[j].traits.continues(kind)
                    invariant
                        n == clusters.len(),
                        s == graphemes(clusters@),
                        i < j <= n,
                        run_end(s, kind, j as int) == run_end(s, kind, i + 1),
                        text@ == text_between(s, i as int, j as int),
                    decreases n - j,
                {
                    text.append(clusters[j].text);
                    j = j + 1;
                }
                let token = Token::new(kind, text);
                tokens.push(token);
                i = j;
            },
        }
    }
    proof {
        lemma_tokens_are_maximal_runs(s);
    }
    Scan { tokens, unrecognized }
}

} // verus!
