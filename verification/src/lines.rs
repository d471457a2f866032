//! What holds of whole lines, and of lines that are joined.

use vstd::prelude::*;

use crate::cluster::{Grapheme, Part};
use crate::segment::{
    lemma_run_end, lemma_run_end_is, lemma_segment_bounds, lemma_text_between_prefix, lexed,
    line_text, run_end, segment_at, segments, segments_from, text_between, tokens_in,
    unrecognized_in, Segment,
};
use crate::token::{Kind, Lexeme};

verus! {

/// In a line of nothing but white space, no stretch holds a token or an
/// unrecognized cluster.
proof fn lemma_white_space_from(s: Seq<Grapheme>, i: int)
    requires
        0 <= i <= s.len(),
        forall|j: int| 0 <= j < s.len() ==> (#[trigger] s[j]).traits.white_space,
    ensures
        tokens_in(s, segments_from(s, i)) == Seq::<Lexeme>::empty(),
        unrecognized_in(s, segments_from(s, i)) == Seq::<Seq<char>>::empty(),
    decreases s.len() - i,
{
    if i < s.len() {
        let seg = segment_at(s, i);
        let rest = segments_from(s, seg.end);
        lemma_white_space_from(s, i + 1);
        assert((seq![seg] + rest).drop_first() =~= rest);
    }
}

/// A line of nothing but white space has no tokens, and nothing in it is
/// unrecognized.
pub proof fn lemma_white_space_line(s: Seq<Grapheme>)
    requires
        forall|j: int| 0 <= j < s.len() ==> (#[trigger] s[j]).traits.white_space,
    ensures
        lexed(s).tokens == Seq::<Lexeme>::empty(),
        lexed(s).unrecognized == Seq::<Seq<char>>::empty(),
{
    lemma_white_space_from(s, 0);
}

/// Whether the line is one unbroken run of class `kind`: its first cluster
/// opens a token of that class, and every other cluster continues it.
pub open spec fn is_single_run(s: Seq<Grapheme>, kind: Kind) -> bool {
    &&& s.len() > 0
    &&& s[0].traits.opening() == Part::Token(kind)
    &&& forall|j: int| 0 < j < s.len() ==> (#[trigger] s[j]).traits.continues(kind)
}

/// A line that is one unbroken run is one segment.
pub proof fn lemma_single_run_segments(s: Seq<Grapheme>, kind: Kind)
    requires
        is_single_run(s, kind),
    ensures
        segments(s) == seq![
            Segment { part: Part::Token(kind), start: 0, end: s.len() as int },
        ],
{
    lemma_run_end_is(s, kind, 1, s.len() as int);
    assert(segments_from(s, s.len() as int) == Seq::<Segment>::empty());
}

/// A line that is one unbroken run of a class is one token of that class,
/// which holds the whole line, and nothing in it is unrecognized. So a line
/// of identifier-forming clusters, the first of which may start an
/// identifier, is one identifier equal to the line: it is not split.
pub proof fn lemma_single_run(s: Seq<Grapheme>, kind: Kind)
    requires
        is_single_run(s, kind),
    ensures
        lexed(s).tokens == seq![Lexeme { kind, text: line_text(s) }],
        lexed(s).unrecognized == Seq::<Seq<char>>::empty(),
{
    lemma_single_run_segments(s, kind);
    let segs = segments(s);
    let none = Seq::<Segment>::empty();
    assert(segs.drop_first() =~= none);
    assert(tokens_in(s, none) == Seq::<Lexeme>::empty());
    assert(unrecognized_in(s, none) == Seq::<Seq<char>>::empty());
}

/// The class of the token with which `segs` ends, if it ends with a token.
pub open spec fn open_kind(segs: Seq<Segment>) -> Option<Kind> {
    if segs.len() == 0 {
        None
    } else {
        match segs.last().part {
            Part::Token(kind) => Some(kind),
            _ => None,
        }
    }
}

/// Whether the line `a` ends with a token that the cluster `next` would
/// continue.
pub open spec fn runs_on(a: Seq<Grapheme>, next: Grapheme) -> bool {
    match open_kind(segments(a)) {
        Some(kind) => next.traits.continues(kind),
        None => false,
    }
}

/// A run in the second of two joined lines ends where it ends in that line
/// alone.
proof fn lemma_run_end_shift(a: Seq<Grapheme>, b: Seq<Grapheme>, kind: Kind, j: int)
    requires
        0 <= j <= b.len(),
    ensures
        run_end(a + b, kind, a.len() + j) == a.len() + run_end(b, kind, j),
    decreases b.len() - j,
{
    if j < b.len() && b[j].traits.continues(kind) {
        lemma_run_end_shift(a, b, kind, j + 1);
    }
}

/// A run in the first of two joined lines ends where it ends in that line
/// alone, unless it reaches the end of that line: then it goes on into the
/// second.
proof fn lemma_run_end_prefix(a: Seq<Grapheme>, b: Seq<Grapheme>, kind: Kind, from: int)
    requires
        0 <= from <= a.len(),
    ensures
        run_end(a, kind, from) < a.len() ==> run_end(a + b, kind, from) == run_end(a, kind, from),
        run_end(a, kind, from) >= a.len() ==> run_end(a + b, kind, from) == run_end(
            a + b,
            kind,
            a.len() as int,
        ),
    decreases a.len() - from,
{
    lemma_run_end(a, kind, from);
    if from < a.len() && a[from].traits.continues(kind) {
        lemma_run_end_prefix(a, b, kind, from + 1);
    }
}

/// The text of a stretch of the second of two joined lines is its text in
/// that line alone.
proof fn lemma_text_between_shift(a: Seq<Grapheme>, b: Seq<Grapheme>, start: int, end: int)
    requires
        0 <= start <= end <= b.len(),
    ensures
        text_between(a + b, a.len() + start, a.len() + end) == text_between(b, start, end),
    decreases end - start,
{
    if start < end {
        lemma_text_between_shift(a, b, start, end - 1);
    }
}

/// From a position in the second of two joined lines on, the whole yields
/// what the second line yields from there on.
proof fn lemma_split_second(a: Seq<Grapheme>, b: Seq<Grapheme>, j: int)
    requires
        0 <= j <= b.len(),
    ensures
        tokens_in(a + b, segments_from(a + b, a.len() + j)) == tokens_in(b, segments_from(b, j)),
        unrecognized_in(a + b, segments_from(a + b, a.len() + j)) == unrecognized_in(
            b,
            segments_from(b, j),
        ),
    decreases b.len() - j,
{
    let c = a + b;
    if j < b.len() {
        let seg = segment_at(b, j);
        let rest = segments_from(b, seg.end);
        let whole_seg = segment_at(c, a.len() + j);
        let whole_rest = segments_from(c, whole_seg.end);
        lemma_segment_bounds(b, j);
        match b[j].traits.opening() {
            Part::Token(kind) => {
                lemma_run_end_shift(a, b, kind, j + 1);
            },
            _ => {},
        }
        lemma_text_between_shift(a, b, j, seg.end);
        lemma_split_second(a, b, seg.end);
        assert((seq![seg] + rest).drop_first() =~= rest);
        assert((seq![whole_seg] + whole_rest).drop_first() =~= whole_rest);
    }
}

/// From a position in the first of two joined lines on, the whole yields what
/// the first line yields from there on, followed by what the second yields,
/// unless the first ends with a token that runs on into the second.
proof fn lemma_split_first(a: Seq<Grapheme>, b: Seq<Grapheme>, i: int)
    requires
        0 <= i <= a.len(),
        b.len() > 0 ==> match open_kind(segments_from(a, i)) {
            Some(kind) => !b[0].traits.continues(kind),
            None => true,
        },
    ensures
        tokens_in(a + b, segments_from(a + b, i)) == tokens_in(a, segments_from(a, i)) + tokens_in(
            b,
            segments(b),
        ),
        unrecognized_in(a + b, segments_from(a + b, i)) == unrecognized_in(a, segments_from(a, i))
            + unrecognized_in(b, segments(b)),
    decreases a.len() - i,
{
    let c = a + b;
    if i < a.len() {
        let seg = segment_at(a, i);
        let rest = segments_from(a, seg.end);
        let whole_seg = segment_at(c, i);
        let whole_rest = segments_from(c, whole_seg.end);
        lemma_segment_bounds(a, i);
        assert(whole_seg.end == seg.end) by {
            match a[i].traits.opening() {
                Part::Token(kind) => {
                    lemma_run_end_prefix(a, b, kind, i + 1);
                    if seg.end == a.len() {
                        lemma_run_end_shift(a, b, kind, 0);
                    }
                },
                _ => {},
            }
        }
        if seg.end < a.len() {
            lemma_segment_bounds(a, seg.end);
        }
        lemma_text_between_prefix(c, a, i, seg.end);
        lemma_split_first(a, b, seg.end);
        assert((seq![seg] + rest).drop_first() =~= rest);
        assert((seq![whole_seg] + whole_rest).drop_first() =~= whole_rest);
    } else {
        lemma_split_second(a, b, 0);
    }
}

/// A line may be cut in two wherever no token runs on across the cut: where
/// the first part does not end with a token that the first cluster of the
/// second part continues, the whole yields what the first part yields
/// followed by what the second part yields.
pub proof fn lemma_split(a: Seq<Grapheme>, b: Seq<Grapheme>)
    requires
        b.len() > 0 ==> !runs_on(a, b[0]),
    ensures
        lexed(a + b).tokens == lexed(a).tokens + lexed(b).tokens,
        lexed(a + b).unrecognized == lexed(a).unrecognized + lexed(b).unrecognized,
{
    lemma_split_first(a, b, 0);
}

/// The boundary between two tokens is kept when their lines are joined: where
/// `a` is one token and `b` is one token, and the first cluster of `b` does
/// not continue the class of `a`, the two joined are those two tokens, the
/// one after the other. Where that cluster does continue the class of `a`,
/// the token of `a` runs on into `b`, whatever the class of `b` is.
pub proof fn lemma_class_boundary(a: Seq<Grapheme>, first: Kind, b: Seq<Grapheme>, second: Kind)
    requires
        is_single_run(a, first),
        is_single_run(b, second),
        !b[0].traits.continues(first),
    ensures
        lexed(a + b).tokens == seq![
            Lexeme { kind: first, text: line_text(a) },
            Lexeme { kind: second, text: line_text(b) },
        ],
        lexed(a + b).tokens == lexed(a).tokens + lexed(b).tokens,
{
    lemma_single_run_segments(a, first);
    lemma_single_run(a, first);
    lemma_single_run(b, second);
    lemma_split(a, b);
}

} // verus!
