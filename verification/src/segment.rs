//! The segments of a line, and what holds of them.
//!
//! A line is a sequence of clusters. It is cut, left to right, into segments:
//! a cluster of white space, an unrecognized cluster, or a token that runs on
//! for as long as the following clusters continue its class. The tokens of the
//! line are the texts of its token segments, in order.

use vstd::prelude::*;

use crate::cluster::{Grapheme, Part};
use crate::token::{Kind, Lexeme};

verus! {

/// A stretch `start..end` of the clusters of a line, and what it amounts to.
pub struct Segment {
    pub part: Part,
    pub start: int,
    pub end: int,
}

/// Where the run of clusters that continue a token of class `kind` ends, for
/// a run that has reached `from`: the first position at or after `from`
/// whose cluster does not continue `kind`, or the end of the line.
pub open spec fn run_end(s: Seq<Grapheme>, kind: Kind, from: int) -> int
    decreases s.len() - from,
{
    if 0 <= from < s.len() && s[from].traits.continues(kind) {
        run_end(s, kind, from + 1)
    } else {
        from
    }
}

/// The segment that starts at cluster `i`, given that no token is open there.
/// Its first cluster decides what it is; a token then takes every cluster
/// that continues it, and anything else is one cluster long.
pub open spec fn segment_at(s: Seq<Grapheme>, i: int) -> Segment {
    let part = s[i].traits.opening();
    Segment {
        part,
        start: i,
        end: match part {
            Part::Token(kind) => run_end(s, kind, i + 1),
            _ => i + 1,
        },
    }
}

/// The segments of the line from cluster `i` on, in order.
pub open spec fn segments_from(s: Seq<Grapheme>, i: int) -> Seq<Segment>
    decreases s.len() - i,
{
    if 0 <= i < s.len() {
        proof {
            lemma_segment_bounds(s, i);
        }
        seq![segment_at(s, i)] + segments_from(s, segment_at(s, i).end)
    } else {
        Seq::empty()
    }
}

/// The segments of a whole line.
pub open spec fn segments(s: Seq<Grapheme>) -> Seq<Segment> {
    segments_from(s, 0)
}

/// The concatenated text of the clusters `start..end`.
pub open spec fn text_between(s: Seq<Grapheme>, start: int, end: int) -> Seq<char>
    decreases end - start,
{
    if 0 <= start < end <= s.len() {
        text_between(s, start, end - 1) + s[end - 1].text
    } else {
        Seq::empty()
    }
}

/// The text of the whole line.
pub open spec fn line_text(s: Seq<Grapheme>) -> Seq<char> {
    text_between(s, 0, s.len() as int)
}

/// Whether the clusters `s` are `text` cut into consecutive pieces, none of
/// them empty: their texts joined give `text` back.
pub open spec fn is_cut(s: Seq<Grapheme>, text: Seq<char>) -> bool {
    &&& line_text(s) == text
    &&& forall|i: int| 0 <= i < s.len() ==> (#[trigger] s[i]).text.len() > 0
}

/// The tokens among `segs`, in order, each with the text of its clusters.
pub open spec fn tokens_in(s: Seq<Grapheme>, segs: Seq<Segment>) -> Seq<Lexeme>
    decreases segs.len(),
{
    if segs.len() == 0 {
        Seq::empty()
    } else {
        let rest = tokens_in(s, segs.drop_first());
        match segs[0].part {
            Part::Token(kind) => seq![
                Lexeme { kind, text: text_between(s, segs[0].start, segs[0].end) },
            ] + rest,
            _ => rest,
        }
    }
}

/// The texts of the unrecognized clusters among `segs`, in order.
pub open spec fn unrecognized_in(s: Seq<Grapheme>, segs: Seq<Segment>) -> Seq<Seq<char>>
    decreases segs.len(),
{
    if segs.len() == 0 {
        Seq::empty()
    } else {
        let rest = unrecognized_in(s, segs.drop_first());
        match segs[0].part {
            Part::Unrecognized => seq![text_between(s, segs[0].start, segs[0].end)] + rest,
            _ => rest,
        }
    }
}

/// What scanning a line yields.
pub struct Lexed {
    /// The tokens, in the order in which their runs start.
    pub tokens: Seq<Lexeme>,
    /// The clusters that fit no class, in order.
    pub unrecognized: Seq<Seq<char>>,
}

/// What scanning the line `s` yields.
pub open spec fn lexed(s: Seq<Grapheme>) -> Lexed {
    Lexed { tokens: tokens_in(s, segments(s)), unrecognized: unrecognized_in(s, segments(s)) }
}

/// A run that has reached `from` ends at or after `from`, within the line,
/// on a cluster that does not continue it, and every cluster before that
/// continues it.
pub proof fn lemma_run_end(s: Seq<Grapheme>, kind: Kind, from: int)
    requires
        0 <= from <= s.len(),
    ensures
        from <= run_end(s, kind, from) <= s.len(),
        run_end(s, kind, from) < s.len() ==> !s[run_end(s, kind, from)].traits.continues(kind),
        forall|j: int| from <= j < run_end(s, kind, from) ==> (#[trigger] s[j]).traits.continues(kind),
    decreases s.len() - from,
{
    if from < s.len() && s[from].traits.continues(kind) {
        lemma_run_end(s, kind, from + 1);
    }
}

/// A segment is not empty and lies within the line.
pub proof fn lemma_segment_bounds(s: Seq<Grapheme>, i: int)
    requires
        0 <= i < s.len(),
    ensures
        i < segment_at(s, i).end <= s.len(),
{
    match s[i].traits.opening() {
        Part::Token(kind) => {
            lemma_run_end(s, kind, i + 1);
        },
        _ => {},
    }
}

/// The text of a stretch of one cluster is the text of the cluster.
pub proof fn lemma_text_of_one(s: Seq<Grapheme>, i: int)
    requires
        0 <= i < s.len(),
    ensures
        text_between(s, i, i + 1) == s[i].text,
{
    assert(text_between(s, i, i) == Seq::<char>::empty());
}

/// The text of a stretch depends only on the clusters in it.
pub proof fn lemma_text_between_prefix(s: Seq<Grapheme>, t: Seq<Grapheme>, start: int, end: int)
    requires
        0 <= start <= end <= s.len(),
        end <= t.len(),
        forall|j: int| start <= j < end ==> s[j] == t[j],
    ensures
        text_between(s, start, end) == text_between(t, start, end),
    decreases end - start,
{
    if start < end {
        lemma_text_between_prefix(s, t, start, end - 1);
    }
}

/// A run that meets only clusters that continue it goes on to the end of
/// them.
pub proof fn lemma_run_end_is(s: Seq<Grapheme>, kind: Kind, from: int, end: int)
    requires
        0 <= from <= end <= s.len(),
        forall|j: int| from <= j < end ==> (#[trigger] s[j]).traits.continues(kind),
        end < s.len() ==> !s[end].traits.continues(kind),
    ensures
        run_end(s, kind, from) == end,
    decreases end - from,
{
    if from < end {
        lemma_run_end_is(s, kind, from + 1, end);
    }
}

/// Whether `seg` is a segment of the line as the scan cuts it: it is not
/// empty, it is what its first cluster opens, and where that is a token, every
/// further cluster in it continues the token, and the cluster after it, if
/// there is one, does not. Anything but a token is one cluster long.
pub open spec fn is_segment(s: Seq<Grapheme>, seg: Segment) -> bool {
    &&& 0 <= seg.start < seg.end <= s.len()
    &&& seg.part == s[seg.start].traits.opening()
    &&& match seg.part {
        Part::Token(kind) => {
            &&& forall|j: int| seg.start < j < seg.end ==> (#[trigger] s[j]).traits.continues(kind)
            &&& seg.end < s.len() ==> !s[seg.end].traits.continues(kind)
        },
        _ => seg.end == seg.start + 1,
    }
}

/// Whether `segs` cuts the line from cluster `from` on into segments: each is
/// a segment of the line, the first starts at `from`, each next one starts
/// where the one before it ends, and the last ends with the line.
pub open spec fn tiles(s: Seq<Grapheme>, segs: Seq<Segment>, from: int) -> bool {
    &&& segs.len() == 0 ==> from == s.len()
    &&& segs.len() > 0 ==> segs[0].start == from && segs.last().end == s.len()
    &&& forall|k: int| 0 <= k < segs.len() ==> is_segment(s, #[trigger] segs[k])
    &&& forall|k: int, l: int|
        0 <= k && l == k + 1 && l < segs.len() ==> (#[trigger] segs[k]).end == (#[trigger] segs[
            l
        ]).start
}

/// The segment that starts at a cluster is a segment of the line.
pub proof fn lemma_segment_at(s: Seq<Grapheme>, i: int)
    requires
        0 <= i < s.len(),
    ensures
        is_segment(s, segment_at(s, i)),
{
    match s[i].traits.opening() {
        Part::Token(kind) => {
            lemma_run_end(s, kind, i + 1);
        },
        _ => {},
    }
}

/// The segments of a line cut it up: every cluster lies in exactly one
/// segment, no token spans a class boundary or a skipped cluster, and every
/// token is as long as it can be.
pub proof fn lemma_segments_tile(s: Seq<Grapheme>, from: int)
    requires
        0 <= from <= s.len(),
    ensures
        tiles(s, segments_from(s, from), from),
    decreases s.len() - from,
{
    if from < s.len() {
        let seg = segment_at(s, from);
        lemma_segment_at(s, from);
        lemma_segment_bounds(s, from);
        lemma_segments_tile(s, seg.end);
    }
}

/// There is one way only to cut a line into segments.
pub proof fn lemma_tiling_is_unique(s: Seq<Grapheme>, segs: Seq<Segment>, from: int)
    requires
        0 <= from <= s.len(),
        tiles(s, segs, from),
    ensures
        segs == segments_from(s, from),
    decreases segs.len(),
{
    if segs.len() > 0 {
        let first = segs[0];
        let tail = segs.drop_first();
        assert(first == segment_at(s, from) && from < first.end <= s.len()) by {
            match first.part {
                Part::Token(kind) => {
                    lemma_run_end_is(s, kind, from + 1, first.end);
                },
                _ => {},
            }
        }
        assert(tiles(s, tail, first.end));
        lemma_tiling_is_unique(s, tail, first.end);
    }
}

/// The number of clusters that `segs` take up.
pub open spec fn clusters_in(segs: Seq<Segment>) -> int
    decreases segs.len(),
{
    if segs.len() == 0 {
        0
    } else {
        segs[0].end - segs[0].start + clusters_in(segs.drop_first())
    }
}

/// The texts of `segs`, joined in order.
pub open spec fn text_in(s: Seq<Grapheme>, segs: Seq<Segment>) -> Seq<char>
    decreases segs.len(),
{
    if segs.len() == 0 {
        Seq::empty()
    } else {
        text_between(s, segs[0].start, segs[0].end) + text_in(s, segs.drop_first())
    }
}

/// The text of two stretches that abut is the text of both together.
pub proof fn lemma_text_between_split(s: Seq<Grapheme>, start: int, mid: int, end: int)
    requires
        0 <= start <= mid <= end <= s.len(),
    ensures
        text_between(s, start, mid) + text_between(s, mid, end) == text_between(s, start, end),
    decreases end - mid,
{
    if mid < end {
        lemma_text_between_split(s, start, mid, end - 1);
    }
}

/// Every cluster from `from` on is taken up by exactly one segment, and the
/// texts of the segments, joined, are the text of the line from there on.
proof fn lemma_segments_cover_from(s: Seq<Grapheme>, from: int)
    requires
        0 <= from <= s.len(),
    ensures
        segments_from(s, from).len() <= s.len() - from,
        clusters_in(segments_from(s, from)) == s.len() - from,
        text_in(s, segments_from(s, from)) == text_between(s, from, s.len() as int),
    decreases s.len() - from,
{
    if from < s.len() {
        let seg = segment_at(s, from);
        let rest = segments_from(s, seg.end);
        lemma_segment_bounds(s, from);
        lemma_segments_cover_from(s, seg.end);
        assert((seq![seg] + rest).drop_first() =~= rest);
        lemma_text_between_split(s, from, seg.end, s.len() as int);
    }
}

/// Each cluster of a line is consumed once: the segments are no more than
/// the clusters, the clusters that the tokens, the skipped white space and
/// the skipped unrecognized clusters take up are all the clusters of the
/// line, and the texts of the segments, joined in order, give the line back.
pub proof fn lemma_segments_cover(s: Seq<Grapheme>)
    ensures
        segments(s).len() <= s.len(),
        clusters_in(segments(s)) == s.len(),
        text_in(s, segments(s)) == line_text(s),
{
    lemma_segments_cover_from(s, 0);
}

/// The position among `segs` of the `k`-th token among them.
pub open spec fn token_position(segs: Seq<Segment>, k: int) -> int
    decreases segs.len(),
{
    if segs.len() == 0 {
        0
    } else if segs[0].part is Token {
        if k <= 0 {
            0
        } else {
            1 + token_position(segs.drop_first(), k - 1)
        }
    } else {
        1 + token_position(segs.drop_first(), k)
    }
}

/// The tokens among `segs` are no more than `segs`, together with the
/// unrecognized clusters among them. The `k`-th token is the text of the
/// segment at its position, which is a token of its class, and a later token
/// has a later position.
pub proof fn lemma_tokens_in(s: Seq<Grapheme>, segs: Seq<Segment>)
    ensures
        tokens_in(s, segs).len() + unrecognized_in(s, segs).len() <= segs.len(),
        forall|k: int|
            #![trigger token_position(segs, k)]
            0 <= k < tokens_in(s, segs).len() ==> {
                let seg = segs[token_position(segs, k)];
                &&& 0 <= token_position(segs, k) < segs.len()
                &&& seg.part == Part::Token(tokens_in(s, segs)[k].kind)
                &&& tokens_in(s, segs)[k].text == text_between(s, seg.start, seg.end)
            },
        forall|k: int, l: int|
            0 <= k < l < tokens_in(s, segs).len() ==> #[trigger] token_position(segs, k)
                < #[trigger] token_position(segs, l),
    decreases segs.len(),
{
    if segs.len() > 0 {
        let tail = segs.drop_first();
        let tokens = tokens_in(s, segs);
        let shift: int = if segs[0].part is Token {
            1
        } else {
            0
        };
        lemma_tokens_in(s, tail);
        assert forall|k: int|
            #![trigger token_position(segs, k)]
            0 <= k < tokens.len() implies {
            let seg = segs[token_position(segs, k)];
            &&& 0 <= token_position(segs, k) < segs.len()
            &&& seg.part == Part::Token(tokens[k].kind)
            &&& tokens[k].text == text_between(s, seg.start, seg.end)
        } by {
            if k >= shift {
                assert(0 <= token_position(tail, k - shift) < tail.len());
            }
        }
        assert forall|k: int, l: int| 0 <= k < l < tokens.len() implies #[trigger] token_position(
            segs,
            k,
        ) < #[trigger] token_position(segs, l) by {
            assert(0 <= token_position(tail, l - shift));
            if k >= shift {
                assert(token_position(tail, k - shift) < token_position(tail, l - shift));
            }
        }
    }
}

/// A stretch that is not empty, of clusters none of which is empty, has a
/// text that is not empty.
pub proof fn lemma_text_between_is_not_empty(s: Seq<Grapheme>, start: int, end: int)
    requires
        0 <= start < end <= s.len(),
        forall|j: int| 0 <= j < s.len() ==> (#[trigger] s[j]).text.len() > 0,
    ensures
        text_between(s, start, end).len() > 0,
{
}

/// What every line yields: no more tokens and unrecognized clusters than it
/// has clusters; and each token is the text of a segment of the line, a
/// stretch of clusters that its first cluster opens as a token of that class,
/// that runs on for as long as the clusters continue the class, and no
/// further.
pub proof fn lemma_tokens_are_maximal_runs(s: Seq<Grapheme>)
    ensures
        lexed(s).tokens.len() + lexed(s).unrecognized.len() <= s.len(),
        forall|k: int|
            #![trigger token_position(segments(s), k)]
            0 <= k < lexed(s).tokens.len() ==> {
                let seg = segments(s)[token_position(segments(s), k)];
                &&& is_segment(s, seg)
                &&& seg.part == Part::Token(lexed(s).tokens[k].kind)
                &&& lexed(s).tokens[k].text == text_between(s, seg.start, seg.end)
            },
{
    lemma_segments_cover(s);
    lemma_segments_tile(s, 0);
    lemma_tokens_in(s, segments(s));
}

/// Where no cluster of a line is empty, no token of it is.
pub proof fn lemma_tokens_are_not_empty(s: Seq<Grapheme>)
    requires
        forall|j: int| 0 <= j < s.len() ==> (#[trigger] s[j]).text.len() > 0,
    ensures
        forall|k: int| 0 <= k < lexed(s).tokens.len() ==> (#[trigger] lexed(s).tokens[k]).text.len()
            > 0,
{
    lemma_tokens_are_maximal_runs(s);
    assert forall|k: int| 0 <= k < lexed(s).tokens.len() implies (#[trigger] lexed(s).tokens[
        k
    ]).text.len() > 0 by {
        let seg = segments(s)[token_position(segments(s), k)];
        lemma_text_between_is_not_empty(s, seg.start, seg.end);
    }
}

} // verus!
