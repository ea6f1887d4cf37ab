//! Coloured spans over the bytes of one line.
//!
//! The grammar engine yields a line as pieces, each a colour and a byte length. This module
//! lays such pieces end to end into byte ranges and makes sure that the ranges tile the line,
//! whatever the pieces were.

use vstd::prelude::*;
use std::ops::Range;
use crate::color::Rgba;

verus! {

/// The colour that a range of text is drawn in.
#[derive(Clone, Copy, Debug, PartialEq, Eq, Structural)]
pub struct Highlight(pub Rgba);

/// A byte range of a line and its colour.
pub type Span = (Range<usize>, Highlight);

/// The span `start..end` in `color`.
pub open spec fn span(start: int, end: int, color: Rgba) -> Span {
    (Range { start: start as usize, end: end as usize }, Highlight(color))
}

/// The sum of the lengths of `pieces`.
pub open spec fn total_len(pieces: Seq<(Rgba, usize)>) -> nat
    decreases pieces.len(),
{
    if pieces.len() == 0 {
        0
    } else {
        total_len(pieces.drop_last()) + pieces.last().1 as nat
    }
}

/// The byte offset at which piece `i` starts when the pieces are laid end to end from 0.
pub open spec fn offset_of(pieces: Seq<(Rgba, usize)>, i: int) -> nat {
    total_len(pieces.take(i))
}

/// The first `n` pieces as spans, each from the end of the one before. A piece without
/// length gives no span.
pub open spec fn laid_out(pieces: Seq<(Rgba, usize)>, n: int) -> Seq<Span>
    decreases n,
{
    if n <= 0 {
        seq![]
    } else if pieces[n - 1].1 == 0 {
        laid_out(pieces, n - 1)
    } else {
        laid_out(pieces, n - 1).push(
            span(offset_of(pieces, n - 1) as int, offset_of(pieces, n) as int, pieces[n - 1].0),
        )
    }
}

/// The bytes `from..to` as one span in `color`; nothing where the range is empty.
pub open spec fn rest(from: int, to: int, color: Rgba) -> Seq<Span> {
    if from < to {
        seq![span(from, to, color)]
    } else {
        seq![]
    }
}

/// The spans for a line of `len` bytes that the engine cut into `pieces`.
///
/// Pieces that fit into the line are laid end to end, and what they leave at the end of the
/// line becomes one span in the colour `unknown`. Pieces that are longer than the line are
/// dropped, and the whole line becomes one such span. No span is empty: an empty line has
/// none.
pub open spec fn spans_of(pieces: Seq<(Rgba, usize)>, len: int, unknown: Rgba) -> Seq<Span> {
    if total_len(pieces) <= len {
        laid_out(pieces, pieces.len() as int) + rest(total_len(pieces) as int, len, unknown)
    } else {
        rest(0, len, unknown)
    }
}

/// `spans` tile the bytes `0..len`: none is empty, they are in ascending order, each starts
/// where the one before ends, the first starts at 0 and the last ends at `len`.
pub open spec fn tiles(spans: Seq<Span>, len: int) -> bool {
    &&& forall|i: int| 0 <= i < spans.len() ==> (#[trigger] spans[i]).0.start < spans[i].0.end
    &&& forall|i: int|
        0 <= i < spans.len() - 1 ==> (#[trigger] spans[i]).0.end == spans[i + 1].0.start
    &&& spans.len() > 0 ==> spans[0].0.start == 0 && spans.last().0.end == len
    &&& spans.len() == 0 ==> len == 0
}

/// Adding a piece adds its length.
proof fn lemma_total_len_step(pieces: Seq<(Rgba, usize)>, i: int)
    requires
        0 <= i < pieces.len(),
    ensures
        offset_of(pieces, i + 1) == offset_of(pieces, i) + pieces[i].1,
{
    assert(pieces.take(i + 1).drop_last() =~= pieces.take(i));
}

/// Pieces laid end to end never come back: a later offset is no smaller.
proof fn lemma_offsets_ascend(pieces: Seq<(Rgba, usize)>, i: int, j: int)
    requires
        0 <= i <= j <= pieces.len(),
    ensures
        offset_of(pieces, i) <= offset_of(pieces, j),
    decreases j - i,
{
    if i < j {
        lemma_offsets_ascend(pieces, i, j - 1);
        lemma_total_len_step(pieces, j - 1);
    }
}

/// The first `n` pieces, laid out, tile the bytes up to where piece `n` starts.
proof fn lemma_laid_out_tiles(pieces: Seq<(Rgba, usize)>, n: int)
    requires
        0 <= n <= pieces.len(),
        offset_of(pieces, n) <= usize::MAX,
    ensures
        tiles(laid_out(pieces, n), offset_of(pieces, n) as int),
    decreases n,
{
    if n == 0 {
        assert(pieces.take(0).len() == 0);
    } else {
        lemma_total_len_step(pieces, n - 1);
        lemma_laid_out_tiles(pieces, n - 1);
        if pieces[n - 1].1 > 0 {
            let before = laid_out(pieces, n - 1);
            let now = laid_out(pieces, n);
            assert forall|i: int| 0 <= i < now.len() - 1 implies (#[trigger] now[i]).0.end == now[i
                + 1].0.start by {
                if i < before.len() - 1 {
                    assert(now[i] == before[i]);
                    assert(now[i + 1] == before[i + 1]);
                } else {
                    assert(now[i] == before.last());
                }
            }
        }
    }
}

/// Whatever the pieces, the spans made of them tile the line.
pub proof fn lemma_spans_tile(pieces: Seq<(Rgba, usize)>, len: int, unknown: Rgba)
    requires
        0 <= len <= usize::MAX,
    ensures
        tiles(spans_of(pieces, len, unknown), len),
{
    let n = pieces.len() as int;
    assert(pieces.take(n) =~= pieces);
    if total_len(pieces) <= len {
        lemma_laid_out_tiles(pieces, n);
        let laid = laid_out(pieces, n);
        let spans = spans_of(pieces, len, unknown);
        if total_len(pieces) < len {
            assert forall|i: int| 0 <= i < spans.len() - 1 implies (#[trigger] spans[i]).0.end
                == spans[i + 1].0.start by {
                if i < laid.len() - 1 {
                    assert(spans[i] == laid[i]);
                    assert(spans[i + 1] == laid[i + 1]);
                } else {
                    assert(spans[i] == laid.last());
                }
            }
        } else {
            assert(spans =~= laid);
        }
    }
}

/// The bytes `from..to` as one span in `color`, or no span where the range is empty.
pub fn rest_spans(from: usize, to: usize, color: Rgba) -> (spans: Vec<Span>)
    ensures
        spans@ == rest(from as int, to as int, color),
{
    let mut spans: Vec<Span> = Vec::new();
    if from < to {
        spans.push((Range { start: from, end: to }, Highlight(color)));
    }
    spans
}

/// Lays `pieces` over a line of `len` bytes. The flag says whether the pieces covered the
/// line exactly.
pub fn lay_out(pieces: &Vec<(Rgba, usize)>, len: usize, unknown: Rgba) -> (out: (Vec<Span>, bool))
    ensures
        out.0@ == spans_of(pieces@, len as int, unknown),
        out.1 == (total_len(pieces@) == len),
        tiles(out.0@, len as int),
{
    proof {
        lemma_spans_tile(pieces@, len as int, unknown);
        assert(pieces@.take(0).len() == 0);
    }
    let mut spans: Vec<Span> = Vec::new();
    let mut offset: usize = 0;
    let mut i: usize = 0;
    while i < pieces.len()
        invariant
            0 <= i <= pieces.len(),
            offset == offset_of(pieces@, i as int),
            offset <= len,
            spans@ == laid_out(pieces@, i as int),
        decreases pieces.len() - i,
    {
        let color = pieces[i].0;
        let piece_len = pieces[i].1;
        proof {
            lemma_total_len_step(pieces@, i as int);
        }
        if piece_len > len - offset {
            proof {
                lemma_offsets_ascend(pieces@, i as int + 1, pieces@.len() as int);
                assert(pieces@.take(pieces@.len() as int) =~= pieces@);
            }
            return (rest_spans(0, len, unknown), false);
        }
        if piece_len > 0 {
            spans.push((Range { start: offset, end: offset + piece_len }, Highlight(color)));
        }
        offset = offset + piece_len;
        i = i + 1;
    }
    proof {
        assert(pieces@.take(pieces@.len() as int) =~= pieces@);
    }
    let mut tail = rest_spans(offset, len, unknown);
    spans.append(&mut tail);
    (spans, offset == len)
}

} // verus!
