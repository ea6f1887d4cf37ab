//! One step of the highlighter: a line of text and the state it is entered with give the
//! line's coloured spans and the state it is left with.

use vstd::prelude::*;
use vstd::slice::*;
use vstd::utf8::{encode_utf8, is_char_boundary};
use syntect::parsing::{ScopeStackOp, SyntaxSet};
use crate::bindings::{
    highlight_outcome, highlight_pieces, ops_fit, parse_line, parse_outcome, parses_with,
};
use crate::cache::LineState;
use crate::registry::GrammarRegistry;
use crate::spans::{lay_out, rest, rest_spans, spans_of, tiles, total_len, Span};
use crate::theme::{ThemeMap, ThemeView};

verus! {

/// The length of `text` in bytes.
pub open spec fn byte_len(text: Seq<char>) -> int {
    encode_utf8(text).len() as int
}

/// Every span of `spans` ends between two characters of `text`, never inside one.
pub open spec fn ends_aligned(spans: Seq<Span>, text: Seq<char>) -> bool {
    forall|i: int|
        0 <= i < spans.len() ==> is_char_boundary(encode_utf8(text), (#[trigger] spans[i]).0.end as int)
}

/// Every span of `spans` starts and ends between two characters of `text`.
pub open spec fn aligned(spans: Seq<Span>, text: Seq<char>) -> bool {
    forall|i: int|
        0 <= i < spans.len() ==> is_char_boundary(encode_utf8(text), (#[trigger] spans[i]).0.start as int)
            && is_char_boundary(encode_utf8(text), spans[i].0.end as int)
}

/// What the engine makes of `text` entered with `entering`: the line's spans and the state
/// it is left with.
///
/// Where the parser fails on the line, or reports scope changes that cannot be laid over it,
/// or the highlighter's pieces end inside a character, the whole line is one span in the
/// default colour and the state stays as it was. Where the pieces cover the line, the spans
/// are those pieces and the state is the one that parser and highlighter reached. Where the
/// pieces stop short or run over, the spans are as [`spans_of`] says and the state stays as
/// it was.
pub open spec fn step(syntaxes: SyntaxSet, theme: ThemeView, entering: LineState, text: Seq<char>) -> (
    Seq<Span>,
    LineState,
) {
    let parsed = parse_outcome(entering.parse, text, syntaxes);
    let whole = rest(0, byte_len(text), theme.default_color);
    match parsed.1 {
        Some(ops) => {
            if ops_fit(ops, text) {
                let lit = highlight_outcome(entering.highlight, ops, text, theme.styles);
                let spans = spans_of(lit.1, byte_len(text), theme.default_color);
                if !ends_aligned(spans, text) {
                    (whole, entering)
                } else if total_len(lit.1) == byte_len(text) {
                    (spans, LineState { parse: parsed.0, highlight: lit.0 })
                } else {
                    (spans, entering)
                }
            } else {
                (whole, entering)
            }
        },
        None => (whole, entering),
    }
}

/// Spans that tile a text and end between its characters start between them too.
pub proof fn lemma_tiles_aligned(spans: Seq<Span>, text: Seq<char>)
    requires
        tiles(spans, byte_len(text)),
        ends_aligned(spans, text),
    ensures
        aligned(spans, text),
{
    broadcast use {vstd::utf8::encode_utf8_valid_utf8, vstd::utf8::is_char_boundary_start_end_of_seq};

    assert forall|i: int| 0 <= i < spans.len() implies is_char_boundary(
        encode_utf8(text),
        (#[trigger] spans[i]).0.start as int,
    ) by {
        if i > 0 {
            assert(spans[i - 1].0.end == spans[i].0.start);
        } else {
            assert(is_char_boundary(encode_utf8(text), 0));
        }
    }
}

/// Whatever the engine does, the spans of a step tile the line and keep its characters
/// whole.
pub proof fn lemma_step_tiles(syntaxes: SyntaxSet, theme: ThemeView, entering: LineState, text: Seq<char>)
    requires
        byte_len(text) <= usize::MAX,
    ensures
        tiles(step(syntaxes, theme, entering, text).0, byte_len(text)),
        aligned(step(syntaxes, theme, entering, text).0, text),
{
    broadcast use {vstd::utf8::encode_utf8_valid_utf8, vstd::utf8::is_char_boundary_start_end_of_seq};

    let parsed = parse_outcome(entering.parse, text, syntaxes);
    let whole = rest(0, byte_len(text), theme.default_color);
    assert(tiles(whole, byte_len(text)));
    assert(is_char_boundary(encode_utf8(text), encode_utf8(text).len() as int));
    assert(ends_aligned(whole, text));
    if let Some(ops) = parsed.1 {
        let lit = highlight_outcome(entering.highlight, ops, text, theme.styles);
        crate::spans::lemma_spans_tile(lit.1, byte_len(text), theme.default_color);
    }
    lemma_tiles_aligned(step(syntaxes, theme, entering, text).0, text);
}

/// Whether the scope changes `ops` can be laid over `text`.
fn fits(ops: &Vec<(usize, ScopeStackOp)>, text: &str) -> (yes: bool)
    ensures
        yes == ops_fit(ops@, text@),
{
    let len = text.as_bytes().len();
    let mut last: usize = 0;
    let mut i: usize = 0;
    while i < ops.len()
        invariant
            0 <= i <= ops@.len(),
            len == encode_utf8(text@).len(),
            i > 0 ==> last == ops@[i - 1].0,
            i == 0 ==> last == 0,
            ops_fit(ops@.take(i as int), text@),
        decreases ops@.len() - i,
    {
        let at = ops[i].0;
        if at > len || at < last || !text.is_char_boundary(at) {
            proof {
                let bytes = encode_utf8(text@);
                if at < last {
                    assert(i > 0);
                    assert(ops@[i - 1].0 > ops@[i as int].0);
                } else {
                    assert(!(ops@[i as int].0 <= bytes.len() && is_char_boundary(
                        bytes,
                        ops@[i as int].0 as int,
                    )));
                }
                assert(!ops_fit(ops@, text@));
            }
            return false;
        }
        proof {
            let grown = ops@.take(i as int + 1);
            assert forall|a: int, b: int| 0 <= a <= b < grown.len() implies (#[trigger] grown[a]).0 <= (
            #[trigger] grown[b]).0 by {
                if b == i && a < i {
                    assert(ops@.take(i as int)[a].0 <= ops@.take(i as int)[i - 1].0);
                }
                if b < i {
                    assert(ops@.take(i as int)[a].0 <= ops@.take(i as int)[b].0);
                }
            }
            assert forall|a: int| 0 <= a < grown.len() implies (#[trigger] grown[a]).0 <= encode_utf8(
                text@,
            ).len() && is_char_boundary(encode_utf8(text@), grown[a].0 as int) by {
                if a < i {
                    assert(ops@.take(i as int)[a].0 <= encode_utf8(text@).len());
                }
            }
        }
        last = at;
        i = i + 1;
    }
    proof {
        assert(ops@.take(ops@.len() as int) =~= ops@);
    }
    true
}

/// Whether every span of `spans` ends between two characters of `text`.
fn ends_fit(spans: &Vec<Span>, text: &str) -> (yes: bool)
    ensures
        yes == ends_aligned(spans@, text@),
{
    let mut i: usize = 0;
    while i < spans.len()
        invariant
            0 <= i <= spans@.len(),
            ends_aligned(spans@.take(i as int), text@),
        decreases spans@.len() - i,
    {
        if !text.is_char_boundary(spans[i].0.end) {
            proof {
                assert(!is_char_boundary(encode_utf8(text@), spans@[i as int].0.end as int));
            }
            return false;
        }
        proof {
            let grown = spans@.take(i as int + 1);
            assert forall|a: int| 0 <= a < grown.len() implies is_char_boundary(
                encode_utf8(text@),
                (#[trigger] grown[a]).0.end as int,
            ) by {
                if a < i {
                    assert(spans@.take(i as int)[a] == grown[a]);
                }
            }
        }
        i = i + 1;
    }
    proof {
        assert(spans@.take(spans@.len() as int) =~= spans@);
    }
    true
}

/// Highlights one line: `text`, entered with the state `entering`.
///
/// Returns the line's spans and the state that the next line is entered with. Whatever the
/// engine did, the spans tile the bytes of the line and cut no character in two.
pub fn tokenize(registry: &GrammarRegistry, theme: &ThemeMap, entering: &LineState, text: &str) -> (out: (
    Vec<Span>,
    LineState,
))
    requires
        parses_with(entering.parse, registry@),
    ensures
        (out.0@, out.1) == step(registry@, theme@, *entering, text@),
        tiles(out.0@, byte_len(text@)),
        aligned(out.0@, text@),
        parses_with(out.1.parse, registry@),
{
    let len = text.as_bytes().len();
    let unknown = theme.default_color();
    proof {
        lemma_step_tiles(registry@, theme@, *entering, text@);
    }
    let mut parse = entering.parse.clone();
    match parse_line(&mut parse, text, registry.syntaxes()) {
        Some(ops) => {
            if fits(&ops, text) {
                let mut highlight = entering.highlight.clone();
                let pieces = highlight_pieces(&mut highlight, &ops, text, theme.styles());
                let (spans, covered) = lay_out(&pieces, len, unknown);
                if !ends_fit(&spans, text) {
                    (rest_spans(0, len, unknown), entering.duplicate())
                } else if covered {
                    (spans, LineState { parse, highlight })
                } else {
                    (spans, entering.duplicate())
                }
            } else {
                (rest_spans(0, len, unknown), entering.duplicate())
            }
        },
        None => (rest_spans(0, len, unknown), entering.duplicate()),
    }
}

} // verus!
