//! What holds of a session however it is used: its answers depend on the text of the
//! document alone, never on the order of the requests or on what was cached when.

use vstd::prelude::*;
use syntect::parsing::SyntaxSet;
use crate::cache::{extended, LineState};
use crate::spans::{tiles, Span};
use crate::syntax::{start_state, SessionView};
use crate::theme::ThemeView;
use crate::token::{aligned, byte_len, step};

verus! {

/// The state that line `line` of `doc` is entered with when the lines before it are
/// highlighted one by one, in order, beginning with `start`.
pub open spec fn state_before(
    syntaxes: SyntaxSet,
    theme: ThemeView,
    start: LineState,
    doc: Seq<Seq<char>>,
    line: int,
) -> LineState
    decreases line,
{
    if line <= 0 {
        start
    } else {
        step(syntaxes, theme, state_before(syntaxes, theme, start, doc, line - 1), doc[line - 1]).1
    }
}

/// `a` and `b` have the same first `n` lines.
pub open spec fn same_lines_before(a: Seq<Seq<char>>, b: Seq<Seq<char>>, n: int) -> bool {
    &&& n <= a.len()
    &&& n <= b.len()
    &&& forall|i: int| 0 <= i < n ==> a[i] == b[i]
}

impl SessionView {
    /// The state that line `line` of `doc` is entered with after a replay of the lines
    /// before it from a cleared cache.
    pub open spec fn replayed_state(self, doc: Seq<Seq<char>>, line: int) -> LineState {
        state_before(
            self.syntaxes,
            self.theme,
            start_state(self.syntaxes, self.theme, self.extension),
            doc,
            line,
        )
    }

    /// The spans of line `line` of `doc` after a replay of the lines before it from a
    /// cleared cache.
    pub open spec fn replayed_spans(self, doc: Seq<Seq<char>>, line: int) -> Seq<Span> {
        step(self.syntaxes, self.theme, self.replayed_state(doc, line), doc[line]).0
    }

    /// The cache is in step with `doc`: it reaches no further than the document, and every
    /// slot holds the state that a replay from a cleared cache enters that line with.
    pub open spec fn in_step(self, doc: Seq<Seq<char>>) -> bool {
        &&& 1 <= self.slots.len() <= doc.len() + 1
        &&& forall|i: int| 0 <= i < self.slots.len() ==> #[trigger] self.slots[i] == self.replayed_state(doc, i)
    }

    /// This session after the lines `requests` of `doc` were highlighted, one request after
    /// the other.
    pub open spec fn after_requests(self, doc: Seq<Seq<char>>, requests: Seq<usize>) -> SessionView
        decreases requests.len(),
    {
        if requests.len() == 0 {
            self
        } else {
            self.after_requests(doc, requests.drop_last()).after_highlight(
                requests.last(),
                doc[requests.last() as int],
            )
        }
    }

    /// Every request of `requests` is for a line of `doc` whose entering state the cache
    /// holds by then: a line highlighted before, or the line after one.
    pub open spec fn within_reach(self, doc: Seq<Seq<char>>, requests: Seq<usize>) -> bool {
        forall|j: int|
            0 <= j < requests.len() ==> (#[trigger] requests[j]) < doc.len() && requests[j]
                < self.after_requests(doc, requests.take(j)).slots.len()
    }
}

/// A session that was just configured is in step with every document.
pub proof fn lemma_configured_in_step(session: SessionView, extension: Seq<char>, doc: Seq<Seq<char>>)
    ensures
        session.configured(extension).in_step(doc),
{
}

/// Configuring twice for the same extension is configuring once.
pub proof fn lemma_configure_idempotent(session: SessionView, extension: Seq<char>)
    ensures
        session.configured(extension).configured(extension) == session.configured(extension),
{
}

/// Highlighting a line whose entering state the cache holds gives the spans of a replay
/// from a cleared cache, and leaves the cache in step with the document.
pub proof fn lemma_highlight_in_step(session: SessionView, doc: Seq<Seq<char>>, line: usize)
    requires
        session.in_step(doc),
        line < session.slots.len(),
        line < doc.len(),
    ensures
        session.spans_at(line as int, doc[line as int]) == session.replayed_spans(doc, line as int),
        session.after_highlight(line, doc[line as int]).in_step(doc),
        session.after_highlight(line, doc[line as int]).slots.len() >= line + 2,
        session.after_highlight(line, doc[line as int]).slots.len() >= session.slots.len(),
{
    let after = session.after_highlight(line, doc[line as int]);
    assert(extended(session.slots, line as int) == session.slots);
    assert(session.slots[line as int] == session.replayed_state(doc, line as int));
    assert forall|i: int| 0 <= i < after.slots.len() implies #[trigger] after.slots[i]
        == after.replayed_state(doc, i) by {
        if i != line + 1 {
            assert(after.slots[i] == session.slots[i]);
        }
    }
}

/// The states of a replay up to line `n` depend on the lines before `n` alone.
pub proof fn lemma_replay_reads_prefix(
    syntaxes: SyntaxSet,
    theme: ThemeView,
    start: LineState,
    a: Seq<Seq<char>>,
    b: Seq<Seq<char>>,
    n: int,
    line: int,
)
    requires
        same_lines_before(a, b, n),
        line <= n,
    ensures
        state_before(syntaxes, theme, start, a, line) == state_before(syntaxes, theme, start, b, line),
    decreases line,
{
    if line > 0 {
        lemma_replay_reads_prefix(syntaxes, theme, start, a, b, n, line - 1);
    }
}

/// After an edit whose first changed line is `line`, the cache is in step with the new
/// document: truncation leaves no state behind that the edit has made wrong.
pub proof fn lemma_edit_in_step(session: SessionView, old_doc: Seq<Seq<char>>, new_doc: Seq<Seq<char>>, line: usize)
    requires
        session.in_step(old_doc),
        same_lines_before(old_doc, new_doc, line as int),
    ensures
        session.after_edit(line).in_step(new_doc),
        session.after_edit(line).slots.len() == if line + 1 < session.slots.len() {
            line + 1
        } else {
            session.slots.len() as int
        },
{
    let after = session.after_edit(line);
    assert forall|i: int| 0 <= i < after.slots.len() implies #[trigger] after.slots[i]
        == after.replayed_state(new_doc, i) by {
        assert(after.slots[i] == session.slots[i]);
        lemma_replay_reads_prefix(
            session.syntaxes,
            session.theme,
            start_state(session.syntaxes, session.theme, session.extension),
            old_doc,
            new_doc,
            line as int,
            i,
        );
    }
}

/// Requests within reach keep the cache in step, however often a line is asked for again.
pub proof fn lemma_requests_in_step(session: SessionView, doc: Seq<Seq<char>>, requests: Seq<usize>)
    requires
        session.in_step(doc),
        session.within_reach(doc, requests),
    ensures
        session.after_requests(doc, requests).in_step(doc),
        session.after_requests(doc, requests).syntaxes == session.syntaxes,
        session.after_requests(doc, requests).theme == session.theme,
        session.after_requests(doc, requests).extension == session.extension,
    decreases requests.len(),
{
    if requests.len() > 0 {
        let earlier = requests.drop_last();
        let n = requests.len() - 1;
        assert(requests.take(n) =~= earlier);
        assert forall|j: int| 0 <= j < earlier.len() implies (#[trigger] earlier[j]) < doc.len()
            && earlier[j] < session.after_requests(doc, earlier.take(j)).slots.len() by {
            assert(earlier.take(j) =~= requests.take(j));
            assert(earlier[j] == requests[j]);
        }
        lemma_requests_in_step(session, doc, earlier);
        assert(requests[n] == requests.last());
        lemma_highlight_in_step(session.after_requests(doc, earlier), doc, requests.last());
    }
}

/// Determinism: from a cache that is in step with the document, every request within reach
/// is answered with the spans of a replay from a cleared cache, whatever was requested
/// before it and however often.
pub proof fn lemma_requests_are_replays(session: SessionView, doc: Seq<Seq<char>>, requests: Seq<usize>, j: int)
    requires
        session.in_step(doc),
        session.within_reach(doc, requests),
        0 <= j < requests.len(),
    ensures
        session.after_requests(doc, requests.take(j)).spans_at(requests[j] as int, doc[requests[j] as int])
            == session.replayed_spans(doc, requests[j] as int),
{
    let earlier = requests.take(j);
    assert forall|i: int| 0 <= i < earlier.len() implies (#[trigger] earlier[i]) < doc.len()
        && earlier[i] < session.after_requests(doc, earlier.take(i)).slots.len() by {
        assert(earlier.take(i) =~= requests.take(i));
        assert(earlier[i] == requests[i]);
    }
    lemma_requests_in_step(session, doc, earlier);
    lemma_highlight_in_step(session.after_requests(doc, earlier), doc, requests[j]);
}

/// Determinism, from the start: whatever a session was before, once it is configured the
/// lines of a document get the spans of a replay, in whatever order they are asked for
/// within reach and however often.
pub proof fn lemma_configured_requests_are_replays(
    session: SessionView,
    extension: Seq<char>,
    doc: Seq<Seq<char>>,
    requests: Seq<usize>,
    j: int,
)
    requires
        session.configured(extension).within_reach(doc, requests),
        0 <= j < requests.len(),
    ensures
        session.configured(extension).after_requests(doc, requests.take(j)).spans_at(
            requests[j] as int,
            doc[requests[j] as int],
        ) == session.configured(extension).replayed_spans(doc, requests[j] as int),
{
    lemma_configured_in_step(session, extension, doc);
    lemma_requests_are_replays(session.configured(extension), doc, requests, j);
}

/// The lines `from..to`, each once and in ascending order.
pub open spec fn in_order(from: int, to: int) -> Seq<usize> {
    Seq::new((to - from) as nat, |i: int| (from + i) as usize)
}

/// Lines asked for one after the other stay within reach, if the first of them is: each
/// leaves behind the state that the next is entered with.
pub proof fn lemma_in_order_within_reach(session: SessionView, doc: Seq<Seq<char>>, from: int, to: int)
    requires
        session.in_step(doc),
        0 <= from < session.slots.len(),
        from <= to <= doc.len(),
        to <= usize::MAX + 1,
    ensures
        session.within_reach(doc, in_order(from, to)),
        session.after_requests(doc, in_order(from, to)).in_step(doc),
        session.after_requests(doc, in_order(from, to)).slots.len() >= to + 1 || to == from,
        session.after_requests(doc, in_order(from, to)).slots.len() >= session.slots.len(),
    decreases to - from,
{
    let requests = in_order(from, to);
    if from < to {
        let last = (to - 1) as usize;
        let earlier = in_order(from, to - 1);
        lemma_in_order_within_reach(session, doc, from, to - 1);
        assert(requests.drop_last() =~= earlier);
        assert(requests.last() == last);
        let before = session.after_requests(doc, earlier);
        assert(last < before.slots.len());
        assert forall|j: int| 0 <= j < requests.len() implies (#[trigger] requests[j]) < doc.len()
            && requests[j] < session.after_requests(doc, requests.take(j)).slots.len() by {
            if j < earlier.len() {
                assert(requests.take(j) =~= earlier.take(j));
                assert(earlier[j] == requests[j]);
            } else {
                assert(requests.take(j) =~= earlier);
            }
        }
        lemma_highlight_in_step(before, doc, last);
    }
}

/// A document highlighted line by line from a cache that was just cleared gets, for each
/// line, the spans that [`SessionView::replayed_spans`] names.
pub proof fn lemma_replay_from_scratch(session: SessionView, extension: Seq<char>, doc: Seq<Seq<char>>, line: usize)
    requires
        line < doc.len(),
    ensures
        session.configured(extension).after_requests(doc, in_order(0, line as int)).spans_at(
            line as int,
            doc[line as int],
        ) == session.configured(extension).replayed_spans(doc, line as int),
{
    let fresh = session.configured(extension);
    let requests = in_order(0, line + 1);
    lemma_configured_in_step(session, extension, doc);
    lemma_in_order_within_reach(fresh, doc, 0, line + 1);
    assert(requests.take(line as int) =~= in_order(0, line as int));
    assert(requests[line as int] == line);
    lemma_requests_are_replays(fresh, doc, requests, line as int);
}

/// Invalidation: after an edit, the lines asked for again get the spans that a session
/// would give which was cleared and replayed over the new document from line 0.
pub proof fn lemma_edit_then_rederive(
    session: SessionView,
    old_doc: Seq<Seq<char>>,
    new_doc: Seq<Seq<char>>,
    line: usize,
    requests: Seq<usize>,
    j: int,
)
    requires
        session.in_step(old_doc),
        same_lines_before(old_doc, new_doc, line as int),
        session.after_edit(line).within_reach(new_doc, requests),
        0 <= j < requests.len(),
    ensures
        session.after_edit(line).after_requests(new_doc, requests.take(j)).spans_at(
            requests[j] as int,
            new_doc[requests[j] as int],
        ) == session.configured(session.extension).replayed_spans(new_doc, requests[j] as int),
{
    lemma_edit_in_step(session, old_doc, new_doc, line);
    lemma_requests_are_replays(session.after_edit(line), new_doc, requests, j);
}

/// Invalidation, for the lines from the edit on: where the cache had reached the line
/// `line`, the first that an edit changed, deriving the lines `line..=last` again in order
/// gives, for `last`, the spans of a session that was cleared and replayed over the new
/// document from line 0.
pub proof fn lemma_edit_then_rederive_in_order(
    session: SessionView,
    old_doc: Seq<Seq<char>>,
    new_doc: Seq<Seq<char>>,
    line: usize,
    last: usize,
)
    requires
        session.in_step(old_doc),
        same_lines_before(old_doc, new_doc, line as int),
        line < session.slots.len(),
        line <= last < new_doc.len(),
    ensures
        session.after_edit(line).after_requests(new_doc, in_order(line as int, last as int)).spans_at(
            last as int,
            new_doc[last as int],
        ) == session.configured(session.extension).after_requests(
            new_doc,
            in_order(0, last as int),
        ).spans_at(last as int, new_doc[last as int]),
{
    let edited = session.after_edit(line);
    let requests = in_order(line as int, last + 1);
    lemma_edit_in_step(session, old_doc, new_doc, line);
    lemma_in_order_within_reach(edited, new_doc, line as int, last + 1);
    assert(requests.take(last - line) =~= in_order(line as int, last as int));
    assert(requests[last - line] == last);
    lemma_requests_are_replays(edited, new_doc, requests, last - line);
    lemma_replay_from_scratch(session, session.extension, new_doc, last);
}

/// Coverage: whatever the state and the text, the spans of a line tile its bytes and cut no
/// character in two. An empty line has no span.
pub proof fn lemma_spans_tile_line(session: SessionView, line: int, text: Seq<char>)
    requires
        byte_len(text) <= usize::MAX,
    ensures
        tiles(session.spans_at(line, text), byte_len(text)),
        aligned(session.spans_at(line, text), text),
        byte_len(text) == 0 ==> session.spans_at(line, text).len() == 0,
{
    crate::token::lemma_step_tiles(session.syntaxes, session.theme, session.entering(line), text);
}

} // verus!
