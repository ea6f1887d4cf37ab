//! The line state cache: one snapshot of the engine for each line boundary of a document.
//!
//! Slot 0 holds the state at the start of the document. Slot `i + 1` holds the snapshot taken
//! after line `i`, which is the state that line `i + 1` is entered with. Slot `i` therefore
//! depends on the text of the lines before line `i` and on nothing else.

use vstd::prelude::*;
use syntect::highlighting::HighlightState;
use syntect::parsing::ParseState;
use crate::bindings::{highlight_start, initial_highlight_state, initial_parse_state};
use crate::registry::Grammar;
use crate::theme::ThemeMap;

verus! {

/// The engine between two lines: the parser's snapshot and the highlighter's.
pub struct LineState {
    pub parse: ParseState,
    pub highlight: HighlightState,
}

impl LineState {
    /// The state at the start of a document in `grammar`, styled by `theme`.
    pub fn start(grammar: &Grammar<'_>, theme: &ThemeMap) -> (state: LineState)
        ensures
            state == (LineState {
                parse: initial_parse_state(grammar@),
                highlight: initial_highlight_state(theme@.styles),
            }),
    {
        LineState { parse: grammar.start(), highlight: highlight_start(theme.styles()) }
    }

    /// A copy of this state.
    pub fn duplicate(&self) -> (copy: LineState)
        ensures
            copy == *self,
    {
        LineState { parse: self.parse.clone(), highlight: self.highlight.clone() }
    }
}

/// `slots` grown until slot `line` exists, each new slot a copy of the last one there was.
pub open spec fn extended(slots: Seq<LineState>, line: int) -> Seq<LineState> {
    if line < slots.len() {
        slots
    } else {
        slots + Seq::new((line + 1 - slots.len()) as nat, |i: int| slots.last())
    }
}

/// `slots` without the snapshots taken after line `line` and after the lines that follow it: the
/// states that the lines `0..=line` are entered with stay.
pub open spec fn truncated(slots: Seq<LineState>, line: int) -> Seq<LineState> {
    if line + 1 < slots.len() {
        slots.take(line + 1)
    } else {
        slots
    }
}

/// `slots` with `state` in slot `index`, which is the next free slot at most.
pub open spec fn stored(slots: Seq<LineState>, index: int, state: LineState) -> Seq<LineState> {
    if index < slots.len() {
        slots.update(index, state)
    } else {
        slots.push(state)
    }
}

/// The ordered snapshots of one document: the start state, which is always there, and the
/// snapshots taken after its lines.
pub struct LineCache {
    start: LineState,
    after: Vec<LineState>,
}

impl View for LineCache {
    type V = Seq<LineState>;

    /// The slots in order, slot 0 first.
    closed spec fn view(&self) -> Seq<LineState> {
        seq![self.start] + self.after@
    }
}

impl LineCache {
    /// A cache that holds the start state and nothing else.
    pub fn new(start: LineState) -> (cache: LineCache)
        ensures
            cache@ == seq![start],
    {
        LineCache { start, after: Vec::new() }
    }

    /// The number of lines that have left a snapshot: one less than the number of slots.
    pub fn lines(&self) -> (lines: usize)
        ensures
            lines == self@.len() - 1,
    {
        self.after.len()
    }

    /// Clears the cache to the start state `start`.
    pub fn reset(&mut self, start: LineState)
        ensures
            final(self)@ == seq![start],
    {
        self.start = start;
        self.after.clear();
    }

    /// Discards the snapshots of the lines `line` and later. What the lines before `line`
    /// left behind stays, the state that `line` itself is entered with included.
    pub fn truncate_from(&mut self, line: usize)
        ensures
            final(self)@ == truncated(old(self)@, line as int),
    {
        if line < self.after.len() {
            self.after.truncate(line);
        }
    }

    /// The state that `line` is entered with.
    ///
    /// A slot that exists is returned as it is. Where the cache ends before `line`, it is
    /// first grown up to slot `line` with copies of its last state, which stand in for the
    /// lines not yet visited until those are highlighted.
    pub fn get_or_extend(&mut self, line: usize) -> (state: LineState)
        ensures
            final(self)@ == extended(old(self)@, line as int),
            state == final(self)@[line as int],
    {
        let ghost before = self@;
        while self.after.len() < line
            invariant
                self@.len() >= before.len() >= 1,
                self@.len() <= line + 1 || self@ == before,
                self@ == before + Seq::new((self@.len() - before.len()) as nat, |i: int| before.last()),
            decreases line - self.after@.len(),
        {
            let ghost grown = self@;
            let last = if self.after.len() == 0 {
                self.start.duplicate()
            } else {
                self.after[self.after.len() - 1].duplicate()
            };
            self.after.push(last);
            proof {
                assert(last == grown.last());
                assert(grown.last() == before.last());
                assert(self@ =~= grown.push(last));
                let n = self@.len() - before.len();
                assert(self@ =~= before + Seq::new(n as nat, |i: int| before.last()));
            }
        }
        proof {
            if line < before.len() {
                assert(self@ =~= before);
            }
        }
        if line == 0 {
            self.start.duplicate()
        } else {
            self.after[line - 1].duplicate()
        }
    }

    /// Keeps `state` as the snapshot taken after `line`, in slot `line + 1`. The slot that
    /// `line` is entered with has to be there; what slot `line + 1` held before is
    /// overwritten.
    pub fn store_after(&mut self, line: usize, state: LineState)
        requires
            line < old(self)@.len(),
        ensures
            final(self)@ == stored(old(self)@, line + 1, state),
    {
        if line < self.after.len() {
            self.after.set(line, state);
            proof {
                assert(self@ =~= stored(old(self)@, line + 1, state));
            }
        } else {
            self.after.push(state);
            proof {
                assert(self@ =~= stored(old(self)@, line + 1, state));
            }
        }
    }
}

} // verus!
