//! The highlighter of one open document.
//!
//! A session binds a grammar and a theme to a cache of line states. The editor asks it for
//! the spans of the lines it shows and tells it of every edit; the session answers from the
//! states it has kept and parses no line twice that no edit has touched.

use vstd::prelude::*;
use syntect::parsing::SyntaxSet;
use crate::bindings::{
    initial_highlight_state, initial_parse_state, loaded, parses_with, syntax_by_name,
};
use crate::cache::{extended, stored, truncated, LineCache, LineState};
use crate::registry::{plain_text, resolution, GrammarRegistry};
use crate::spans::{tiles, Span};
use crate::theme::{ThemeMap, ThemeView};
use crate::token::{aligned, byte_len, step, tokenize};

verus! {

/// What a session is configured with.
#[derive(Clone, Debug)]
pub struct Settings {
    /// The file extension that picks the grammar, such as `rs`, `py` or `js`.
    pub extension: String,
}

impl PartialEq for Settings {
    fn eq(&self, other: &Settings) -> (equal: bool) {
        self.extension == other.extension
    }
}

impl vstd::std_specs::cmp::PartialEqSpecImpl for Settings {
    open spec fn obeys_eq_spec() -> bool {
        true
    }

    open spec fn eq_spec(&self, other: &Settings) -> bool {
        self.extension@ == other.extension@
    }
}

/// The highlighting session of one document.
pub struct VscodeHighlighter {
    registry: GrammarRegistry,
    theme: ThemeMap,
    settings: Settings,
    cache: LineCache,
    current_line: usize,
}

/// A session as a value.
pub struct SessionView {
    /// The grammars of the session's registry.
    pub syntaxes: SyntaxSet,
    /// The session's theme.
    pub theme: ThemeView,
    /// The extension that the session is configured for.
    pub extension: Seq<char>,
    /// The cache: slot `i` is the state that line `i` is entered with.
    pub slots: Seq<LineState>,
    /// The line after the one highlighted last.
    pub current_line: usize,
}

/// The state at the start of a document with the given extension.
pub open spec fn start_state(syntaxes: SyntaxSet, theme: ThemeView, extension: Seq<char>) -> LineState {
    LineState {
        parse: initial_parse_state(resolution(syntaxes, extension)),
        highlight: initial_highlight_state(theme.styles),
    }
}

/// The line after `line`.
pub open spec fn line_after(line: usize) -> usize {
    if line < usize::MAX {
        (line + 1) as usize
    } else {
        line
    }
}

impl SessionView {
    /// What holds of every session: the engine has loaded its grammars itself and there is a
    /// plain-text grammar among them, the current line has a slot, slot 0 is the start state
    /// of the configured extension, and every slot holds a parser state of the session's own
    /// grammars.
    pub open spec fn wf(self) -> bool {
        &&& loaded(self.syntaxes)
        &&& syntax_by_name(self.syntaxes, plain_text()) is Some
        &&& self.current_line < self.slots.len()
        &&& self.slots[0] == start_state(self.syntaxes, self.theme, self.extension)
        &&& forall|i: int|
            0 <= i < self.slots.len() ==> parses_with((#[trigger] self.slots[i]).parse, self.syntaxes)
    }

    /// This session configured for `extension`: the cache holds the start state and nothing
    /// else.
    pub open spec fn configured(self, extension: Seq<char>) -> SessionView {
        SessionView {
            extension,
            slots: seq![start_state(self.syntaxes, self.theme, extension)],
            current_line: 0,
            ..self
        }
    }

    /// The state that `line` is entered with: its slot, or the last slot there is where the
    /// cache ends before it.
    pub open spec fn entering(self, line: int) -> LineState {
        extended(self.slots, line)[line]
    }

    /// The spans of `line` with the text `text`.
    pub open spec fn spans_at(self, line: int, text: Seq<char>) -> Seq<Span> {
        step(self.syntaxes, self.theme, self.entering(line), text).0
    }

    /// This session after `line` was highlighted with the text `text`: the cache reaches up
    /// to `line` and holds, in slot `line + 1`, the state that the line was left with.
    pub open spec fn after_highlight(self, line: usize, text: Seq<char>) -> SessionView {
        SessionView {
            slots: stored(
                extended(self.slots, line as int),
                line + 1,
                step(self.syntaxes, self.theme, self.entering(line as int), text).1,
            ),
            current_line: line_after(line),
            ..self
        }
    }

    /// This session after an edit whose first changed line is `line`: what the cache held for
    /// the lines before `line` stays, the rest is gone.
    pub open spec fn after_edit(self, line: usize) -> SessionView {
        SessionView {
            slots: truncated(self.slots, line as int),
            current_line: if line < self.current_line {
                line
            } else {
                self.current_line
            },
            ..self
        }
    }
}

impl View for VscodeHighlighter {
    type V = SessionView;

    closed spec fn view(&self) -> SessionView {
        SessionView {
            syntaxes: self.registry@,
            theme: self.theme@,
            extension: self.settings.extension@,
            slots: self.cache@,
            current_line: self.current_line,
        }
    }
}

impl VscodeHighlighter {
    /// Whether this session is well formed, as every session made by [`Self::new`] is and
    /// stays.
    pub open spec fn wf(&self) -> bool {
        self@.wf()
    }

    /// A session for a document with the extension of `settings`, over the grammars of
    /// `registry` and styled by `theme`.
    pub fn new(settings: &Settings, registry: GrammarRegistry, theme: ThemeMap) -> (session: VscodeHighlighter)
        ensures
            session.wf(),
            session@ == (SessionView {
                syntaxes: registry@,
                theme: theme@,
                extension: settings.extension@,
                slots: seq![start_state(registry@, theme@, settings.extension@)],
                current_line: 0,
            }),
    {
        let start = {
            let grammar = registry.resolve(settings.extension.as_str());
            LineState::start(&grammar, &theme)
        };
        VscodeHighlighter {
            registry,
            theme,
            settings: Settings { extension: settings.extension.clone() },
            cache: LineCache::new(start),
            current_line: 0,
        }
    }

    /// Binds the session to the grammar for `extension` and clears the cache to that
    /// grammar's start state.
    pub fn configure(&mut self, extension: &str)
        requires
            old(self).wf(),
        ensures
            final(self).wf(),
            final(self)@ == old(self)@.configured(extension@),
    {
        let start = {
            let grammar = self.registry.resolve(extension);
            LineState::start(&grammar, &self.theme)
        };
        self.settings = Settings { extension: extension.to_owned() };
        self.cache.reset(start);
        self.current_line = 0;
    }

    /// Configures the session for the extension of `new_settings`.
    pub fn update(&mut self, new_settings: &Settings)
        requires
            old(self).wf(),
        ensures
            final(self).wf(),
            final(self)@ == old(self)@.configured(new_settings.extension@),
    {
        self.configure(new_settings.extension.as_str());
    }

    /// Tells the session that the document has changed, `line` being the first line whose
    /// text is no longer what it was.
    pub fn notify_edit(&mut self, line: usize)
        requires
            old(self).wf(),
        ensures
            final(self).wf(),
            final(self)@ == old(self)@.after_edit(line),
    {
        if line < self.current_line {
            self.current_line = line;
        }
        self.cache.truncate_from(line);
    }

    /// The coloured spans of line `line`, whose text is `text`.
    ///
    /// The spans are in ascending order and tile the bytes of `text` with no gap and no
    /// overlap; none is empty and none cuts a character in two. The state that the line is left with is kept for the line after it, in
    /// place of whatever was kept there before.
    pub fn highlight_line(&mut self, line: usize, text: &str) -> (spans: Vec<Span>)
        requires
            old(self).wf(),
        ensures
            final(self).wf(),
            spans@ == old(self)@.spans_at(line as int, text@),
            final(self)@ == old(self)@.after_highlight(line, text@),
            tiles(spans@, byte_len(text@)),
            aligned(spans@, text@),
    {
        let entering = self.cache.get_or_extend(line);
        let (spans, exit) = tokenize(&self.registry, &self.theme, &entering, text);
        self.cache.store_after(line, exit);
        self.current_line = if line < usize::MAX {
            line + 1
        } else {
            line
        };
        spans
    }

    /// The line that the session expects next: the one after the line highlighted last.
    pub fn current_line(&self) -> (line: usize)
        ensures
            line == self@.current_line,
    {
        self.current_line
    }

    /// What the session is configured with.
    pub fn settings(&self) -> (settings: &Settings)
        ensures
            settings.extension@ == self@.extension,
    {
        &self.settings
    }
}

} // verus!
