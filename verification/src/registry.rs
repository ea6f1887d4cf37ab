//! The grammar registry: from a file extension to a grammar, whatever the extension.

use vstd::prelude::*;
use syntect::parsing::{ParseState, SyntaxReference, SyntaxSet};
use crate::bindings::{
    default_syntaxes, find_by_extension, find_by_name, initial_parse_state, loaded, loaded_grammar,
    name_of, parse_start, parses_with, plain_text_syntaxes, syntax_by_extension, syntax_by_name,
    syntax_name,
};
use crate::text::ascii_lowercase;

verus! {

/// The name of the grammar that stands in where no other is known.
pub open spec fn plain_text() -> Seq<char> {
    "Plain Text"@
}

/// The grammar that `set` has for `extension`: the one registered for the extension, letter
/// case set aside, or the plain-text grammar where there is none.
pub open spec fn resolution(set: SyntaxSet, extension: Seq<char>) -> SyntaxReference {
    match syntax_by_extension(set, ascii_lowercase(extension)) {
        Some(syntax) => syntax,
        None => syntax_by_name(set, plain_text())->0,
    }
}

/// A set of grammars that holds a plain-text grammar to fall back on.
///
/// The grammars are those that the engine loads itself; they are loaded once and never
/// change afterwards.
pub struct GrammarRegistry {
    syntaxes: SyntaxSet,
}

/// One grammar of a registry.
pub struct Grammar<'a> {
    syntax: &'a SyntaxReference,
}

impl View for GrammarRegistry {
    type V = SyntaxSet;

    /// The grammars held.
    closed spec fn view(&self) -> SyntaxSet {
        self.syntaxes
    }
}

impl<'a> View for Grammar<'a> {
    type V = SyntaxReference;

    closed spec fn view(&self) -> SyntaxReference {
        *self.syntax
    }
}

impl GrammarRegistry {
    /// A registry is well formed when the engine has loaded its set itself and the set holds
    /// the plain-text grammar.
    pub open spec fn wf(&self) -> bool {
        &&& loaded(self@)
        &&& syntax_by_name(self@, plain_text()) is Some
    }

    #[verifier::type_invariant]
    closed spec fn inv(self) -> bool {
        self.wf()
    }

    /// A registry over the grammars that ship with the engine. Should they lack a plain-text
    /// grammar, the registry holds the plain-text grammar alone, so that every document is
    /// shown, if in one colour.
    pub fn with_defaults() -> (registry: GrammarRegistry)
        ensures
            registry.wf(),
    {
        let syntaxes = default_syntaxes();
        let found = find_by_name(&syntaxes, "Plain Text").is_some();
        if found {
            GrammarRegistry { syntaxes }
        } else {
            GrammarRegistry::minimal()
        }
    }

    /// A registry that holds the plain-text grammar and no other.
    pub fn minimal() -> (registry: GrammarRegistry)
        ensures
            registry.wf(),
    {
        GrammarRegistry { syntaxes: plain_text_syntaxes() }
    }

    /// The grammars held, for the engine to parse with.
    pub fn syntaxes(&self) -> (syntaxes: &SyntaxSet)
        ensures
            *syntaxes == self@,
            self.wf(),
    {
        proof {
            use_type_invariant(self);
        }
        &self.syntaxes
    }

    /// The grammar for `extension`. Letter case is ignored, and an extension that is empty
    /// or unknown gets the plain-text grammar: there is no extension for which this fails.
    pub fn resolve(&self, extension: &str) -> (grammar: Grammar<'_>)
        ensures
            self.wf(),
            grammar@ == resolution(self@, extension@),
            syntax_by_extension(self@, ascii_lowercase(extension@)) is None ==> syntax_name(grammar@)
                == plain_text(),
            loaded_grammar(grammar@),
            parses_with(initial_parse_state(grammar@), self@),
    {
        proof {
            use_type_invariant(self);
        }
        match find_by_extension(&self.syntaxes, extension) {
            Some(syntax) => Grammar { syntax },
            None => {
                match find_by_name(&self.syntaxes, "Plain Text") {
                    Some(syntax) => Grammar { syntax },
                    None => vstd::pervasive::unreached(),
                }
            },
        }
    }
}

impl<'a> Grammar<'a> {
    #[verifier::type_invariant]
    closed spec fn inv(self) -> bool {
        loaded_grammar(*self.syntax)
    }

    /// The grammar's name, such as `Rust` or `Plain Text`.
    pub fn name(&self) -> (name: String)
        ensures
            name@ == syntax_name(self@),
    {
        name_of(self.syntax)
    }

    /// The parser state at the start of a document in this grammar.
    pub fn start(&self) -> (state: ParseState)
        ensures
            state == initial_parse_state(self@),
    {
        proof {
            use_type_invariant(self);
        }
        parse_start(self.syntax)
    }
}

/// Two extensions that differ in letter case only resolve to the same grammar.
pub proof fn lemma_resolve_ignores_case(registry: GrammarRegistry, a: Seq<char>, b: Seq<char>)
    requires
        ascii_lowercase(a) == ascii_lowercase(b),
    ensures
        resolution(registry@, a) == resolution(registry@, b),
{
}

/// An extension that the set does not know resolves to the plain-text grammar.
pub proof fn lemma_unknown_is_plain_text(registry: GrammarRegistry, extension: Seq<char>)
    requires
        registry.wf(),
        syntax_by_extension(registry@, ascii_lowercase(extension)) is None,
    ensures
        Some(resolution(registry@, extension)) == syntax_by_name(registry@, plain_text()),
{
}

} // verus!
