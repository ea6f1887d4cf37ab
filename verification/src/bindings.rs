//! The grammar engine this crate builds on: the `syntect` types that pass through the
//! highlighter, and the calls it makes into them.
//!
//! Nothing in this file is proved. Each item states, in its contract, what is taken on
//! trust about the code behind it.

use vstd::prelude::*;
use vstd::utf8::{encode_utf8, is_char_boundary};
use syntect::highlighting::{HighlightIterator, HighlightState, Highlighter, Theme};
use syntect::parsing::{
    ParseState, ScopeStack, ScopeStackOp, SyntaxReference, SyntaxSet, SyntaxSetBuilder,
};
use crate::color::Rgba;
use crate::text::ascii_lowercase;

verus! {

/// `syntect::parsing::SyntaxSet`: a set of grammars linked together.
#[verifier::external_type_specification]
#[verifier::external_body]
pub struct ExSyntaxSet(SyntaxSet);

/// `syntect::parsing::SyntaxReference`: one grammar of a set.
#[verifier::external_type_specification]
#[verifier::external_body]
pub struct ExSyntaxReference(SyntaxReference);

/// `syntect::parsing::ParseState`: the parser's context stack between two lines.
#[verifier::external_type_specification]
#[verifier::external_body]
pub struct ExParseState(ParseState);

/// `syntect::parsing::ScopeStackOp`: one change to the scope stack, reported by the parser.
#[verifier::external_type_specification]
#[verifier::external_body]
pub struct ExScopeStackOp(ScopeStackOp);

/// `syntect::highlighting::HighlightState`: the stack of scopes and styles between two lines.
#[verifier::external_type_specification]
#[verifier::external_body]
pub struct ExHighlightState(HighlightState);

/// `syntect::highlighting::Theme`: the style rules that scopes are resolved against.
#[verifier::external_type_specification]
#[verifier::external_body]
pub struct ExTheme(Theme);

/// Whether `set` is one that syntect made itself, from the dump it ships or with its own
/// loader of grammar files. Such a set has, in each of its grammars, the context that
/// parsing starts in, and its regular expressions were tested when the grammar files were
/// read. A set put together by hand from `SyntaxDefinition` values need have neither, and
/// the parser may panic on it.
pub uninterp spec fn loaded(set: SyntaxSet) -> bool;

/// Whether `syntax` is a grammar of a set that syntect made itself.
pub uninterp spec fn loaded_grammar(syntax: SyntaxReference) -> bool;

/// What `SyntaxSet::find_syntax_by_extension` returns for `set` and an `extension` that is
/// written in lower case.
pub uninterp spec fn syntax_by_extension(set: SyntaxSet, extension: Seq<char>) -> Option<SyntaxReference>;

/// What `SyntaxSet::find_syntax_by_name` returns for `set` and `name`.
pub uninterp spec fn syntax_by_name(set: SyntaxSet, name: Seq<char>) -> Option<SyntaxReference>;

/// The `name` field of `syntax`.
pub uninterp spec fn syntax_name(syntax: SyntaxReference) -> Seq<char>;

/// What `ParseState::new` returns for `syntax`.
pub uninterp spec fn initial_parse_state(syntax: SyntaxReference) -> ParseState;

/// Whether `state` was made from a grammar of `set` and has parsed with no other set, which
/// is what `ParseState::parse_line` asks of the two. It is said of states of sets that
/// syntect made itself, and of no other.
pub uninterp spec fn parses_with(state: ParseState, set: SyntaxSet) -> bool;

/// What `ParseState::parse_line` does with `state`, `line` and `set`: the state it leaves
/// behind and the scope changes it reports, `None` where it reports an error.
pub uninterp spec fn parse_outcome(state: ParseState, line: Seq<char>, set: SyntaxSet) -> (
    ParseState,
    Option<Seq<(usize, ScopeStackOp)>>,
);

/// What `HighlightState::new` returns for a highlighter of `theme` and an empty scope stack.
pub uninterp spec fn initial_highlight_state(theme: Theme) -> HighlightState;

/// What a `HighlightIterator` over `state`, `ops` and `line`, with a highlighter of `theme`,
/// does when it is run to its end: the state it leaves behind, and the foreground colour and
/// byte length of each piece it yields, in order.
pub uninterp spec fn highlight_outcome(
    state: HighlightState,
    ops: Seq<(usize, ScopeStackOp)>,
    line: Seq<char>,
    theme: Theme,
) -> (HighlightState, Seq<(Rgba, usize)>);

/// The scope changes of `ops` can be laid over `line`: their byte positions never go back,
/// none lies past the end of the line, and none falls inside a character.
pub open spec fn ops_fit(ops: Seq<(usize, ScopeStackOp)>, line: Seq<char>) -> bool {
    &&& forall|i: int|
        0 <= i < ops.len() ==> (#[trigger] ops[i]).0 <= encode_utf8(line).len()
            && is_char_boundary(encode_utf8(line), ops[i].0 as int)
    &&& forall|i: int, j: int| 0 <= i <= j < ops.len() ==> (#[trigger] ops[i]).0 <= (#[trigger] ops[j]).0
}

/// The scope changes as a sequence, where the parser gave any.
pub open spec fn ops_view(ops: Option<Vec<(usize, ScopeStackOp)>>) -> Option<Seq<(usize, ScopeStackOp)>> {
    match ops {
        Some(v) => Some(v@),
        None => None,
    }
}

/// The grammar found, where one was.
pub open spec fn syntax_view(found: Option<&SyntaxReference>) -> Option<SyntaxReference> {
    match found {
        Some(s) => Some(*s),
        None => None,
    }
}

/// `SyntaxSet::load_defaults_newlines`: the grammars that ship with syntect, for lines that
/// end in a newline. The set is read from syntect's own dump; nothing is claimed of which
/// grammars it holds.
#[verifier::external_body]
pub(crate) fn default_syntaxes() -> (set: SyntaxSet)
    ensures
        loaded(set),
{
    SyntaxSet::load_defaults_newlines()
}

/// A set built from a fresh `SyntaxSetBuilder` after `add_plain_text_syntax`, which adds a
/// grammar without rules under the name `Plain Text`: the set holds that grammar and no
/// other. The grammar goes through syntect's loader of grammar files.
#[verifier::external_body]
pub(crate) fn plain_text_syntaxes() -> (set: SyntaxSet)
    ensures
        loaded(set),
        syntax_by_name(set, "Plain Text"@) is Some,
{
    let mut builder = SyntaxSetBuilder::new();
    builder.add_plain_text_syntax();
    builder.build()
}

/// `SyntaxSet::find_syntax_by_extension`. It holds `extension` against the extensions of
/// each grammar with `eq_ignore_ascii_case`, so what it finds is what it finds for the
/// extension in lower case. The grammar found is one of `set`: where syntect made the set,
/// it made the grammar, and the grammar's start state parses with `set`.
#[verifier::external_body]
pub(crate) fn find_by_extension<'a>(set: &'a SyntaxSet, extension: &str) -> (found: Option<&'a SyntaxReference>)
    ensures
        syntax_view(found) == syntax_by_extension(*set, ascii_lowercase(extension@)),
        loaded(*set) ==> (found matches Some(s) ==> loaded_grammar(*s) && parses_with(
            initial_parse_state(*s),
            *set,
        )),
{
    set.find_syntax_by_extension(extension)
}

/// `SyntaxSet::find_syntax_by_name`. The grammar found carries the name asked for and is one
/// of `set`: where syntect made the set, it made the grammar, and the grammar's start state
/// parses with `set`.
#[verifier::external_body]
pub(crate) fn find_by_name<'a>(set: &'a SyntaxSet, name: &str) -> (found: Option<&'a SyntaxReference>)
    ensures
        syntax_view(found) == syntax_by_name(*set, name@),
        found matches Some(s) ==> syntax_name(*s) == name@,
        loaded(*set) ==> (found matches Some(s) ==> loaded_grammar(*s) && parses_with(
            initial_parse_state(*s),
            *set,
        )),
{
    set.find_syntax_by_name(name)
}

/// Reads the public field `name` of a `SyntaxReference`.
#[verifier::external_body]
pub(crate) fn name_of(syntax: &SyntaxReference) -> (name: String)
    ensures
        name@ == syntax_name(*syntax),
{
    syntax.name.clone()
}

/// `ParseState::new`, which looks up the context that parsing starts in. A grammar that
/// syntect made has that context.
#[verifier::external_body]
pub(crate) fn parse_start(syntax: &SyntaxReference) -> (state: ParseState)
    requires
        loaded_grammar(*syntax),
    ensures
        state == initial_parse_state(*syntax),
{
    ParseState::new(syntax)
}

/// `ParseState::parse_line`, with its error turned into `None`. It is called on sets that
/// syntect made and on states of such a set only: the parser trusts the grammars to be
/// sound. The state stays one of `set` whatever the outcome.
#[verifier::external_body]
pub(crate) fn parse_line(state: &mut ParseState, line: &str, set: &SyntaxSet) -> (ops: Option<Vec<(usize, ScopeStackOp)>>)
    requires
        loaded(*set),
        parses_with(*old(state), *set),
    ensures
        (*final(state), ops_view(ops)) == parse_outcome(*old(state), line@, *set),
        parses_with(*final(state), *set),
{
    state.parse_line(line, set).ok()
}

/// `HighlightState::new` on a fresh `Highlighter` for `theme` and an empty `ScopeStack`.
#[verifier::external_body]
pub(crate) fn highlight_start(theme: &Theme) -> (state: HighlightState)
    ensures
        state == initial_highlight_state(*theme),
{
    HighlightState::new(&Highlighter::new(theme), ScopeStack::new())
}

/// Runs a `HighlightIterator` to its end and keeps, of each piece, the foreground colour of
/// its style and its length in bytes. The iterator slices `line` at the positions of `ops`,
/// which is why they have to fit. Nothing is claimed of how much of the line the pieces
/// cover.
#[verifier::external_body]
pub(crate) fn highlight_pieces(
    state: &mut HighlightState,
    ops: &Vec<(usize, ScopeStackOp)>,
    line: &str,
    theme: &Theme,
) -> (pieces: Vec<(Rgba, usize)>)
    requires
        ops_fit(ops@, line@),
    ensures
        (*final(state), pieces@) == highlight_outcome(*old(state), ops@, line@, *theme),
{
    let highlighter = Highlighter::new(theme);
    HighlightIterator::new(state, ops, line, &highlighter)
        .map(|(style, piece)| {
            let c = style.foreground;
            (Rgba { r: c.r, g: c.g, b: c.b, a: c.a }, piece.len())
        })
        .collect()
}

/// `Clone` of a `ParseState` is derived: the copy equals the state it was made from.
pub assume_specification[ <ParseState as Clone>::clone ](state: &ParseState) -> (copy: ParseState)
    ensures
        copy == *state,
;

/// `Clone` of a `HighlightState` is derived: the copy equals the state it was made from.
pub assume_specification[ <HighlightState as Clone>::clone ](state: &HighlightState) -> (copy: HighlightState)
    ensures
        copy == *state,
;

} // verus!
