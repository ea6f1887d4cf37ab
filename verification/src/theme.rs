//! The theme map: from a scope name to a display colour.
//!
//! A scope is a dotted name such as `string.quoted.double`. A rule for `string` colours every
//! scope below it, unless a longer rule matches as well: the longest matching rule wins, and
//! a scope that no rule matches gets the default colour.

use vstd::prelude::*;
use vstd::slice::*;
use vstd::utf8::encode_utf8;
use syntect::highlighting::Theme;
use crate::color::Rgba;

verus! {

/// One rule of a theme: the scope it is written for and the colour it gives.
pub struct ThemeEntry {
    pub scope: String,
    pub color: Rgba,
}

/// The theme of a session: the style rules that the grammar engine resolves token scopes
/// against, the colour rules of the editor itself, and the colour of text that no rule
/// speaks of.
pub struct ThemeMap {
    styles: Theme,
    entries: Vec<ThemeEntry>,
    default_color: Rgba,
}

/// A theme as a value: what a [`ThemeMap`] holds.
pub struct ThemeView {
    pub styles: Theme,
    pub entries: Seq<ThemeEntry>,
    pub default_color: Rgba,
}

/// `rule` names `scope` or one of the scopes above it: it is the whole of `scope`, or what
/// stands in `scope` before one of its dots.
pub open spec fn covers(rule: Seq<u8>, scope: Seq<u8>) -> bool {
    &&& rule.len() <= scope.len()
    &&& scope.take(rule.len() as int) == rule
    &&& (rule.len() == scope.len() || scope[rule.len() as int] == 0x2E)
}

/// The bytes of the scope that entry `i` is written for.
pub open spec fn rule_of(entries: Seq<ThemeEntry>, i: int) -> Seq<u8> {
    encode_utf8(entries[i].scope@)
}

/// The index of the rule that wins for `scope` among the first `n` entries: the longest one
/// that covers the scope, and of several that long the first.
pub open spec fn winner(entries: Seq<ThemeEntry>, scope: Seq<u8>, n: int) -> Option<int>
    decreases n,
{
    if n <= 0 {
        None
    } else {
        let before = winner(entries, scope, n - 1);
        if covers(rule_of(entries, n - 1), scope) && (before is None || rule_of(
            entries,
            before->0,
        ).len() < rule_of(entries, n - 1).len()) {
            Some(n - 1)
        } else {
            before
        }
    }
}

impl ThemeView {
    /// The colour of `scope`: that of the winning rule, or the default colour where no rule
    /// covers the scope.
    pub open spec fn color_of(self, scope: Seq<char>) -> Rgba {
        match winner(self.entries, encode_utf8(scope), self.entries.len() as int) {
            Some(i) => self.entries[i].color,
            None => self.default_color,
        }
    }
}

impl View for ThemeMap {
    type V = ThemeView;

    closed spec fn view(&self) -> ThemeView {
        ThemeView { styles: self.styles, entries: self.entries@, default_color: self.default_color }
    }
}

fn rule_covers(rule: &[u8], scope: &[u8]) -> (yes: bool)
    ensures
        yes == covers(rule@, scope@),
{
    if rule.len() > scope.len() {
        return false;
    }
    let mut i: usize = 0;
    while i < rule.len()
        invariant
            0 <= i <= rule@.len() <= scope@.len(),
            scope@.take(i as int) == rule@.take(i as int),
        decreases rule@.len() - i,
    {
        if rule[i] != scope[i] {
            proof {
                assert(scope@.take(rule@.len() as int)[i as int] != rule@[i as int]);
            }
            return false;
        }
        proof {
            assert(scope@.take(i as int + 1) =~= scope@.take(i as int).push(scope@[i as int]));
            assert(rule@.take(i as int + 1) =~= rule@.take(i as int).push(rule@[i as int]));
        }
        i = i + 1;
    }
    proof {
        assert(rule@.take(rule@.len() as int) =~= rule@);
    }
    rule.len() == scope.len() || scope[rule.len()] == 0x2E
}

impl ThemeMap {
    /// A theme of the style rules `styles` and the colour rules `entries`, with
    /// `default_color` for what no rule covers.
    pub fn new(styles: Theme, entries: Vec<ThemeEntry>, default_color: Rgba) -> (map: ThemeMap)
        ensures
            map@ == (ThemeView { styles, entries: entries@, default_color }),
    {
        ThemeMap { styles, entries, default_color }
    }

    /// The colour of text that no rule speaks of.
    pub fn default_color(&self) -> (color: Rgba)
        ensures
            color == self@.default_color,
    {
        self.default_color
    }

    /// The style rules that the grammar engine works with.
    pub fn styles(&self) -> (styles: &Theme)
        ensures
            *styles == self@.styles,
    {
        &self.styles
    }

    /// The colour for `scope`. Never fails: a scope that no rule covers gets the default
    /// colour.
    pub fn color_for(&self, scope: &str) -> (color: Rgba)
        ensures
            color == self@.color_of(scope@),
    {
        let wanted = scope.as_bytes();
        let mut best: Option<usize> = None;
        let mut best_len: usize = 0;
        let mut i: usize = 0;
        while i < self.entries.len()
            invariant
                0 <= i <= self.entries@.len(),
                wanted@ == encode_utf8(scope@),
                match best {
                    Some(b) => winner(self.entries@, wanted@, i as int) == Some(b as int) && b < i
                        && best_len == rule_of(self.entries@, b as int).len(),
                    None => winner(self.entries@, wanted@, i as int) is None,
                },
            decreases self.entries@.len() - i,
        {
            let rule = self.entries[i].scope.as_str().as_bytes();
            if rule_covers(rule, wanted) && (best.is_none() || best_len < rule.len()) {
                best = Some(i);
                best_len = rule.len();
            }
            i = i + 1;
        }
        match best {
            Some(b) => self.entries[b].color,
            None => self.default_color,
        }
    }
}

/// The longest match wins: the winning rule covers the scope, and no rule that covers the
/// scope is longer, nor as long and earlier.
pub proof fn lemma_longest_match_wins(entries: Seq<ThemeEntry>, scope: Seq<u8>, n: int)
    requires
        0 <= n <= entries.len(),
    ensures
        match winner(entries, scope, n) {
            Some(w) => {
                &&& 0 <= w < n
                &&& covers(rule_of(entries, w), scope)
                &&& forall|j: int|
                    0 <= j < n && covers(#[trigger] rule_of(entries, j), scope) ==> {
                        ||| rule_of(entries, j).len() < rule_of(entries, w).len()
                        ||| rule_of(entries, j).len() == rule_of(entries, w).len() && w <= j
                    }
            },
            None => forall|j: int| 0 <= j < n ==> !covers(#[trigger] rule_of(entries, j), scope),
        },
    decreases n,
{
    if n > 0 {
        lemma_longest_match_wins(entries, scope, n - 1);
    }
}

} // verus!
