use std::ops::Range;
use syntect::highlighting::ThemeSet;
use whistler::cache::{LineCache, LineState};
use whistler::color::Rgba;
use whistler::registry::GrammarRegistry;
use whistler::spans::{lay_out, rest_spans, Highlight};
use whistler::theme::ThemeMap;
use whistler::token::tokenize;

const DEFAULT_TEXT: Rgba = Rgba { r: 192, g: 197, b: 206, a: 255 };
const COMMENT: Rgba = Rgba { r: 101, g: 115, b: 126, a: 255 };
const RED: Rgba = Rgba { r: 255, g: 0, b: 0, a: 255 };
const BLUE: Rgba = Rgba { r: 0, g: 0, b: 255, a: 255 };

fn theme() -> ThemeMap {
    ThemeMap::new(ThemeSet::load_defaults().themes["base16-ocean.dark"].clone(), Vec::new(), DEFAULT_TEXT)
}

fn same(a: &LineState, b: &LineState) -> bool {
    a.parse == b.parse && a.highlight == b.highlight
}

/// The start state and the states after one, two and three lines that open a comment each.
fn states() -> Vec<LineState> {
    let registry = GrammarRegistry::with_defaults();
    let theme = theme();
    let mut all = vec![LineState::start(&registry.resolve("rs"), &theme)];
    for text in ["mod a {", "fn b() {", "/* c"] {
        let (_, next) = tokenize(&registry, &theme, all.last().unwrap(), text);
        assert!(!all.iter().any(|s| same(s, &next)));
        all.push(next);
    }
    all
}

fn slots(cache: &mut LineCache) -> Vec<LineState> {
    (0..=cache.lines()).map(|i| cache.get_or_extend(i)).collect()
}

fn assert_slots(cache: &mut LineCache, expected: &[&LineState]) {
    assert_eq!(cache.lines() + 1, expected.len());
    for (slot, state) in slots(cache).iter().zip(expected) {
        assert!(same(slot, state));
    }
}

#[test]
fn a_new_cache_holds_the_start_state() {
    let s = states();
    let mut cache = LineCache::new(s[0].duplicate());
    assert_eq!(cache.lines(), 0);
    assert!(same(&cache.get_or_extend(0), &s[0]));
    assert_eq!(cache.lines(), 0);
}

#[test]
fn store_after_appends_or_overwrites() {
    let s = states();
    let mut cache = LineCache::new(s[0].duplicate());
    cache.store_after(0, s[1].duplicate());
    cache.store_after(1, s[2].duplicate());
    assert_slots(&mut cache, &[&s[0], &s[1], &s[2]]);
    cache.store_after(0, s[3].duplicate());
    assert_slots(&mut cache, &[&s[0], &s[3], &s[2]]);
}

#[test]
fn get_or_extend_returns_what_is_there() {
    let s = states();
    let mut cache = LineCache::new(s[0].duplicate());
    cache.store_after(0, s[1].duplicate());
    cache.store_after(1, s[2].duplicate());
    assert!(same(&cache.get_or_extend(1), &s[1]));
    assert!(same(&cache.get_or_extend(2), &s[2]));
    assert_eq!(cache.lines(), 2);
}

#[test]
fn get_or_extend_grows_the_cache_with_copies_of_the_last_state() {
    let s = states();
    let mut cache = LineCache::new(s[0].duplicate());
    cache.store_after(0, s[1].duplicate());
    assert!(same(&cache.get_or_extend(2), &s[1]));
    assert_slots(&mut cache, &[&s[0], &s[1], &s[1]]);
    assert!(same(&cache.get_or_extend(5), &s[1]));
    assert_slots(&mut cache, &[&s[0], &s[1], &s[1], &s[1], &s[1], &s[1]]);
}

#[test]
fn truncate_from_keeps_the_state_the_line_is_entered_with() {
    let s = states();
    let mut cache = LineCache::new(s[0].duplicate());
    for i in 0..3 {
        cache.store_after(i, s[i + 1].duplicate());
    }
    cache.truncate_from(2);
    assert_slots(&mut cache, &[&s[0], &s[1], &s[2]]);
    cache.truncate_from(7);
    assert_slots(&mut cache, &[&s[0], &s[1], &s[2]]);
    cache.truncate_from(1);
    assert_slots(&mut cache, &[&s[0], &s[1]]);
    cache.truncate_from(0);
    assert_slots(&mut cache, &[&s[0]]);
    cache.truncate_from(0);
    assert_slots(&mut cache, &[&s[0]]);
    cache.truncate_from(usize::MAX);
    assert_slots(&mut cache, &[&s[0]]);
}

#[test]
fn reset_leaves_the_start_state_only() {
    let s = states();
    let mut cache = LineCache::new(s[0].duplicate());
    for i in 0..3 {
        cache.store_after(i, s[i + 1].duplicate());
    }
    cache.reset(s[2].duplicate());
    assert_slots(&mut cache, &[&s[2]]);
}

#[test]
fn the_start_state_depends_on_the_grammar() {
    let registry = GrammarRegistry::with_defaults();
    let theme = theme();
    let rust = LineState::start(&registry.resolve("rs"), &theme);
    let again = LineState::start(&registry.resolve("RS"), &theme);
    let python = LineState::start(&registry.resolve("py"), &theme);
    assert!(same(&rust, &again));
    assert!(!same(&rust, &python));
}

#[test]
fn tokenize_gives_spans_and_the_next_state() {
    let registry = GrammarRegistry::with_defaults();
    let theme = theme();
    let start = LineState::start(&registry.resolve("rs"), &theme);
    let (spans, inside) = tokenize(&registry, &theme, &start, "/* open");
    assert_eq!(spans.last().unwrap().0.end, 7);
    assert!(!same(&start, &inside));
    let (spans, still) = tokenize(&registry, &theme, &inside, "still a comment");
    assert_eq!(spans, vec![(0..15, Highlight(COMMENT))]);
    let (spans, _) = tokenize(&registry, &theme, &still, "");
    assert!(spans.is_empty());
    let (spans, out) = tokenize(&registry, &theme, &still, "*/");
    assert_eq!(spans.last().unwrap().0.end, 2);
    let (spans, _) = tokenize(&registry, &theme, &out, "x");
    assert_eq!(spans[0].1, Highlight(DEFAULT_TEXT));
}

fn ranges(spans: &[(Range<usize>, Highlight)]) -> Vec<(usize, usize, Rgba)> {
    spans.iter().map(|(r, h)| (r.start, r.end, h.0)).collect()
}

#[test]
fn pieces_that_cover_the_line_are_laid_end_to_end() {
    let (spans, covered) = lay_out(&vec![(RED, 2), (BLUE, 1), (RED, 4)], 7, DEFAULT_TEXT);
    assert!(covered);
    assert_eq!(ranges(&spans), vec![(0, 2, RED), (2, 3, BLUE), (3, 7, RED)]);
}

#[test]
fn what_the_pieces_leave_is_one_span_in_the_default_color() {
    let (spans, covered) = lay_out(&vec![(RED, 2), (BLUE, 1)], 7, DEFAULT_TEXT);
    assert!(!covered);
    assert_eq!(ranges(&spans), vec![(0, 2, RED), (2, 3, BLUE), (3, 7, DEFAULT_TEXT)]);
    let (spans, covered) = lay_out(&Vec::new(), 7, DEFAULT_TEXT);
    assert!(!covered);
    assert_eq!(ranges(&spans), vec![(0, 7, DEFAULT_TEXT)]);
}

#[test]
fn pieces_longer_than_the_line_are_dropped() {
    let (spans, covered) = lay_out(&vec![(RED, 2), (BLUE, 6)], 7, DEFAULT_TEXT);
    assert!(!covered);
    assert_eq!(ranges(&spans), vec![(0, 7, DEFAULT_TEXT)]);
    let (spans, covered) = lay_out(&vec![(RED, usize::MAX), (BLUE, usize::MAX)], 7, DEFAULT_TEXT);
    assert!(!covered);
    assert_eq!(ranges(&spans), vec![(0, 7, DEFAULT_TEXT)]);
    let (spans, covered) = lay_out(&vec![(RED, 1)], 0, DEFAULT_TEXT);
    assert!(!covered);
    assert!(spans.is_empty());
}

#[test]
fn no_pieces_cover_the_empty_line() {
    let (spans, covered) = lay_out(&Vec::new(), 0, DEFAULT_TEXT);
    assert!(covered);
    assert!(spans.is_empty());
}

#[test]
fn a_piece_without_length_gives_no_span() {
    let (spans, covered) = lay_out(&vec![(RED, 0), (BLUE, 3), (RED, 0)], 3, DEFAULT_TEXT);
    assert!(covered);
    assert_eq!(ranges(&spans), vec![(0, 3, BLUE)]);
    let (spans, covered) = lay_out(&vec![(RED, 0), (BLUE, 0)], 0, DEFAULT_TEXT);
    assert!(covered);
    assert!(spans.is_empty());
    let (spans, covered) = lay_out(&vec![(RED, 2), (BLUE, 0), (RED, 0), (BLUE, 1)], 5, DEFAULT_TEXT);
    assert!(!covered);
    assert_eq!(ranges(&spans), vec![(0, 2, RED), (2, 3, BLUE), (3, 5, DEFAULT_TEXT)]);
}

#[test]
fn the_rest_of_a_line_is_one_span_or_none() {
    assert_eq!(ranges(&rest_spans(2, 5, RED)), vec![(2, 5, RED)]);
    assert!(rest_spans(5, 5, RED).is_empty());
    assert!(rest_spans(6, 5, RED).is_empty());
    assert!(rest_spans(0, 0, RED).is_empty());
}
