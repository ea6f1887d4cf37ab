use std::ops::Range;
use syntect::highlighting::ThemeSet;
use whistler::color::Rgba;
use whistler::registry::GrammarRegistry;
use whistler::spans::Highlight;
use whistler::syntax::{Settings, VscodeHighlighter};
use whistler::theme::ThemeMap;

const DEFAULT_TEXT: Rgba = Rgba { r: 192, g: 197, b: 206, a: 255 };
const KEYWORD: Rgba = Rgba { r: 180, g: 142, b: 173, a: 255 };
const FUNCTION_NAME: Rgba = Rgba { r: 143, g: 161, b: 179, a: 255 };
const COMMENT: Rgba = Rgba { r: 101, g: 115, b: 126, a: 255 };

fn theme() -> ThemeMap {
    let styles = ThemeSet::load_defaults().themes["base16-ocean.dark"].clone();
    ThemeMap::new(styles, Vec::new(), DEFAULT_TEXT)
}

fn session(extension: &str) -> VscodeHighlighter {
    let registry = GrammarRegistry::with_defaults();
    VscodeHighlighter::new(&Settings { extension: extension.to_string() }, registry, theme())
}

fn assert_tiles(spans: &[(Range<usize>, Highlight)], text: &str) {
    let mut at = 0;
    for (range, _) in spans {
        assert_eq!(range.start, at, "gap or overlap in {:?}", spans);
        assert!(range.start < range.end, "empty span in {:?}", spans);
        assert!(text.is_char_boundary(range.start));
        assert!(text.is_char_boundary(range.end));
        at = range.end;
    }
    assert_eq!(at, text.len(), "spans {:?} do not end with the text", spans);
}

fn color_at(spans: &[(Range<usize>, Highlight)], byte: usize) -> Rgba {
    for (range, highlight) in spans {
        if range.start <= byte && byte < range.end {
            return highlight.0;
        }
    }
    panic!("no span over byte {}", byte);
}

fn document() -> Vec<String> {
    let mut lines = Vec::new();
    for i in 0..100 {
        let line = match i % 10 {
            0 => format!("fn item_{}() {{", i),
            1 => "    let text = \"a string that".to_string(),
            2 => "        goes on over the line\";".to_string(),
            3 => "    /* a comment that".to_string(),
            4 => "       goes on as well".to_string(),
            5 => "    */ let n = 1;".to_string(),
            6 => "    // let not = \"code\";".to_string(),
            7 => String::new(),
            8 => "    let ünïcode = 'é';".to_string(),
            _ => "}".to_string(),
        };
        lines.push(line);
    }
    lines
}

fn replay(extension: &str, lines: &[String], through: usize) -> Vec<Vec<(Range<usize>, Highlight)>> {
    let mut cold = session(extension);
    let mut all = Vec::new();
    for i in 0..=through {
        all.push(cold.highlight_line(i, &lines[i]));
    }
    all
}

#[test]
fn rust_keyword_name_and_comment_get_their_colors() {
    let mut s = session("rs");
    let first = s.highlight_line(0, "fn main() {");
    assert_tiles(&first, "fn main() {");
    assert_eq!(first[0], (0..2, Highlight(KEYWORD)));
    assert_eq!(color_at(&first, 3), FUNCTION_NAME);
    assert_eq!(color_at(&first, 6), FUNCTION_NAME);
    assert_ne!(KEYWORD, DEFAULT_TEXT);
    assert_ne!(FUNCTION_NAME, DEFAULT_TEXT);
    assert_eq!(color_at(&first, 10), DEFAULT_TEXT);

    let second = s.highlight_line(1, "    // hi");
    assert_tiles(&second, "    // hi");
    for byte in 4..9 {
        assert_eq!(color_at(&second, byte), COMMENT);
    }
    assert_eq!(second[0].0, 0..4);
}

#[test]
fn spans_tile_every_line_of_a_document() {
    let lines = document();
    let mut s = session("rs");
    for (i, line) in lines.iter().enumerate() {
        let spans = s.highlight_line(i, line);
        assert_tiles(&spans, line);
    }
}

#[test]
fn an_empty_line_has_no_span() {
    let mut s = session("rs");
    assert_eq!(s.highlight_line(0, ""), Vec::new());
}

#[test]
fn spans_are_measured_in_bytes() {
    let mut s = session("txt");
    let text = "héllo wörld";
    let spans = s.highlight_line(0, text);
    assert_eq!(spans, vec![(0..13, Highlight(DEFAULT_TEXT))]);
}

#[test]
fn state_is_carried_from_line_to_line() {
    let mut s = session("rs");
    s.highlight_line(0, "/* open");
    let inside = s.highlight_line(1, "fn main() {");
    assert_eq!(inside, vec![(0..11, Highlight(COMMENT))]);
    let closing = s.highlight_line(2, "*/ fn main() {");
    assert_eq!(color_at(&closing, 0), COMMENT);
    assert_eq!(color_at(&closing, 3), KEYWORD);
}

#[test]
fn asking_again_changes_no_answer() {
    let lines = document();
    let cold = replay("rs", &lines, 29);
    let mut s = session("rs");
    for i in 0..30 {
        assert_eq!(s.highlight_line(i, &lines[i]), cold[i]);
        for again in [0, i / 2, i] {
            assert_eq!(s.highlight_line(again, &lines[again]), cold[again]);
        }
    }
    for i in (0..30).rev() {
        assert_eq!(s.highlight_line(i, &lines[i]), cold[i]);
    }
}

#[test]
fn edit_then_rederive_equals_cold_replay() {
    let lines = document();
    for k in [0usize, 1, 3, 4, 5, 17, 39] {
        let mut s = session("rs");
        for i in 0..40 {
            s.highlight_line(i, &lines[i]);
        }
        let mut edited = lines.clone();
        edited[k] = "/* now a comment starts here".to_string();
        s.notify_edit(k);
        let cold = replay("rs", &edited, 39);
        for i in k..40 {
            assert_eq!(s.highlight_line(i, &edited[i]), cold[i], "line {} after an edit at {}", i, k);
        }
        assert_ne!(cold[k], replay("rs", &lines, k)[k]);
    }
}

#[test]
fn edit_at_line_zero_of_a_hundred_lines() {
    let lines = document();
    let mut s = session("rs");
    for i in 0..100 {
        s.highlight_line(i, &lines[i]);
    }
    assert_eq!(s.current_line(), 100);
    let mut edited = lines.clone();
    edited[0] = "const FIRST: &str = \"changed\";".to_string();
    s.notify_edit(0);
    assert_eq!(s.current_line(), 0);
    let cold = replay("rs", &edited, 50);
    let mut last = Vec::new();
    for i in 0..=50 {
        last = s.highlight_line(i, &edited[i]);
    }
    assert_eq!(last, cold[50]);
    assert_eq!(s.current_line(), 51);
}

#[test]
fn an_empty_line_leaves_no_stale_state() {
    let mut s = session("rs");
    s.highlight_line(0, "/* a comment that stays open");
    assert_eq!(s.highlight_line(1, "fn main() {"), vec![(0..11, Highlight(COMMENT))]);
    s.notify_edit(0);
    assert_eq!(s.highlight_line(0, ""), Vec::new());
    let after = s.highlight_line(1, "fn main() {");
    assert_eq!(after[0], (0..2, Highlight(KEYWORD)));
}

#[test]
fn a_line_far_ahead_is_entered_with_the_last_state_known() {
    let mut s = session("rs");
    s.highlight_line(0, "/* open");
    let far = s.highlight_line(7, "fn main() {");
    assert_eq!(far, vec![(0..11, Highlight(COMMENT))]);
    assert_eq!(s.current_line(), 8);
    s.highlight_line(1, "*/");
    let next = s.highlight_line(2, "fn main() {");
    assert_eq!(next[0], (0..2, Highlight(KEYWORD)));
}

#[test]
fn notify_edit_moves_the_current_line_back_only() {
    let mut s = session("rs");
    for i in 0..5 {
        s.highlight_line(i, "let a = 1;");
    }
    assert_eq!(s.current_line(), 5);
    s.notify_edit(9);
    assert_eq!(s.current_line(), 5);
    s.notify_edit(2);
    assert_eq!(s.current_line(), 2);
}

#[test]
fn configure_twice_is_configure_once() {
    let lines = document();
    let mut once = session("txt");
    let mut twice = session("txt");
    for i in 0..10 {
        once.highlight_line(i, &lines[i]);
        twice.highlight_line(i, &lines[i]);
    }
    once.configure("rs");
    twice.configure("rs");
    twice.configure("rs");
    assert_eq!(once.current_line(), 0);
    assert_eq!(twice.current_line(), 0);
    assert_eq!(once.settings().extension, "rs");
    assert_eq!(twice.settings().extension, "rs");
    for i in [3usize, 0, 1, 2, 3, 4, 5] {
        assert_eq!(once.highlight_line(i, &lines[i]), twice.highlight_line(i, &lines[i]));
    }
}

#[test]
fn configure_forgets_the_document_and_changes_the_grammar() {
    let mut s = session("txt");
    assert_eq!(s.highlight_line(0, "fn main() {"), vec![(0..11, Highlight(DEFAULT_TEXT))]);
    s.configure("rs");
    assert_eq!(s.highlight_line(0, "fn main() {")[0], (0..2, Highlight(KEYWORD)));
    s.highlight_line(1, "/* open");
    s.update(&Settings { extension: "RS".to_string() });
    assert_eq!(s.settings().extension, "RS");
    assert_eq!(s.current_line(), 0);
    assert_eq!(s.highlight_line(2, "fn main() {")[0], (0..2, Highlight(KEYWORD)));
}

#[test]
fn an_unknown_extension_is_plain_text() {
    for extension in ["", "unknownext"] {
        let mut s = session(extension);
        let text = "fn main() { /* nothing here is code */ }";
        assert_eq!(s.highlight_line(0, text), vec![(0..text.len(), Highlight(DEFAULT_TEXT))]);
    }
}

#[test]
fn settings_are_equal_when_their_extensions_are() {
    let rs = Settings { extension: "rs".to_string() };
    assert!(rs == Settings { extension: "rs".to_string() });
    assert!(rs != Settings { extension: "RS".to_string() });
    assert!(rs.clone() == rs);
}

#[test]
fn no_span_cuts_a_character_in_two() {
    let mut s = session("rs");
    let lines = [
        "let ünïcode = \"日本語のテキスト\"; // 注釈 ✓",
        "/* 𝔘𝔫𝔦𝔠𝔬𝔡𝔢 */ fn ß() {}",
        "é",
        "",
    ];
    for (i, line) in lines.iter().enumerate() {
        let spans = s.highlight_line(i, line);
        assert_tiles(&spans, line);
    }
}

#[test]
fn the_session_of_a_minimal_registry_shows_plain_text() {
    let settings = Settings { extension: "rs".to_string() };
    let mut s = VscodeHighlighter::new(&settings, GrammarRegistry::minimal(), theme());
    assert_eq!(s.highlight_line(0, "fn main() {"), vec![(0..11, Highlight(DEFAULT_TEXT))]);
    assert_eq!(s.highlight_line(1, ""), Vec::new());
}
