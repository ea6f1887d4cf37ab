use std::path::PathBuf;
use whistler::search::{search_content, search_file, SearchMatch};

fn found(matches: &[SearchMatch]) -> Vec<(usize, String)> {
    matches.iter().map(|m| (m.line_number, m.line_content.clone())).collect()
}

#[test]
fn matching_lines_come_with_their_numbers() {
    let content = "fn main() {\n    println!(\"Hello\");\n}\n// hello again\n";
    let matches = search_content(content, "hello");
    assert_eq!(
        found(&matches),
        vec![(2, "    println!(\"Hello\");".to_string()), (4, "// hello again".to_string())]
    );
}

#[test]
fn letter_case_of_query_and_line_is_set_aside() {
    let matches = search_content("ABC\nabc\nAbC\nxyz", "aBc");
    assert_eq!(found(&matches), vec![(1, "ABC".to_string()), (2, "abc".to_string()), (3, "AbC".to_string())]);
    assert_eq!(found(&search_content("STRASSE\nstraße", "ß")), vec![(2, "straße".to_string())]);
}

#[test]
fn lines_end_with_a_line_feed_or_a_return_and_a_line_feed() {
    let matches = search_content("one x\r\ntwo\nthree x\n\nfive x", "x");
    assert_eq!(
        found(&matches),
        vec![(1, "one x".to_string()), (3, "three x".to_string()), (5, "five x".to_string())]
    );
}

#[test]
fn a_return_without_a_line_feed_belongs_to_the_line() {
    assert_eq!(found(&search_content("a\rb x", "x")), vec![(1, "a\rb x".to_string())]);
    assert_eq!(found(&search_content("x\r", "x")), vec![(1, "x\r".to_string())]);
    assert_eq!(found(&search_content("x\r\n", "x")), vec![(1, "x".to_string())]);
    assert_eq!(found(&search_content("x\r\r\n", "x")), vec![(1, "x\r".to_string())]);
}

#[test]
fn a_query_does_not_match_across_lines() {
    assert!(search_content("ab\ncd", "bc").is_empty());
    assert!(search_content("ab\ncd", "b\nc").is_empty());
}

#[test]
fn the_empty_query_matches_every_line() {
    assert_eq!(found(&search_content("a\n\nb\n", "")), vec![(1, "a".to_string()), (2, String::new()), (3, "b".to_string())]);
    assert!(search_content("", "").is_empty());
}

#[test]
fn a_file_without_a_match_gives_no_result() {
    let path = PathBuf::from("/tmp/project/src/main.rs");
    assert!(search_file(path.clone(), "main.rs".to_string(), "fn main() {}\n", "struct").is_none());
    assert!(search_file(path, "main.rs".to_string(), "", "main").is_none());
}

#[test]
fn a_file_with_matches_gives_them_all() {
    let path = PathBuf::from("/tmp/project/src/main.rs");
    let result = search_file(path.clone(), "main.rs".to_string(), "fn main() {}\nfn other() {}\n", "FN ").unwrap();
    assert_eq!(result.path, path);
    assert_eq!(result.file_name, "main.rs");
    assert_eq!(found(&result.matches), vec![(1, "fn main() {}".to_string()), (2, "fn other() {}".to_string())]);
}
