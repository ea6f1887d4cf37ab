use std::path::PathBuf;
use whistler::workspace::{
    close_tab, move_selection, remember_recent, select_tab, worth_searching, RECENT_FILES,
};

fn paths(names: &[&str]) -> Vec<PathBuf> {
    names.iter().map(PathBuf::from).collect()
}

#[test]
fn closing_the_only_tab_leaves_none_active() {
    assert_eq!(close_tab(Some(0), 0, 1), None);
    assert_eq!(close_tab(None, 0, 1), None);
}

#[test]
fn closing_a_tab_that_is_not_there_changes_nothing() {
    assert_eq!(close_tab(Some(1), 3, 3), Some(1));
    assert_eq!(close_tab(Some(0), 0, 0), Some(0));
    assert_eq!(close_tab(None, 9, 2), None);
}

#[test]
fn the_active_tab_stays_the_same_tab() {
    assert_eq!(close_tab(Some(0), 2, 4), Some(0));
    assert_eq!(close_tab(Some(1), 2, 4), Some(1));
    assert_eq!(close_tab(Some(3), 2, 4), Some(2));
    assert_eq!(close_tab(Some(3), 0, 4), Some(2));
    assert_eq!(close_tab(Some(2), 0, 4), Some(1));
}

#[test]
fn closing_the_active_tab_activates_its_neighbor() {
    assert_eq!(close_tab(Some(1), 1, 4), Some(1));
    assert_eq!(close_tab(Some(0), 0, 4), Some(0));
    assert_eq!(close_tab(Some(3), 3, 4), Some(2));
    assert_eq!(close_tab(Some(1), 1, 2), Some(0));
}

#[test]
fn without_an_active_tab_none_becomes_active() {
    assert_eq!(close_tab(None, 1, 4), None);
}

#[test]
fn an_active_tab_out_of_range_becomes_the_last() {
    assert_eq!(close_tab(Some(9), 0, 4), Some(2));
}

#[test]
fn the_selection_wraps_around() {
    assert_eq!(move_selection(0, 1, 5), 1);
    assert_eq!(move_selection(4, 1, 5), 0);
    assert_eq!(move_selection(0, -1, 5), 4);
    assert_eq!(move_selection(3, -1, 5), 2);
    assert_eq!(move_selection(2, 0, 5), 2);
    assert_eq!(move_selection(2, 12, 5), 4);
    assert_eq!(move_selection(2, -12, 5), 0);
    assert_eq!(move_selection(0, -5, 5), 0);
    assert_eq!(move_selection(0, 1, 1), 0);
    assert_eq!(move_selection(0, -1, 1), 0);
}

#[test]
fn the_selection_agrees_with_the_euclidean_remainder() {
    for count in 1..8usize {
        for selected in 0..count {
            for delta in -20..20i32 {
                let expected = (selected as i32 + delta).rem_euclid(count as i32) as usize;
                assert_eq!(move_selection(selected, delta, count), expected);
            }
        }
    }
    assert_eq!(move_selection(7, i32::MIN, 10), (7i64 + i32::MIN as i64).rem_euclid(10) as usize);
    assert_eq!(move_selection(7, i32::MAX, 10), (7i64 + i32::MAX as i64).rem_euclid(10) as usize);
    assert_eq!(move_selection(usize::MAX, 1, usize::MAX), 1);
}

#[test]
fn among_no_entries_the_selection_stays() {
    assert_eq!(move_selection(3, 1, 0), 3);
    assert_eq!(move_selection(0, -1, 0), 0);
}

#[test]
fn a_file_opened_comes_first() {
    assert_eq!(remember_recent(&Vec::new(), PathBuf::from("a")), paths(&["a"]));
    assert_eq!(remember_recent(&paths(&["a", "b"]), PathBuf::from("c")), paths(&["c", "a", "b"]));
}

#[test]
fn a_file_opened_again_moves_to_the_front() {
    assert_eq!(remember_recent(&paths(&["a", "b", "c"]), PathBuf::from("c")), paths(&["c", "a", "b"]));
    assert_eq!(remember_recent(&paths(&["a", "b", "c"]), PathBuf::from("a")), paths(&["a", "b", "c"]));
    assert_eq!(remember_recent(&paths(&["b", "a", "b", "c", "b"]), PathBuf::from("b")), paths(&["b", "a", "c"]));
}

#[test]
fn paths_are_compared_as_paths() {
    assert_eq!(remember_recent(&paths(&["x/a", "x//a", "x/a/", "x/b"]), PathBuf::from("x/a")), paths(&["x/a", "x/b"]));
}

#[test]
fn the_list_holds_twenty_files_at_most() {
    let names: Vec<String> = (0..30).map(|i| format!("file{}", i)).collect();
    let mut recent = Vec::new();
    for name in &names {
        recent = remember_recent(&recent, PathBuf::from(name));
    }
    assert_eq!(recent.len(), RECENT_FILES);
    assert_eq!(RECENT_FILES, 20);
    let expected: Vec<PathBuf> = (10..30).rev().map(|i| PathBuf::from(format!("file{}", i))).collect();
    assert_eq!(recent, expected);
    let again = remember_recent(&recent, PathBuf::from("file15"));
    assert_eq!(again.len(), 20);
    assert_eq!(again[0], PathBuf::from("file15"));
    assert_eq!(again[19], PathBuf::from("file10"));
    let longer: Vec<PathBuf> = (0..25).map(|i| PathBuf::from(format!("old{}", i))).collect();
    let cut = remember_recent(&longer, PathBuf::from("old22"));
    assert_eq!(cut.len(), 20);
    assert_eq!(cut[0], PathBuf::from("old22"));
    assert_eq!(cut[19], PathBuf::from("old18"));
}

#[test]
fn a_tab_that_exists_becomes_active() {
    assert_eq!(select_tab(None, 0, 1), Some(0));
    assert_eq!(select_tab(Some(2), 1, 3), Some(1));
    assert_eq!(select_tab(Some(1), 2, 3), Some(2));
}

#[test]
fn a_tab_that_is_not_there_cannot_be_selected() {
    assert_eq!(select_tab(Some(1), 3, 3), Some(1));
    assert_eq!(select_tab(None, 0, 0), None);
    assert_eq!(select_tab(Some(0), usize::MAX, 2), Some(0));
}

#[test]
fn a_query_needs_two_bytes() {
    assert!(!worth_searching(""));
    assert!(!worth_searching("a"));
    assert!(worth_searching("ab"));
    assert!(worth_searching("é"));
    assert!(worth_searching("abc"));
}
