//! Full-text search: which lines of a file hold the words that were asked for.

use vstd::prelude::*;
use std::path::PathBuf;
use crate::text::{contains, lines_of, lowercase, occurs_in, split_lines, texts, to_lowercase};

verus! {

/// `std::path::PathBuf`, which is carried through and never looked into.
#[verifier::external_type_specification]
#[verifier::external_body]
pub struct ExPathBuf(PathBuf);

/// `Clone` of a `PathBuf` gives the same path.
pub assume_specification[ <PathBuf as Clone>::clone ](path: &PathBuf) -> (copy: PathBuf)
    ensures
        copy == *path,
;

/// One line that matches.
#[derive(Debug, Clone)]
pub struct SearchMatch {
    /// The number of the line in its file, counted from 1.
    pub line_number: usize,
    /// The line as it stands in the file.
    pub line_content: String,
}

/// The matching lines of one file.
#[derive(Debug, Clone)]
pub struct SearchResult {
    pub path: PathBuf,
    pub file_name: String,
    pub matches: Vec<SearchMatch>,
}

/// A match as a value: the line's number and its text.
pub open spec fn match_views(matches: Seq<SearchMatch>) -> Seq<(int, Seq<char>)> {
    Seq::new(matches.len(), |i: int| (matches[i].line_number as int, matches[i].line_content@))
}

/// Whether `line` holds `query`, letter case set aside.
pub open spec fn line_matches(line: Seq<char>, query: Seq<char>) -> bool {
    occurs_in(lowercase(query), lowercase(line))
}

/// The matches among the first `n` of `lines`, in order, each with its line number.
pub open spec fn matches_among(lines: Seq<Seq<char>>, query: Seq<char>, n: int) -> Seq<(int, Seq<char>)>
    decreases n,
{
    if n <= 0 {
        seq![]
    } else if line_matches(lines[n - 1], query) {
        matches_among(lines, query, n - 1).push((n, lines[n - 1]))
    } else {
        matches_among(lines, query, n - 1)
    }
}

/// The matches of `query` in the text `content`.
pub open spec fn matches_in(content: Seq<char>, query: Seq<char>) -> Seq<(int, Seq<char>)> {
    matches_among(lines_of(content), query, lines_of(content).len() as int)
}

/// The lines of `content` that hold `query`, letter case set aside, in the order of the
/// file and with their line numbers.
pub fn search_content(content: &str, query: &str) -> (matches: Vec<SearchMatch>)
    ensures
        match_views(matches@) == matches_in(content@, query@),
{
    let query_lower = to_lowercase(query);
    let lines = split_lines(content);
    let mut matches: Vec<SearchMatch> = Vec::new();
    let mut i: usize = 0;
    while i < lines.len()
        invariant
            0 <= i <= lines@.len(),
            query_lower@ == lowercase(query@),
            texts(lines@) == lines_of(content@),
            match_views(matches@) == matches_among(lines_of(content@), query@, i as int),
        decreases lines@.len() - i,
    {
        let line_lower = to_lowercase(lines[i].as_str());
        proof {
            assert(texts(lines@)[i as int] == lines@[i as int]@);
        }
        if contains(line_lower.as_str(), query_lower.as_str()) {
            let ghost before = matches@;
            matches.push(SearchMatch { line_number: i + 1, line_content: lines[i].clone() });
            proof {
                assert(match_views(matches@) =~= match_views(before).push(
                    (i as int + 1, lines@[i as int]@),
                ));
            }
        }
        i = i + 1;
    }
    matches
}

/// The search result for one file, or `None` where no line of it matches.
pub fn search_file(path: PathBuf, file_name: String, content: &str, query: &str) -> (result: Option<
    SearchResult,
>)
    ensures
        result is Some <==> matches_in(content@, query@).len() > 0,
        result matches Some(r) ==> r.path == path && r.file_name == file_name && match_views(r.matches@)
            == matches_in(content@, query@),
{
    let matches = search_content(content, query);
    proof {
        assert(match_views(matches@).len() == matches@.len());
    }
    if matches.len() > 0 {
        Some(SearchResult { path, file_name, matches })
    } else {
        None
    }
}

} // verus!
