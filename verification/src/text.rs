//! The string functions of `std` that the library leans on and that come without a
//! verified contract.

use vstd::prelude::*;

verus! {

/// `c` in lower case if it is one of the letters `A` to `Z`, else `c` itself.
pub open spec fn ascii_lower_char(c: char) -> char {
    if 'A' <= c && c <= 'Z' {
        ((c as u8 + 32) as u8) as char
    } else {
        c
    }
}

/// `s` with each of the letters `A` to `Z` in lower case and every other character kept.
pub open spec fn ascii_lowercase(s: Seq<char>) -> Seq<char> {
    s.map_values(|c: char| ascii_lower_char(c))
}

/// What `str::to_lowercase` returns for `s`: its lower case by the rules of Unicode.
pub uninterp spec fn lowercase(s: Seq<char>) -> Seq<char>;

/// `str::to_lowercase`.
#[verifier::external_body]
pub(crate) fn to_lowercase(s: &str) -> (lower: String)
    ensures
        lower@ == lowercase(s@),
{
    s.to_lowercase()
}

/// `part` stands in `name` right after a dot and holds no dot itself.
pub open spec fn follows_dot(part: Seq<char>, name: Seq<char>) -> bool {
    &&& forall|i: int| 0 <= i < part.len() ==> part[i] != '.'
    &&& exists|at: int|
        0 <= at && at + 1 + part.len() <= name.len() && name[at] == '.' && #[trigger] name.subrange(
            at + 1,
            at + 1 + part.len(),
        ) == part
}

/// What a platform may see as the extension of `name`: none, or a part of the name that
/// follows a dot and holds no dot.
pub open spec fn may_be_extension(extension: Option<Seq<char>>, name: Seq<char>) -> bool {
    match extension {
        Some(part) => follows_dot(part, name),
        None => true,
    }
}

/// The extension that `Path::extension` sees in `name`, where there is one and it is valid
/// UTF-8. Which part of a path is its file name is the platform's own matter; on every
/// platform the extension is what follows the last dot of that file name.
#[verifier::external_body]
pub(crate) fn path_extension(name: &str) -> (extension: Option<String>)
    ensures
        may_be_extension(
            match extension {
                Some(part) => Some(part@),
                None => None,
            },
            name@,
        ),
{
    std::path::Path::new(name).extension().and_then(|e| e.to_str()).map(|e| e.to_string())
}

/// The position of the first line feed of `s` at or after `from`, or the length of `s`
/// where there is none.
pub open spec fn line_feed_at(s: Seq<char>, from: int) -> int
    decreases s.len() - from,
{
    if from < 0 || from >= s.len() {
        s.len() as int
    } else if s[from] == '\n' {
        from
    } else {
        line_feed_at(s, from + 1)
    }
}

/// `line` without the carriage return at its end, if it has one.
pub open spec fn without_return(line: Seq<char>) -> Seq<char> {
    if line.len() > 0 && line.last() == '\r' {
        line.drop_last()
    } else {
        line
    }
}

/// The lines of `s`. A line ends with a line feed, or with a carriage return and a line
/// feed, neither of which belongs to the line. What follows the last line feed is a line
/// too, unless it is empty, and keeps a carriage return at its end.
pub open spec fn lines_of(s: Seq<char>) -> Seq<Seq<char>>
    decreases s.len(),
{
    if s.len() == 0 {
        seq![]
    } else {
        let end = line_feed_at(s, 0);
        if 0 <= end < s.len() {
            seq![without_return(s.take(end))] + lines_of(s.skip(end + 1))
        } else {
            seq![s]
        }
    }
}

/// `needle` stands somewhere in `hay`.
pub open spec fn occurs_in(needle: Seq<char>, hay: Seq<char>) -> bool {
    exists|i: int|
        0 <= i <= hay.len() - needle.len() && #[trigger] hay.subrange(i, i + needle.len()) == needle
}

/// The texts of `lines`.
pub open spec fn texts(lines: Seq<String>) -> Seq<Seq<char>> {
    Seq::new(lines.len(), |i: int| lines[i]@)
}

/// `str::lines`, each line copied into a `String`.
#[verifier::external_body]
pub(crate) fn split_lines(s: &str) -> (lines: Vec<String>)
    ensures
        texts(lines@) == lines_of(s@),
{
    s.lines().map(|line| line.to_string()).collect()
}

/// `str::contains` with a string for its pattern: whether `needle` matches a part of `hay`.
#[verifier::external_body]
pub(crate) fn contains(hay: &str, needle: &str) -> (found: bool)
    ensures
        found == occurs_in(needle@, hay@),
{
    hay.contains(needle)
}

/// Whether two byte strings are the same.
pub fn same_bytes(a: &[u8], b: &[u8]) -> (same: bool)
    ensures
        same == (a@ == b@),
{
    if a.len() != b.len() {
        return false;
    }
    let mut i: usize = 0;
    while i < a.len()
        invariant
            0 <= i <= a@.len(),
            a@.len() == b@.len(),
            a@.take(i as int) == b@.take(i as int),
        decreases a@.len() - i,
    {
        if a[i] != b[i] {
            return false;
        }
        proof {
            assert(a@.take(i as int + 1) =~= a@.take(i as int).push(a@[i as int]));
            assert(b@.take(i as int + 1) =~= b@.take(i as int).push(b@[i as int]));
        }
        i = i + 1;
    }
    proof {
        assert(a@.take(a@.len() as int) =~= a@);
        assert(b@.take(b@.len() as int) =~= b@);
    }
    true
}

} // verus!
