//! Which icon stands for a file or a folder in the file tree.

use vstd::prelude::*;
use vstd::slice::*;
use vstd::string::StringExecFns;
use vstd::utf8::encode_utf8;
use crate::text::{lowercase, may_be_extension, path_extension, same_bytes, to_lowercase};

verus! {

/// The directory that holds the icons.
pub const ICONS_PATH: &'static str =
    "extensions/iconpacks/jonathanharty.gruvbox-material-icon-theme-1.1.5/icons";

/// An icon pack: which icon goes with which name. Each table is a list of keys and icon
/// names; where a key stands twice, its first entry counts. The tables are lists and not
/// hash maps because of a map with strings for keys nothing can be proved here.
pub struct IconTheme {
    /// Icons by file extension, which may be a compound one such as `tar.gz`.
    pub file_extensions: Vec<(String, String)>,
    /// Icons by whole file name.
    pub file_names: Vec<(String, String)>,
    /// Icons of closed folders by name.
    pub folder_names: Vec<(String, String)>,
    /// Icons of open folders by name.
    pub folder_names_expanded: Vec<(String, String)>,
    /// The icon of a file that no table knows.
    pub file: String,
    /// The icon of a closed folder that no table knows.
    pub folder: String,
    /// The icon of an open folder that no table knows.
    pub folder_expanded: String,
}

/// The path of the icon named `icon`.
pub open spec fn icon_path(icon: Seq<char>) -> Seq<char> {
    ICONS_PATH@ + "/"@ + icon + ".svg"@
}

/// The icon that the first `n` entries of `table` have under `key`.
pub open spec fn lookup_in(table: Seq<(String, String)>, key: Seq<u8>, n: int) -> Option<Seq<char>>
    decreases n,
{
    if n <= 0 {
        None
    } else {
        match lookup_in(table, key, n - 1) {
            Some(icon) => Some(icon),
            None => if encode_utf8(table[n - 1].0@) == key {
                Some(table[n - 1].1@)
            } else {
                None
            },
        }
    }
}

/// The icon that `table` has under `key`.
pub open spec fn lookup(table: Seq<(String, String)>, key: Seq<u8>) -> Option<Seq<char>> {
    lookup_in(table, key, table.len() as int)
}

/// The icon of the first compound extension of `name` that `table` knows, looking at the
/// dots from position `from` on: the compound extension of a dot is all that follows it.
pub open spec fn compound_icon(table: Seq<(String, String)>, name: Seq<u8>, from: int) -> Option<Seq<char>>
    decreases name.len() - from,
{
    if from < 0 || from >= name.len() {
        None
    } else if name[from] == 0x2E && lookup(table, name.skip(from + 1)) is Some {
        lookup(table, name.skip(from + 1))
    } else {
        compound_icon(table, name, from + 1)
    }
}

/// The icon of a file, given its name in lower case and, where the platform sees one, its
/// extension in lower case.
///
/// The whole name is looked up first, then each compound extension from the longest to the
/// shortest, then the platform's extension; a file that none of them knows gets the pack's
/// plain file icon.
pub open spec fn file_icon(theme: IconTheme, name: Seq<u8>, extension: Option<Seq<u8>>) -> Seq<char> {
    match lookup(theme.file_names@, name) {
        Some(icon) => icon,
        None => match compound_icon(theme.file_extensions@, name, 0) {
            Some(icon) => icon,
            None => match extension {
                Some(e) => match lookup(theme.file_extensions@, e) {
                    Some(icon) => icon,
                    None => theme.file@,
                },
                None => theme.file@,
            },
        },
    }
}

/// The path of a file's icon; without an icon pack, that of `file.svg`.
pub open spec fn file_icon_path(theme: Option<&IconTheme>, name: Seq<u8>, extension: Option<Seq<u8>>) -> Seq<
    char,
> {
    match theme {
        Some(t) => icon_path(file_icon(*t, name, extension)),
        None => icon_path("file"@),
    }
}

/// The path of a folder's icon, given its name in lower case: the pack's icon for the name,
/// or its plain folder icon, each in the open or the closed form. Without an icon pack,
/// `folder-open.svg` or `folder.svg`.
pub open spec fn folder_icon_path(theme: Option<&IconTheme>, name: Seq<u8>, is_open: bool) -> Seq<char> {
    match theme {
        Some(t) => if is_open {
            match lookup(t.folder_names_expanded@, name) {
                Some(icon) => icon_path(icon),
                None => icon_path(t.folder_expanded@),
            }
        } else {
            match lookup(t.folder_names@, name) {
                Some(icon) => icon_path(icon),
                None => icon_path(t.folder@),
            }
        },
        None => if is_open {
            icon_path("folder-open"@)
        } else {
            icon_path("folder"@)
        },
    }
}

/// The lower case of the extension, as bytes.
pub open spec fn folded(extension: Option<Seq<char>>) -> Option<Seq<u8>> {
    match extension {
        Some(e) => Some(encode_utf8(lowercase(e))),
        None => None,
    }
}

/// Once a key is found among the first entries, later entries change nothing.
proof fn lemma_first_entry_counts(table: Seq<(String, String)>, key: Seq<u8>, n: int, m: int)
    requires
        0 <= n <= m,
        lookup_in(table, key, n) is Some,
    ensures
        lookup_in(table, key, m) == lookup_in(table, key, n),
    decreases m - n,
{
    if n < m {
        lemma_first_entry_counts(table, key, n, m - 1);
    }
}

/// No compound extension of a name has an icon exactly when the table knows nothing that
/// follows one of its dots.
pub proof fn lemma_no_compound_icon(table: Seq<(String, String)>, name: Seq<u8>, from: int)
    requires
        0 <= from,
    ensures
        compound_icon(table, name, from) is None <==> forall|at: int|
            from <= at < name.len() && name[at] == 0x2E ==> lookup(table, #[trigger] name.skip(at + 1))
                is None,
    decreases name.len() - from,
{
    if from < name.len() {
        lemma_no_compound_icon(table, name, from + 1);
        if compound_icon(table, name, from) is None {
            assert forall|at: int| from <= at < name.len() && name[at] == 0x2E implies lookup(
                table,
                #[trigger] name.skip(at + 1),
            ) is None by {
                if at > from {
                    assert(compound_icon(table, name, from + 1) is None);
                }
            }
        }
    }
}

/// A file that no table knows gets the plain file icon: its name is no key, nothing that
/// follows one of its dots is, and its extension is none either.
pub proof fn lemma_unknown_file_gets_plain_icon(theme: IconTheme, name: Seq<u8>, extension: Option<Seq<u8>>)
    requires
        lookup(theme.file_names@, name) is None,
        forall|at: int|
            0 <= at < name.len() && name[at] == 0x2E ==> lookup(
                theme.file_extensions@,
                #[trigger] name.skip(at + 1),
            ) is None,
        extension matches Some(e) ==> lookup(theme.file_extensions@, e) is None,
    ensures
        file_icon(theme, name, extension) == theme.file@,
{
    lemma_no_compound_icon(theme.file_extensions@, name, 0);
}

fn path_of(icon: &str) -> (path: String)
    ensures
        path@ == icon_path(icon@),
{
    let mut path = String::from_str(ICONS_PATH);
    path.append("/");
    path.append(icon);
    path.append(".svg");
    path
}

fn find<'a>(table: &'a Vec<(String, String)>, key: &[u8]) -> (found: Option<&'a String>)
    ensures
        match found {
            Some(icon) => lookup(table@, key@) == Some(icon@),
            None => lookup(table@, key@) is None,
        },
{
    let mut i: usize = 0;
    while i < table.len()
        invariant
            0 <= i <= table@.len(),
            lookup_in(table@, key@, i as int) is None,
        decreases table@.len() - i,
    {
        if same_bytes(table[i].0.as_str().as_bytes(), key) {
            proof {
                lemma_first_entry_counts(table@, key@, i as int + 1, table@.len() as int);
            }
            return Some(&table[i].1);
        }
        i = i + 1;
    }
    None
}

fn find_compound<'a>(table: &'a Vec<(String, String)>, name: &[u8]) -> (found: Option<&'a String>)
    ensures
        match found {
            Some(icon) => compound_icon(table@, name@, 0) == Some(icon@),
            None => compound_icon(table@, name@, 0) is None,
        },
{
    let mut i: usize = 0;
    while i < name.len()
        invariant
            0 <= i <= name@.len(),
            compound_icon(table@, name@, 0) == compound_icon(table@, name@, i as int),
        decreases name@.len() - i,
    {
        if name[i] == 0x2E {
            let rest = slice_subrange(name, i + 1, name.len());
            proof {
                assert(rest@ =~= name@.skip(i as int + 1));
            }
            if let Some(icon) = find(table, rest) {
                return Some(icon);
            }
        }
        i = i + 1;
    }
    None
}

/// The path of the icon of a file whose name, in lower case, is `name`, and whose
/// extension as the platform sees it, in lower case, is `extension`.
pub fn file_icon_for(theme: Option<&IconTheme>, name: &str, extension: Option<&str>) -> (path: String)
    ensures
        path@ == file_icon_path(
            theme,
            encode_utf8(name@),
            match extension {
                Some(e) => Some(encode_utf8(e@)),
                None => None,
            },
        ),
{
    match theme {
        Some(t) => {
            let bytes = name.as_bytes();
            if let Some(icon) = find(&t.file_names, bytes) {
                return path_of(icon.as_str());
            }
            if let Some(icon) = find_compound(&t.file_extensions, bytes) {
                return path_of(icon.as_str());
            }
            if let Some(e) = extension {
                if let Some(icon) = find(&t.file_extensions, e.as_bytes()) {
                    return path_of(icon.as_str());
                }
            }
            path_of(t.file.as_str())
        },
        None => path_of("file"),
    }
}

/// The path of the icon for the file `filename`, letter case set aside.
///
/// The icon is the one that [`file_icon_path`] gives for the name in lower case and the
/// extension that the platform sees in the name: none, or a part of the name that follows a
/// dot and holds no dot.
pub fn get_file_icon(theme: Option<&IconTheme>, filename: &str) -> (path: String)
    ensures
        exists|extension: Option<Seq<char>>|
            may_be_extension(extension, filename@) && path@ == #[trigger] file_icon_path(
                theme,
                encode_utf8(lowercase(filename@)),
                folded(extension),
            ),
{
    let lower = to_lowercase(filename);
    match path_extension(filename) {
        Some(e) => {
            let folded_e = to_lowercase(e.as_str());
            let path = file_icon_for(theme, lower.as_str(), Some(folded_e.as_str()));
            proof {
                assert(may_be_extension(Some(e@), filename@));
                assert(path@ == file_icon_path(theme, encode_utf8(lowercase(filename@)), folded(Some(e@))));
            }
            path
        },
        None => {
            let path = file_icon_for(theme, lower.as_str(), None);
            proof {
                assert(may_be_extension(None, filename@));
                assert(path@ == file_icon_path(theme, encode_utf8(lowercase(filename@)), folded(None)));
            }
            path
        },
    }
}

/// The path of the icon for the folder `folder_name`, open or closed, letter case set
/// aside.
pub fn get_folder_icon(theme: Option<&IconTheme>, folder_name: &str, is_open: bool) -> (path: String)
    ensures
        path@ == folder_icon_path(theme, encode_utf8(lowercase(folder_name@)), is_open),
{
    let lower = to_lowercase(folder_name);
    let key = lower.as_str().as_bytes();
    match theme {
        Some(t) => {
            if is_open {
                match find(&t.folder_names_expanded, key) {
                    Some(icon) => path_of(icon.as_str()),
                    None => path_of(t.folder_expanded.as_str()),
                }
            } else {
                match find(&t.folder_names, key) {
                    Some(icon) => path_of(icon.as_str()),
                    None => path_of(t.folder.as_str()),
                }
            }
        },
        None => {
            if is_open {
                path_of("folder-open")
            } else {
                path_of("folder")
            }
        },
    }
}

} // verus!
