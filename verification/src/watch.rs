//! Decisions of the search-folder watcher: when it must be pointed at a
//! new folder, and which change events come from the app's own fast
//! re-search index (which lives inside the watched folder) and so do not
//! count as changes.

use vstd::prelude::*;
use crate::text::{str_eq, string_from, chars_of};
use crate::history::{path_names, slash_only_path, split_on};

verus! {

/// The folder, inside a searched folder, that holds the fast re-search
/// index.
pub const INDEX_FOLDER_NAME: &'static str = ".native-search-index";

/// The excluded folders with the index folder added at the end, unless it
/// is already among them: later scans never descend into the index.
pub open spec fn with_index_folder(folders: Seq<Seq<char>>) -> Seq<Seq<char>> {
    if folders.contains(INDEX_FOLDER_NAME@) {
        folders
    } else {
        folders.push(INDEX_FOLDER_NAME@)
    }
}

/// Adds the index folder to the excluded folders (see
/// [`with_index_folder`]).
pub fn ensure_index_folder_excluded(folders: &mut Vec<String>)
    ensures
        final(folders).deep_view() == with_index_folder(old(folders).deep_view()),
{
    let mut i: usize = 0;
    while i < folders.len()
        invariant
            i <= folders.len(),
            forall|k: int| 0 <= k < i ==> #[trigger] folders[k]@ != INDEX_FOLDER_NAME@,
        decreases folders.len() - i,
    {
        if str_eq(folders[i].as_str(), INDEX_FOLDER_NAME) {
            proof {
                assert(folders.deep_view()[i as int] == INDEX_FOLDER_NAME@);
            }
            return;
        }
        i = i + 1;
    }
    let name = chars_of(INDEX_FOLDER_NAME);
    let ghost before = folders.deep_view();
    proof {
        assert(!before.contains(INDEX_FOLDER_NAME@)) by {
            if before.contains(INDEX_FOLDER_NAME@) {
                let k = choose|k: int| 0 <= k < before.len() && before[k] == INDEX_FOLDER_NAME@;
                assert(folders[k]@ == before[k]);
            }
        }
    }
    folders.push(string_from(name.as_slice()));
    assert(folders.deep_view() =~= before.push(INDEX_FOLDER_NAME@));
}

/// The components of a path written with `/` only, as `Path::components`
/// reads them: whether it starts at the root, whether a relative path
/// starts with `.`, and its named components (see [`path_names`]).
pub open spec fn path_components(p: Seq<char>) -> (bool, bool, Seq<Seq<char>>) {
    let rooted = p.len() > 0 && p[0] == '/';
    (rooted, !rooted && split_on(p, '/')[0] == "."@, path_names(p))
}

/// Calls `==` on two `std::path::Path`s, which compares their components.
/// Equal texts are the same path; for paths written with `/` only and with
/// no prefix (see [`slash_only_path`]) the answer is whether their
/// components (see [`path_components`]) agree. How other paths split into
/// components depends on the platform, and is left unsaid.
#[verifier::external_body]
fn same_path(a: &str, b: &str) -> (r: bool)
    ensures
        a@ == b@ ==> r,
        slash_only_path(a@) && slash_only_path(b@) ==> r == (path_components(a@) == path_components(
            b@,
        )),
{
    std::path::Path::new(a) == std::path::Path::new(b)
}

/// The watcher must be pointed at `requested` unless it already watches
/// that folder: the same path, however its separators and `.` components
/// are written.
pub fn needs_rewatch(current: &Option<String>, requested: &str) -> (r: bool)
    ensures
        current is None ==> r,
        current matches Some(c) ==> (c@ == requested@ ==> !r),
        current matches Some(c) ==> (slash_only_path(c@) && slash_only_path(requested@) ==> r == (
        path_components(c@) != path_components(requested@))),
{
    match current {
        Some(c) => !same_path(c.as_str(), requested),
        None => true,
    }
}

/// A change event, given as the path components of each changed path,
/// comes from the index when some component of some path is the index
/// folder's name.
pub fn is_own_index_write(paths: &Vec<Vec<String>>) -> (r: bool)
    ensures
        r == exists|i: int, j: int|
            0 <= i < paths.len() && 0 <= j < paths[i].len() && #[trigger] paths[i][j]@
                == INDEX_FOLDER_NAME@,
{
    let mut i: usize = 0;
    while i < paths.len()
        invariant
            i <= paths.len(),
            forall|a: int, b: int|
                0 <= a < i && 0 <= b < paths[a].len() ==> #[trigger] paths[a][b]@ != INDEX_FOLDER_NAME@,
        decreases paths.len() - i,
    {
        let mut j: usize = 0;
        while j < paths[i].len()
            invariant
                i < paths.len(),
                j <= paths[i as int].len(),
                forall|b: int| 0 <= b < j ==> #[trigger] paths[i as int][b]@ != INDEX_FOLDER_NAME@,
            decreases paths[i as int].len() - j,
        {
            if str_eq(paths[i][j].as_str(), INDEX_FOLDER_NAME) {
                return true;
            }
            j = j + 1;
        }
        i = i + 1;
    }
    false
}

} // verus!
