//! Where a project keeps its files, from the project's root.
use crate::config::{join_path, path_join, str_view, text_view};
use crate::text::{blank, is_blank, to_chars};
use vstd::prelude::*;

verus! {

/// The files and directories that mark a project's root.
pub open spec fn project_markers() -> Seq<Seq<char>> {
    seq![".git"@, "Cargo.toml"@, "package.json"@, ".perseus"@]
}

/// The files and directories that mark a project's root.
pub fn markers() -> (m: Vec<&'static str>)
    ensures
        m@.len() == project_markers().len(),
        forall|i: int| 0 <= i < m@.len() ==> (#[trigger] m@[i])@ == project_markers()[i],
{
    let mut m: Vec<&'static str> = Vec::new();
    m.push(".git");
    m.push("Cargo.toml");
    m.push("package.json");
    m.push(".perseus");
    m
}

/// The first of `marked` that holds: the nearest directory, from the
/// current one upwards, in which a marker was found.
pub fn nearest_marked(marked: &Vec<bool>) -> (r: Option<usize>)
    ensures
        match r {
            Some(i) => i < marked@.len() && marked@[i as int] && forall|k: int|
                0 <= k < i ==> !marked@[k],
            None => forall|k: int| 0 <= k < marked@.len() ==> !marked@[k],
        },
{
    let mut i: usize = 0;
    while i < marked.len()
        invariant
            i <= marked.len(),
            forall|k: int| 0 <= k < i ==> !marked@[k],
        decreases marked.len() - i,
    {
        if marked[i] {
            return Some(i);
        }
        i += 1;
    }
    None
}

/// A path below the storage directory of the project at `root`.
pub open spec fn stored_at(root: Option<Seq<char>>, name: Seq<char>) -> Option<Seq<char>> {
    match root {
        Some(r) => Some(path_join(path_join(r, ".perseus"@), name)),
        None => None,
    }
}

/// The storage directory of the project at `root`.
pub fn storage_dir(root: Option<&str>) -> (r: Option<String>)
    ensures
        text_view(r) == match str_view(root) {
            Some(r) => Some(path_join(r, ".perseus"@)),
            None => None,
        },
{
    match root {
        Some(root) => Some(join_path(root, ".perseus")),
        None => None,
    }
}

/// The file `name` in the storage directory of the project at `root`.
fn stored(root: Option<&str>, name: &str) -> (r: Option<String>)
    ensures
        text_view(r) == stored_at(str_view(root), name@),
{
    match storage_dir(root) {
        Some(dir) => Some(join_path(dir.as_str(), name)),
        None => None,
    }
}

pub fn collection_path(root: Option<&str>) -> (r: Option<String>)
    ensures
        text_view(r) == stored_at(str_view(root), "collection.json"@),
{
    stored(root, "collection.json")
}

pub fn requests_dir(root: Option<&str>) -> (r: Option<String>)
    ensures
        text_view(r) == stored_at(str_view(root), "requests"@),
{
    stored(root, "requests")
}

pub fn ui_state_path(root: Option<&str>) -> (r: Option<String>)
    ensures
        text_view(r) == stored_at(str_view(root), "ui.json"@),
{
    stored(root, "ui.json")
}

pub fn environments_dir(root: Option<&str>) -> (r: Option<String>)
    ensures
        text_view(r) == stored_at(str_view(root), "environments"@),
{
    stored(root, "environments")
}

/// Where the state of the user's sessions lies: `$XDG_STATE_HOME` where it
/// is set and not blank, else `.local/state` in the home directory, if that
/// is known and not blank.
pub open spec fn state_dir_of(xdg_state_home: Option<Seq<char>>, home: Option<Seq<char>>) -> Option<
    Seq<char>,
> {
    if xdg_state_home is Some && !is_blank(xdg_state_home->0) {
        Some(xdg_state_home->0)
    } else if home is Some && !is_blank(home->0) {
        Some(path_join(path_join(home->0, ".local"@), "state"@))
    } else {
        None
    }
}

pub fn state_dir(xdg_state_home: Option<&str>, home: Option<&str>) -> (r: Option<String>)
    ensures
        text_view(r) == state_dir_of(str_view(xdg_state_home), str_view(home)),
{
    match xdg_state_home {
        Some(dir) => {
            let chars = to_chars(dir);
            if !blank(&chars) {
                return Some(crate::text::from_chars(&chars));
            }
        },
        None => {},
    }
    match home {
        Some(home) => {
            if blank(&to_chars(home)) {
                return None;
            }
            let local = join_path(home, ".local");
            Some(join_path(local.as_str(), "state"))
        },
        None => None,
    }
}

/// The directory of the session store.
pub fn session_dir(xdg_state_home: Option<&str>, home: Option<&str>) -> (r: Option<String>)
    ensures
        text_view(r) == match state_dir_of(str_view(xdg_state_home), str_view(home)) {
            Some(d) => Some(path_join(d, "perseus"@)),
            None => None,
        },
{
    match state_dir(xdg_state_home, home) {
        Some(dir) => Some(join_path(dir.as_str(), "perseus")),
        None => None,
    }
}

/// The file of the session store.
pub fn session_store_path(xdg_state_home: Option<&str>, home: Option<&str>) -> (r: Option<String>)
    ensures
        text_view(r) == match state_dir_of(str_view(xdg_state_home), str_view(home)) {
            Some(d) => Some(path_join(path_join(d, "perseus"@), "session.json"@)),
            None => None,
        },
{
    match session_dir(xdg_state_home, home) {
        Some(dir) => Some(join_path(dir.as_str(), "session.json")),
        None => None,
    }
}

} // verus!
