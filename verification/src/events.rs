//! Filesystem events as the watchers see them, and which of them matter.

use vstd::prelude::*;
use crate::path::{FsPath, path_starts_with, same_path};

verus! {

/// The kinds of filesystem event that the watchers tell apart.
#[derive(Clone, Copy, Debug, PartialEq, Eq, Structural)]
pub enum FsEventKind {
    /// A directory was removed.
    RemoveFolder,
    /// The data of a file changed, in a way the platform does not detail.
    ModifyDataAny,
    /// Any other event.
    Other,
}

/// What a check for a directory found.
#[derive(Clone, Copy, Debug, PartialEq, Eq, Structural)]
pub enum DirStatus {
    Exists,
    Missing,
    /// Its metadata could not be read.
    Unknown,
}

pub open spec fn path_views(v: Seq<FsPath>) -> Seq<Seq<char>> {
    v.map_values(|p: FsPath| p@)
}

/// Some path of `paths` names the same path as `p`.
pub open spec fn names_path(paths: Seq<Seq<char>>, p: Seq<char>) -> bool {
    exists|i: int| 0 <= i < paths.len() && same_path(#[trigger] paths[i], p)
}

/// Some path of `paths` lies under `base`.
pub open spec fn names_path_under(paths: Seq<Seq<char>>, base: Seq<char>) -> bool {
    exists|i: int| 0 <= i < paths.len() && path_starts_with(#[trigger] paths[i], base)
}

/// Whether some path of `paths` names the same path as `p`.
pub fn any_same_path(paths: &Vec<FsPath>, p: &FsPath) -> (r: bool)
    ensures
        r == names_path(path_views(paths@), p@),
{
    let ghost pv = path_views(paths@);
    let mut i: usize = 0;
    while i < paths.len()
        invariant
            pv == path_views(paths@),
            0 <= i <= paths.len(),
            forall|j: int| 0 <= j < i ==> !same_path(#[trigger] pv[j], p@),
        decreases paths.len() - i,
    {
        if paths[i].same_as(p) {
            assert(same_path(pv[i as int], p@));
            return true;
        }
        i = i + 1;
    }
    false
}

/// Whether some path of `paths` lies under `base`.
pub fn any_path_under(paths: &Vec<FsPath>, base: &FsPath) -> (r: bool)
    ensures
        r == names_path_under(path_views(paths@), base@),
{
    let ghost pv = path_views(paths@);
    let mut i: usize = 0;
    while i < paths.len()
        invariant
            pv == path_views(paths@),
            0 <= i <= paths.len(),
            forall|j: int| 0 <= j < i ==> !path_starts_with(#[trigger] pv[j], base@),
        decreases paths.len() - i,
    {
        if paths[i].starts_with(base) {
            assert(path_starts_with(pv[i as int], base@));
            return true;
        }
        i = i + 1;
    }
    false
}

} // verus!
