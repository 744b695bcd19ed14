//! The data the scanner works over: the four directory kinds, the probed git
//! state, one scanned directory with everything a probe observed of it, and
//! the classified entries the walk reports.
use vstd::prelude::*;

verus! {

/// The four ways a scanned directory can be reported.
#[derive(Clone, Copy, Debug, PartialEq, Eq, Structural)]
pub enum DirKind {
    PlainDirectory,
    GitWorktree,
    BareRepository,
    LinkedWorktree,
}

/// The outcome of probing a directory for git state.
#[derive(Clone, Copy, Debug, PartialEq, Eq, Structural)]
pub struct GitState {
    pub is_bare: bool,
    pub is_work_tree: bool,
}

/// One directory of a filesystem snapshot, as the collaborators observed it:
/// the structural pre-filters (`HEAD` regular file, `.git` subdirectory), the
/// captured standard output of each git query that was run (`None` when the
/// process could not be spawned or the query was not run), the final path
/// component, the captured worktree listing, and the subdirectories.
pub struct DirNode {
    pub path: String,
    pub head_is_file: bool,
    pub bare_probe: Option<String>,
    pub file_name: Option<String>,
    pub git_dir: bool,
    pub tree_probe: Option<String>,
    pub worktree_list: Option<String>,
    pub children: Vec<DirNode>,
}

/// One reported directory: its kind and its absolute path.
#[derive(Debug, PartialEq, Eq)]
pub struct ClassifiedEntry {
    pub kind: DirKind,
    pub path: String,
}

/// The mathematical image of a `ClassifiedEntry`.
pub struct EntrySpec {
    pub kind: DirKind,
    pub path: Seq<char>,
}

impl View for ClassifiedEntry {
    type V = EntrySpec;

    open spec fn view(&self) -> EntrySpec {
        EntrySpec { kind: self.kind, path: self.path@ }
    }
}

pub open spec fn entry_views(s: Seq<ClassifiedEntry>) -> Seq<EntrySpec> {
    s.map_values(|e: ClassifiedEntry| e@)
}

pub open spec fn path_views(s: Seq<String>) -> Seq<Seq<char>> {
    s.map_values(|p: String| p@)
}

} // verus!
