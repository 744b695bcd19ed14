//! Per-directory git-state detection and the four-way classification.
//!
//! The external git tool is a collaborator: its captured output arrives in
//! the `DirNode` fields, and everything decided from that output is here.
use vstd::prelude::*;
use vstd::string::*;
use crate::model::{DirKind, DirNode, GitState};
use crate::text::{str_eq, trim_spec, trimmed_eq};

verus! {

/// A probe's captured standard output is affirmative: it is present and
/// trims to exactly `"true"`. A missing output (spawn failure, or a probe
/// that was never run) is never affirmative.
pub open spec fn spec_probe_true(out: Option<String>) -> bool {
    match out {
        Some(s) => trim_spec(s@) == "true"@,
        None => false,
    }
}

pub fn probe_says_true(out: &Option<String>) -> (b: bool)
    ensures
        b == spec_probe_true(*out),
{
    match out {
        Some(s) => trimmed_eq(s.as_str(), "true"),
        None => false,
    }
}

/// The directory is a bare repository: it holds a `HEAD` regular file, the
/// git-dir probe answered `"true"`, and its final path component is not the
/// git metadata directory name.
pub open spec fn spec_is_bare(n: DirNode) -> bool {
    &&& n.head_is_file
    &&& spec_probe_true(n.bare_probe)
    &&& match n.file_name {
        Some(f) => f@ != ".git"@,
        None => false,
    }
}

/// The directory is a working-tree repository: it holds a `.git`
/// subdirectory and the work-tree probe answered `"true"`.
pub open spec fn spec_is_work_tree(n: DirNode) -> bool {
    n.git_dir && spec_probe_true(n.tree_probe)
}

pub open spec fn spec_git_state(n: DirNode) -> GitState {
    GitState { is_bare: spec_is_bare(n), is_work_tree: spec_is_work_tree(n) }
}

pub open spec fn spec_classify_state(s: GitState) -> DirKind {
    if s.is_bare {
        DirKind::BareRepository
    } else if s.is_work_tree {
        DirKind::GitWorktree
    } else {
        DirKind::PlainDirectory
    }
}

/// The kind a scanned directory is reported as.
pub open spec fn spec_kind(n: DirNode) -> DirKind {
    spec_classify_state(spec_git_state(n))
}

/// Decides whether a scanned directory is a bare repository. Every failure
/// of the probe (no output captured, output not `"true"`) collapses to
/// `false`; nothing is raised to the caller.
pub fn is_bare_repository(n: &DirNode) -> (b: bool)
    ensures
        b == spec_is_bare(*n),
{
    if n.head_is_file {
        if probe_says_true(&n.bare_probe) {
            match &n.file_name {
                Some(f) => !str_eq(f.as_str(), ".git"),
                None => false,
            }
        } else {
            false
        }
    } else {
        false
    }
}

/// Decides whether a scanned directory is a working-tree repository, with
/// the same failure-swallowing policy as the bare check.
pub fn is_git_repository(n: &DirNode) -> (b: bool)
    ensures
        b == spec_is_work_tree(*n),
{
    if n.git_dir {
        probe_says_true(&n.tree_probe)
    } else {
        false
    }
}

/// Runs both checks on one scanned directory.
pub fn classify_git_state(n: &DirNode) -> (s: GitState)
    ensures
        s == spec_git_state(*n),
{
    GitState { is_bare: is_bare_repository(n), is_work_tree: is_git_repository(n) }
}

/// Maps a probed git state to a directory kind; bare detection takes
/// precedence over work-tree detection.
pub fn classify(s: GitState) -> (k: DirKind)
    ensures
        k == spec_classify_state(s),
{
    if s.is_bare {
        DirKind::BareRepository
    } else if s.is_work_tree {
        DirKind::GitWorktree
    } else {
        DirKind::PlainDirectory
    }
}

/// A directory holding a `HEAD` regular file, whose git-dir probe output
/// trims to `"true"`, and whose final path component is not the git metadata
/// directory name, is classified as a bare repository.
pub proof fn lemma_classify_bare(n: DirNode)
    requires
        n.head_is_file,
        spec_probe_true(n.bare_probe),
        n.file_name matches Some(f) && f@ != ".git"@,
    ensures
        spec_kind(n) == DirKind::BareRepository,
{
}

/// A directory holding a `.git` subdirectory whose work-tree probe output
/// trims to `"true"` is classified as a working-tree repository, unless the
/// bare conditions also hold, in which case bare wins.
pub proof fn lemma_classify_work_tree(n: DirNode)
    requires
        n.git_dir,
        spec_probe_true(n.tree_probe),
    ensures
        spec_kind(n) == if spec_is_bare(n) {
            DirKind::BareRepository
        } else {
            DirKind::GitWorktree
        },
{
}

/// Every other directory is classified as a plain directory.
pub proof fn lemma_classify_plain(n: DirNode)
    requires
        !(n.head_is_file && spec_probe_true(n.bare_probe) && (n.file_name matches Some(f)
            && f@ != ".git"@)),
        !(n.git_dir && spec_probe_true(n.tree_probe)),
    ensures
        spec_kind(n) == DirKind::PlainDirectory,
{
}

/// Graceful degradation at one directory: when the git tool is unavailable,
/// no probe captures any output, and the directory is classified as plain
/// whatever its `HEAD` file or `.git` subdirectory say.
pub proof fn lemma_no_tool_plain(n: DirNode)
    requires
        n.bare_probe is None,
        n.tree_probe is None,
    ensures
        spec_kind(n) == DirKind::PlainDirectory,
{
}

} // verus!
