use repo_scan::classify::{
    classify, classify_git_state, is_bare_repository, is_git_repository, probe_says_true,
};
use repo_scan::model::{ClassifiedEntry, DirKind, DirNode};
use repo_scan::paths::expand_path;
use repo_scan::walk::{process_entries, snapshot_depth, walk};
use repo_scan::worktrees::parse_worktree_list;

fn dir(path: &str, name: &str) -> DirNode {
    DirNode {
        path: path.to_string(),
        head_is_file: false,
        bare_probe: None,
        file_name: Some(name.to_string()),
        git_dir: false,
        tree_probe: None,
        worktree_list: None,
        children: Vec::new(),
    }
}

fn git_repo(path: &str, name: &str) -> DirNode {
    let mut n = dir(path, name);
    n.git_dir = true;
    n.tree_probe = Some("true\n".to_string());
    n
}

fn bare_repo(path: &str, name: &str, listing: Option<&str>) -> DirNode {
    let mut n = dir(path, name);
    n.head_is_file = true;
    n.bare_probe = Some("true\n".to_string());
    n.worktree_list = listing.map(|s| s.to_string());
    n
}

fn entry(kind: DirKind, path: &str) -> ClassifiedEntry {
    ClassifiedEntry { kind, path: path.to_string() }
}

#[test]
fn probe_output_true_trimmed() {
    assert!(probe_says_true(&Some("true".to_string())));
    assert!(probe_says_true(&Some("true\n".to_string())));
    assert!(probe_says_true(&Some("  \ttrue \r\n".to_string())));
}

#[test]
fn probe_output_not_true() {
    assert!(!probe_says_true(&None));
    assert!(!probe_says_true(&Some(String::new())));
    assert!(!probe_says_true(&Some("false\n".to_string())));
    assert!(!probe_says_true(&Some("true.".to_string())));
    assert!(!probe_says_true(&Some("tru e".to_string())));
}

#[test]
fn bare_repository_detected() {
    let n = bare_repo("/r/proj.git", "proj.git", None);
    assert!(is_bare_repository(&n));
    assert_eq!(classify(classify_git_state(&n)), DirKind::BareRepository);
}

#[test]
fn bare_needs_head_file() {
    let mut n = bare_repo("/r/proj.git", "proj.git", None);
    n.head_is_file = false;
    assert!(!is_bare_repository(&n));
    assert_eq!(classify(classify_git_state(&n)), DirKind::PlainDirectory);
}

#[test]
fn bare_rejected_for_git_metadata_dir() {
    let n = bare_repo("/r/proj/.git", ".git", None);
    assert!(!is_bare_repository(&n));
    assert_eq!(classify(classify_git_state(&n)), DirKind::PlainDirectory);
}

#[test]
fn bare_rejected_without_file_name() {
    let mut n = bare_repo("/r/..", "x", None);
    n.file_name = None;
    assert!(!is_bare_repository(&n));
}

#[test]
fn work_tree_detected() {
    let n = git_repo("/r/proj", "proj");
    assert!(is_git_repository(&n));
    assert_eq!(classify(classify_git_state(&n)), DirKind::GitWorktree);
}

#[test]
fn work_tree_needs_git_dir() {
    let mut n = git_repo("/r/proj", "proj");
    n.git_dir = false;
    assert!(!is_git_repository(&n));
    assert_eq!(classify(classify_git_state(&n)), DirKind::PlainDirectory);
}

#[test]
fn bare_wins_over_work_tree() {
    let mut n = bare_repo("/r/odd", "odd", None);
    n.git_dir = true;
    n.tree_probe = Some("true".to_string());
    assert_eq!(classify(classify_git_state(&n)), DirKind::BareRepository);
}

#[test]
fn plain_when_probes_fail() {
    let mut n = dir("/r/d", "d");
    n.head_is_file = true;
    n.bare_probe = Some("false\n".to_string());
    n.git_dir = true;
    n.tree_probe = Some("fatal: not a git repository".to_string());
    assert_eq!(classify(classify_git_state(&n)), DirKind::PlainDirectory);
}

#[test]
fn tool_unavailable_degrades_to_plain() {
    let mut repo = git_repo("/r/proj", "proj");
    repo.tree_probe = None;
    let mut bare = bare_repo("/r/proj.git", "proj.git", None);
    bare.bare_probe = None;
    let mut root = dir("/r", "r");
    root.children = vec![repo, bare];
    let entries = walk(&root, 1, 0);
    assert_eq!(
        entries,
        vec![
            entry(DirKind::PlainDirectory, "/r/proj"),
            entry(DirKind::PlainDirectory, "/r/proj.git"),
        ]
    );
}

#[test]
fn worktree_listing_parsed() {
    let out = "/a/wt1 1234abcd [main]\n/repo.git (bare)\n/a/wt2 5678efab [dev]\n";
    let paths = parse_worktree_list(out);
    assert_eq!(paths, vec!["/a/wt1".to_string(), "/a/wt2".to_string()]);
}

#[test]
fn worktree_listing_skips_lines_without_whitespace() {
    let paths = parse_worktree_list("lonepath\n/x y\n");
    assert_eq!(paths, vec!["/x".to_string()]);
}

#[test]
fn worktree_listing_splits_at_any_whitespace() {
    let paths = parse_worktree_list("/a\tb\n/c d\n");
    assert_eq!(paths, vec!["/a".to_string(), "/c".to_string()]);
}

#[test]
fn worktree_listing_empty_output() {
    let paths = parse_worktree_list("");
    assert_eq!(paths, Vec::<String>::new());
}

#[test]
fn worktree_listing_strips_carriage_return() {
    let paths = parse_worktree_list("/a/wt1 abcd\r\n");
    assert_eq!(paths, vec!["/a/wt1".to_string()]);
}

#[test]
fn worktree_listing_keeps_order() {
    let paths = parse_worktree_list("/b second\n/a first\n");
    assert_eq!(paths, vec!["/b".to_string(), "/a".to_string()]);
}

#[test]
fn bare_entry_followed_by_linked_worktrees() {
    let listing = "/a/wt1 1234abcd [main]\n/repo.git (bare)\n/a/wt2 5678efab [dev]\n";
    let mut root = dir("/r", "r");
    root.children = vec![bare_repo("/r/repo.git", "repo.git", Some(listing))];
    let entries = walk(&root, 1, 0);
    assert_eq!(
        entries,
        vec![
            entry(DirKind::BareRepository, "/r/repo.git"),
            entry(DirKind::LinkedWorktree, "/a/wt1"),
            entry(DirKind::LinkedWorktree, "/a/wt2"),
        ]
    );
}

#[test]
fn bare_with_failed_listing_adds_nothing() {
    let mut root = dir("/r", "r");
    root.children = vec![bare_repo("/r/repo.git", "repo.git", None)];
    let entries = walk(&root, 1, 0);
    assert_eq!(entries, vec![entry(DirKind::BareRepository, "/r/repo.git")]);
}

#[test]
fn plain_expansion_drops_plain_entries() {
    let mut p = dir("/r/p", "p");
    p.children = vec![dir("/r/p/q", "q"), git_repo("/r/p/g", "g")];
    let mut root = dir("/r", "r");
    root.children = vec![p];
    let entries = walk(&root, 1, 0);
    assert_eq!(
        entries,
        vec![
            entry(DirKind::PlainDirectory, "/r/p"),
            entry(DirKind::GitWorktree, "/r/p/g"),
        ]
    );
}

#[test]
fn plain_expansion_reaches_two_extra_levels() {
    let mut b = dir("/r/a/b", "b");
    b.children = vec![git_repo("/r/a/b/g", "g")];
    let mut a = dir("/r/a", "a");
    a.children = vec![b];
    let mut root = dir("/r", "r");
    root.children = vec![a];
    let entries = walk(&root, 1, 0);
    assert_eq!(
        entries,
        vec![
            entry(DirKind::PlainDirectory, "/r/a"),
            entry(DirKind::GitWorktree, "/r/a/b/g"),
        ]
    );
}

#[test]
fn plain_expansion_stops_after_two_extra_levels() {
    let mut c = dir("/r/a/b/c", "c");
    c.children = vec![git_repo("/r/a/b/c/g", "g")];
    let mut b = dir("/r/a/b", "b");
    b.children = vec![c];
    let mut a = dir("/r/a", "a");
    a.children = vec![b];
    let mut root = dir("/r", "r");
    root.children = vec![a];
    let entries = walk(&root, 1, 0);
    assert_eq!(entries, vec![entry(DirKind::PlainDirectory, "/r/a")]);
}

#[test]
fn depth_zero_reports_nothing() {
    let mut root = dir("/r", "r");
    root.children = vec![git_repo("/r/proj", "proj")];
    let entries = walk(&root, 0, 0);
    assert_eq!(entries, Vec::<ClassifiedEntry>::new());
}

#[test]
fn depth_one_stays_at_immediate_children() {
    let mut repo = git_repo("/r/proj", "proj");
    repo.children = vec![dir("/r/proj/src", "src")];
    let mut root = dir("/r", "r");
    root.children = vec![repo];
    let entries = walk(&root, 1, 0);
    assert_eq!(entries, vec![entry(DirKind::GitWorktree, "/r/proj")]);
}

#[test]
fn depth_two_enumerates_grandchildren() {
    let mut repo = git_repo("/r/proj", "proj");
    repo.children = vec![dir("/r/proj/src", "src")];
    let mut root = dir("/r", "r");
    root.children = vec![repo];
    let entries = walk(&root, 2, 0);
    assert_eq!(
        entries,
        vec![
            entry(DirKind::GitWorktree, "/r/proj"),
            entry(DirKind::PlainDirectory, "/r/proj/src"),
        ]
    );
}

#[test]
fn expanded_and_enumerated_repo_appears_twice() {
    let mut p = dir("/r/p", "p");
    p.children = vec![git_repo("/r/p/g", "g")];
    let mut root = dir("/r", "r");
    root.children = vec![p];
    let entries = walk(&root, 2, 0);
    assert_eq!(
        entries,
        vec![
            entry(DirKind::PlainDirectory, "/r/p"),
            entry(DirKind::GitWorktree, "/r/p/g"),
            entry(DirKind::GitWorktree, "/r/p/g"),
        ]
    );
}

#[test]
fn walk_twice_gives_identical_entries() {
    let listing = "/a/wt1 1234abcd [main]\n/repo.git (bare)\n";
    let mut p = dir("/r/p", "p");
    p.children = vec![git_repo("/r/p/g", "g")];
    let mut root = dir("/r", "r");
    root.children = vec![
        p,
        bare_repo("/r/repo.git", "repo.git", Some(listing)),
        git_repo("/r/proj", "proj"),
    ];
    let first = walk(&root, 2, 0);
    let second = walk(&root, 2, 0);
    assert_eq!(first, second);
}

#[test]
fn process_entries_defaults_to_level_zero() {
    let mut p = dir("/r/p", "p");
    p.children = vec![git_repo("/r/p/g", "g")];
    let mut root = dir("/r", "r");
    root.children = vec![p];
    assert_eq!(process_entries(&root, 1, None), walk(&root, 1, 0));
    assert_eq!(process_entries(&root, 1, Some(2)), walk(&root, 1, 2));
}

#[test]
fn snapshot_depth_adds_expansion_levels() {
    assert_eq!(snapshot_depth(1), 3);
    assert_eq!(snapshot_depth(0), 2);
    assert_eq!(snapshot_depth(usize::MAX), usize::MAX);
}

#[test]
fn expand_tilde_path() {
    assert_eq!(expand_path("~/code", "/home/u"), "/home/u/code".to_string());
}

#[test]
fn expand_relative_path() {
    assert_eq!(expand_path("code", "/home/u"), "/home/u/code".to_string());
}

#[test]
fn expand_absolute_path() {
    assert_eq!(expand_path("/abs/code", "/home/u"), "/abs/code".to_string());
}

#[test]
fn expand_tilde_without_separator_joined_as_is() {
    assert_eq!(expand_path("~x/code", "/home/u"), "/home/u/~x/code".to_string());
}

#[test]
fn expand_bare_tilde_joined_as_is() {
    assert_eq!(expand_path("~", "/home/u"), "/home/u/~".to_string());
}

#[test]
fn expand_tilde_slash_alone() {
    assert_eq!(expand_path("~/", "/home/u"), "/home/u/".to_string());
}

#[test]
fn expand_empty_path_keeps_separator() {
    assert_eq!(expand_path("", "/home/u"), "/home/u/".to_string());
}

#[test]
fn expand_respects_trailing_separator_of_home() {
    assert_eq!(expand_path("code", "/home/u/"), "/home/u/code".to_string());
}

#[test]
fn expand_with_empty_home() {
    assert_eq!(expand_path("code", ""), "code".to_string());
}
