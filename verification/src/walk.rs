//! The recursive traversal engine.
//!
//! The walk enumerates the directories of a snapshot strictly under a root
//! at relative depths one up to the requested depth, in depth-first order,
//! classifies each, and appends extra entries right after an entry according
//! to its kind: a bare repository contributes its listed worktrees; a plain
//! directory, while the nesting level allows it, is expanded one further
//! level with the plain entries of that expansion dropped; a working-tree
//! repository contributes nothing further.
use vstd::prelude::*;
use vstd::string::*;
use crate::classify::{classify, classify_git_state, spec_kind};
use crate::model::{entry_views, path_views, ClassifiedEntry, DirKind, DirNode, EntrySpec};
use crate::worktrees::{parse_worktree_list, spec_worktree_paths};

verus! {

/// The entries a captured worktree listing contributes after a bare
/// repository's own entry: one linked-worktree entry per listed path, in
/// listing order; none when the listing could not be captured.
pub open spec fn spec_worktree_entries(listing: Option<String>) -> Seq<EntrySpec> {
    match listing {
        None => Seq::empty(),
        Some(s) => spec_worktree_paths(s@).map_values(
            |p: Seq<char>| EntrySpec { kind: DirKind::LinkedWorktree, path: p },
        ),
    }
}

/// `es` without its plain-directory entries, order kept.
pub open spec fn non_plain(es: Seq<EntrySpec>) -> Seq<EntrySpec>
    decreases es.len(),
{
    if es.len() == 0 {
        Seq::empty()
    } else {
        non_plain(es.drop_last()) + if es.last().kind != DirKind::PlainDirectory {
            seq![es.last()]
        } else {
            Seq::empty()
        }
    }
}

/// The entries one scanned directory contributes: its own classified entry,
/// then its kind-conditional expansion, then — while the walk still has
/// depth to spend — the entries of its subdirectories.
pub open spec fn spec_walk_entry(n: DirNode, depth: nat, level: nat) -> Seq<EntrySpec>
    decreases n, 0nat,
{
    proof {
        assert(decreases_to!(n => n.children));
        assert(decreases_to!(n.children => n.children@));
    }
    let kind = spec_kind(n);
    let expansion = if kind == DirKind::BareRepository {
        spec_worktree_entries(n.worktree_list)
    } else if kind == DirKind::PlainDirectory && level <= 1 {
        non_plain(spec_walk_children(n.children@, 0, 1, level + 1))
    } else {
        Seq::empty()
    };
    let deeper = if depth > 1 {
        spec_walk_children(n.children@, 0, (depth - 1) as nat, level)
    } else {
        Seq::empty()
    };
    seq![EntrySpec { kind, path: n.path@ }] + expansion + deeper
}

/// The entries contributed by the directories `ns[i..]`, walked at the given
/// depth and nesting level; nothing is enumerated at depth zero.
pub open spec fn spec_walk_children(ns: Seq<DirNode>, i: int, depth: nat, level: nat) -> Seq<
    EntrySpec,
>
    decreases ns, ns.len() - i,
{
    if depth == 0 || i < 0 || i >= ns.len() {
        Seq::empty()
    } else {
        proof {
            assert(decreases_to!(ns => ns[i]));
        }
        spec_walk_entry(ns[i], depth, level) + spec_walk_children(ns, i + 1, depth, level)
    }
}

/// Walks the snapshot rooted at `root`, reporting every directory strictly
/// under it at relative depths one up to `depth` together with the
/// kind-conditional extra entries, in traversal order. The root itself is
/// never reported.
pub fn walk(root: &DirNode, depth: usize, level: usize) -> (res: Vec<ClassifiedEntry>)
    ensures
        entry_views(res@) == spec_walk_children(root.children@, 0, depth as nat, level as nat),
    decreases *root,
{
    let ghost ns = root.children@;
    let ghost d = depth as nat;
    let ghost l = level as nat;
    let mut res: Vec<ClassifiedEntry> = Vec::new();
    if depth == 0 {
        proof {
            assert(entry_views(res@) =~= spec_walk_children(ns, 0, d, l));
        }
        return res;
    }
    let mut idx: usize = 0;
    proof {
        assert(entry_views(res@) + spec_walk_children(ns, 0, d, l) =~= spec_walk_children(
            ns,
            0,
            d,
            l,
        ));
    }
    while idx < root.children.len()
        invariant
            0 <= idx <= root.children.len(),
            depth >= 1,
            ns == root.children@,
            d == depth as nat,
            l == level as nat,
            entry_views(res@) + spec_walk_children(ns, idx as int, d, l) == spec_walk_children(
                ns,
                0,
                d,
                l,
            ),
        decreases root.children.len() - idx,
    {
        let ghost views0 = entry_views(res@);
        let c = &root.children[idx];
        proof {
            assert(decreases_to!(*root => root.children));
            assert(decreases_to!(root.children => root.children@));
            assert(decreases_to!(root.children@ => root.children@[idx as int]));
        }
        let st = classify_git_state(c);
        let kind = classify(st);
        res.push(ClassifiedEntry { kind, path: c.path.clone() });
        let ghost head = seq![EntrySpec { kind: spec_kind(ns[idx as int]), path: ns[idx as int].path@ }];
        proof {
            assert(entry_views(res@) =~= views0 + head);
        }
        let ghost expansion: Seq<EntrySpec> = if kind == DirKind::BareRepository {
            spec_worktree_entries(ns[idx as int].worktree_list)
        } else if kind == DirKind::PlainDirectory && l <= 1 {
            non_plain(spec_walk_children(ns[idx as int].children@, 0, 1, l + 1))
        } else {
            Seq::empty()
        };
        match kind {
            DirKind::BareRepository => {
                match &c.worktree_list {
                    Some(listing) => {
                        let wt = parse_worktree_list(listing.as_str());
                        proof {
                            assert(expansion =~= path_views(wt@).map_values(
                                |p: Seq<char>| EntrySpec { kind: DirKind::LinkedWorktree, path: p },
                            ));
                        }
                        let ghost views1 = entry_views(res@);
                        let mut k: usize = 0;
                        while k < wt.len()
                            invariant
                                0 <= k <= wt.len(),
                                entry_views(res@) =~= views1 + expansion.take(k as int),
                                expansion =~= path_views(wt@).map_values(
                                    |p: Seq<char>| EntrySpec {
                                        kind: DirKind::LinkedWorktree,
                                        path: p,
                                    },
                                ),
                            decreases wt.len() - k,
                        {
                            let ghost before = entry_views(res@);
                            res.push(
                                ClassifiedEntry {
                                    kind: DirKind::LinkedWorktree,
                                    path: wt[k].clone(),
                                },
                            );
                            proof {
                                assert(expansion[k as int] == EntrySpec {
                                    kind: DirKind::LinkedWorktree,
                                    path: wt@[k as int]@,
                                });
                                assert(entry_views(res@) =~= before + seq![expansion[k as int]]);
                                assert(expansion.take(k + 1) =~= expansion.take(k as int)
                                    + seq![expansion[k as int]]);
                                assert(entry_views(res@) =~= views1 + expansion.take(k + 1));
                            }
                            k = k + 1;
                        }
                        proof {
                            assert(expansion.take(wt@.len() as int) =~= expansion);
                        }
                    },
                    None => {
                        proof {
                            assert(expansion =~= Seq::<EntrySpec>::empty());
                            assert(entry_views(res@) =~= views0 + head + expansion);
                        }
                    },
                }
            },
            DirKind::PlainDirectory => {
                if level <= 1 {
                    let sub = walk(c, 1, level + 1);
                    let ghost sub_views = entry_views(sub@);
                    proof {
                        assert(expansion =~= non_plain(sub_views));
                    }
                    let ghost views1 = entry_views(res@);
                    let mut k: usize = 0;
                    while k < sub.len()
                        invariant
                            0 <= k <= sub.len(),
                            sub_views == entry_views(sub@),
                            entry_views(res@) =~= views1 + non_plain(sub_views.take(k as int)),
                        decreases sub.len() - k,
                    {
                        let ghost before = entry_views(res@);
                        if sub[k].kind != DirKind::PlainDirectory {
                            res.push(
                                ClassifiedEntry { kind: sub[k].kind, path: sub[k].path.clone() },
                            );
                        }
                        proof {
                            assert(sub_views.take(k + 1).drop_last() =~= sub_views.take(k as int));
                            assert(sub_views.take(k + 1).last() == sub_views[k as int]);
                            if sub@[k as int].kind != DirKind::PlainDirectory {
                                assert(entry_views(res@) =~= before + seq![sub_views[k as int]]);
                                assert(entry_views(res@) =~= views1 + non_plain(
                                    sub_views.take(k + 1),
                                ));
                            } else {
                                assert(entry_views(res@) =~= views1 + non_plain(
                                    sub_views.take(k + 1),
                                ));
                            }
                        }
                        k = k + 1;
                    }
                    proof {
                        assert(sub_views.take(sub@.len() as int) =~= sub_views);
                    }
                } else {
                    proof {
                        assert(expansion =~= Seq::<EntrySpec>::empty());
                        assert(entry_views(res@) =~= views0 + head + expansion);
                    }
                }
            },
            DirKind::GitWorktree => {
                proof {
                    assert(expansion =~= Seq::<EntrySpec>::empty());
                    assert(entry_views(res@) =~= views0 + head + expansion);
                }
            },
            DirKind::LinkedWorktree => {
                proof {
                    assert(expansion =~= Seq::<EntrySpec>::empty());
                    assert(entry_views(res@) =~= views0 + head + expansion);
                }
            },
        }
        proof {
            assert(entry_views(res@) =~= views0 + head + expansion);
        }
        let ghost deeper: Seq<EntrySpec> = if d > 1 {
            spec_walk_children(ns[idx as int].children@, 0, (d - 1) as nat, l)
        } else {
            Seq::empty()
        };
        if depth > 1 {
            let mut extra = walk(c, depth - 1, level);
            let ghost extra_views = entry_views(extra@);
            proof {
                assert(extra_views =~= deeper);
            }
            res.append(&mut extra);
            proof {
                assert(entry_views(res@) =~= views0 + head + expansion + deeper);
            }
        } else {
            proof {
                assert(deeper =~= Seq::<EntrySpec>::empty());
                assert(entry_views(res@) =~= views0 + head + expansion + deeper);
            }
        }
        proof {
            assert(spec_walk_entry(ns[idx as int], d, l) == head + expansion + deeper);
            assert(entry_views(res@) =~= views0 + spec_walk_entry(ns[idx as int], d, l));
            assert(spec_walk_children(ns, idx as int, d, l) == spec_walk_entry(ns[idx as int], d, l)
                + spec_walk_children(ns, idx + 1, d, l));
            assert(entry_views(res@) + spec_walk_children(ns, idx + 1, d, l) =~= spec_walk_children(
                ns,
                0,
                d,
                l,
            ));
        }
        idx = idx + 1;
    }
    proof {
        assert(spec_walk_children(ns, ns.len() as int, d, l) =~= Seq::<EntrySpec>::empty());
        assert(entry_views(res@) + Seq::<EntrySpec>::empty() =~= entry_views(res@));
    }
    res
}

/// The traversal as the tool invokes it: an absent nesting level means the
/// initial, un-nested call.
pub fn process_entries(root: &DirNode, depth: usize, recursivity_level: Option<usize>) -> (res: Vec<
    ClassifiedEntry,
>)
    ensures
        entry_views(res@) == spec_walk_children(
            root.children@,
            0,
            depth as nat,
            (match recursivity_level {
                Some(l) => l,
                None => 0,
            }) as nat,
        ),
{
    let level = match recursivity_level {
        Some(l) => l,
        None => 0,
    };
    walk(root, depth, level)
}

/// How many levels a snapshot must hold so a walk at the given depth sees
/// everything it can reach: the nested plain-directory expansions descend at
/// most two further levels beyond the enumerated depth.
pub fn snapshot_depth(depth: usize) -> (r: usize)
    ensures
        r as int == if depth as int + 2 <= usize::MAX as int {
            depth as int + 2
        } else {
            usize::MAX as int
        },
{
    if depth > usize::MAX - 2 {
        usize::MAX
    } else {
        depth + 2
    }
}

/// Every entry of `es` is a plain directory.
pub open spec fn all_plain(es: Seq<EntrySpec>) -> bool {
    forall|k: int| 0 <= k < es.len() ==> (#[trigger] es[k]).kind == DirKind::PlainDirectory
}

/// No entry of `es` is a plain directory.
pub open spec fn plain_free(es: Seq<EntrySpec>) -> bool {
    forall|k: int| 0 <= k < es.len() ==> (#[trigger] es[k]).kind != DirKind::PlainDirectory
}

pub proof fn lemma_non_plain_plain_free(es: Seq<EntrySpec>)
    ensures
        plain_free(non_plain(es)),
    decreases es.len(),
{
    if es.len() == 0 {
    } else {
        lemma_non_plain_plain_free(es.drop_last());
    }
}

pub proof fn lemma_non_plain_of_all_plain(es: Seq<EntrySpec>)
    requires
        all_plain(es),
    ensures
        non_plain(es) == Seq::<EntrySpec>::empty(),
    decreases es.len(),
{
    if es.len() == 0 {
        assert(non_plain(es) =~= Seq::<EntrySpec>::empty());
    } else {
        assert(forall|k: int| 0 <= k < es.len() - 1 ==> es.drop_last()[k] == es[k]);
        lemma_non_plain_of_all_plain(es.drop_last());
        assert(es.last().kind == DirKind::PlainDirectory);
        assert(non_plain(es) =~= Seq::<EntrySpec>::empty());
    }
}

/// Plain-directory filtering: when a plain directory is expanded, the
/// entries that expansion appends after the directory's own entry hold no
/// plain-directory entries — only repositories and worktrees found beneath
/// it are surfaced.
pub proof fn lemma_plain_expansion_filtered(n: DirNode, level: nat)
    requires
        spec_kind(n) == DirKind::PlainDirectory,
        level <= 1,
    ensures
        plain_free(spec_walk_entry(n, 1, level).drop_first()),
{
    let sub = spec_walk_children(n.children@, 0, 1, level + 1);
    lemma_non_plain_plain_free(sub);
    let head = seq![EntrySpec { kind: spec_kind(n), path: n.path@ }];
    assert(spec_walk_entry(n, 1, level) == head + non_plain(sub) + Seq::<EntrySpec>::empty());
    assert(spec_walk_entry(n, 1, level).drop_first() =~= non_plain(sub));
}

/// The git tool was entirely unavailable while this subtree was scanned: no
/// probe anywhere in it captured any output.
pub open spec fn git_tool_absent(n: DirNode) -> bool
    decreases n, 0nat,
{
    proof {
        assert(decreases_to!(n => n.children));
        assert(decreases_to!(n.children => n.children@));
    }
    &&& n.bare_probe is None
    &&& n.tree_probe is None
    &&& children_git_tool_absent(n.children@, 0)
}

pub open spec fn children_git_tool_absent(ns: Seq<DirNode>, i: int) -> bool
    decreases ns, ns.len() - i,
{
    if i < 0 || i >= ns.len() {
        true
    } else {
        proof {
            assert(decreases_to!(ns => ns[i]));
        }
        git_tool_absent(ns[i]) && children_git_tool_absent(ns, i + 1)
    }
}

/// Graceful degradation: when the git tool is entirely unavailable, every
/// directory the walk reports — at any depth and nesting level — is
/// classified as a plain directory, and nothing else is reported.
pub proof fn lemma_degradation(ns: Seq<DirNode>, i: int, depth: nat, level: nat)
    requires
        children_git_tool_absent(ns, i),
    ensures
        all_plain(spec_walk_children(ns, i, depth, level)),
    decreases ns, ns.len() - i,
{
    if depth == 0 || i < 0 || i >= ns.len() {
    } else {
        assert(decreases_to!(ns => ns[i]));
        lemma_degradation_entry(ns[i], depth, level);
        lemma_degradation(ns, i + 1, depth, level);
        assert(spec_walk_children(ns, i, depth, level) == spec_walk_entry(ns[i], depth, level)
            + spec_walk_children(ns, i + 1, depth, level));
    }
}

proof fn lemma_degradation_entry(n: DirNode, depth: nat, level: nat)
    requires
        git_tool_absent(n),
    ensures
        all_plain(spec_walk_entry(n, depth, level)),
    decreases n, 0nat,
{
    assert(decreases_to!(n => n.children));
    assert(decreases_to!(n.children => n.children@));
    crate::classify::lemma_no_tool_plain(n);
    let sub = spec_walk_children(n.children@, 0, 1, level + 1);
    if level <= 1 {
        lemma_degradation(n.children@, 0, 1, level + 1);
        lemma_non_plain_of_all_plain(sub);
    }
    if depth > 1 {
        lemma_degradation(n.children@, 0, (depth - 1) as nat, level);
    }
}

/// A plain-directory entry stems from one of the directories of `ns`.
pub open spec fn plain_only_from(es: Seq<EntrySpec>, ns: Seq<DirNode>) -> bool {
    forall|k: int|
        0 <= k < es.len() && (#[trigger] es[k]).kind == DirKind::PlainDirectory ==> exists|j: int|
            0 <= j < ns.len() && es[k].path == (#[trigger] ns[j]).path@
}

/// Depth bound: at depth one, every plain-directory entry the walk reports
/// carries the path of an immediate child of the root — everything deeper is
/// surfaced only through worktree listings or filtered plain-directory
/// expansion, which report no plain directory.
pub proof fn lemma_depth_bound(ns: Seq<DirNode>, i: int, level: nat)
    ensures
        plain_only_from(spec_walk_children(ns, i, 1, level), ns),
    decreases ns.len() - i,
{
    let es = spec_walk_children(ns, i, 1, level);
    if i < 0 || i >= ns.len() {
    } else {
        lemma_depth_bound(ns, i + 1, level);
        let one = spec_walk_entry(ns[i], 1, level);
        let rest = spec_walk_children(ns, i + 1, 1, level);
        assert(es == one + rest);
        let kind = spec_kind(ns[i]);
        let head = seq![EntrySpec { kind, path: ns[i].path@ }];
        let expansion = if kind == DirKind::BareRepository {
            spec_worktree_entries(ns[i].worktree_list)
        } else if kind == DirKind::PlainDirectory && level <= 1 {
            non_plain(spec_walk_children(ns[i].children@, 0, 1, level + 1))
        } else {
            Seq::<EntrySpec>::empty()
        };
        assert(one == head + expansion + Seq::<EntrySpec>::empty());
        assert(plain_free(expansion)) by {
            if kind == DirKind::BareRepository {
                match ns[i].worktree_list {
                    None => {},
                    Some(s) => {
                        assert(forall|k: int|
                            0 <= k < expansion.len() ==> (#[trigger] expansion[k]).kind
                                == DirKind::LinkedWorktree);
                    },
                }
            } else if kind == DirKind::PlainDirectory && level <= 1 {
                lemma_non_plain_plain_free(spec_walk_children(ns[i].children@, 0, 1, level + 1));
            }
        }
        assert forall|k: int|
            0 <= k < es.len() && (#[trigger] es[k]).kind
                == DirKind::PlainDirectory implies exists|j: int|
            0 <= j < ns.len() && es[k].path == (#[trigger] ns[j]).path@ by {
            if k == 0 {
                assert(es[0] == head[0]);
                assert(es[k].path == ns[i].path@);
            } else if k < one.len() {
                assert(es[k] == expansion[k - 1]);
                assert(false);
            } else {
                assert(es[k] == rest[k - one.len()]);
            }
        }
    }
}

/// The directory reached from the sibling sequence `ns` by the index path
/// `idxs`: the first index picks a directory of `ns`, each further index a
/// subdirectory of the one before.
pub open spec fn node_at(ns: Seq<DirNode>, idxs: Seq<int>) -> DirNode
    decreases idxs.len(),
{
    if idxs.len() <= 1 {
        ns[idxs[0]]
    } else {
        node_at(ns[idxs[0]].children@, idxs.drop_first())
    }
}

/// `idxs` names a directory enumerable from `ns`.
pub open spec fn valid_index_path(ns: Seq<DirNode>, idxs: Seq<int>) -> bool
    decreases idxs.len(),
{
    &&& idxs.len() >= 1
    &&& 0 <= idxs[0] < ns.len()
    &&& (idxs.len() > 1 ==> valid_index_path(ns[idxs[0]].children@, idxs.drop_first()))
}

proof fn lemma_add_contains_left(a: Seq<EntrySpec>, b: Seq<EntrySpec>, e: EntrySpec)
    requires
        a.contains(e),
    ensures
        (a + b).contains(e),
{
    let i = choose|i: int| 0 <= i < a.len() && a[i] == e;
    assert((a + b)[i] == e);
}

proof fn lemma_add_contains_right(a: Seq<EntrySpec>, b: Seq<EntrySpec>, e: EntrySpec)
    requires
        b.contains(e),
    ensures
        (a + b).contains(e),
{
    let i = choose|i: int| 0 <= i < b.len() && b[i] == e;
    assert((a + b)[a.len() + i] == e);
}

proof fn lemma_walk_children_keep_entry(
    ns: Seq<DirNode>,
    i: int,
    k: int,
    depth: nat,
    level: nat,
    e: EntrySpec,
)
    requires
        depth >= 1,
        0 <= i <= k < ns.len(),
        spec_walk_entry(ns[k], depth, level).contains(e),
    ensures
        spec_walk_children(ns, i, depth, level).contains(e),
    decreases k - i,
{
    if i == k {
        lemma_add_contains_left(
            spec_walk_entry(ns[i], depth, level),
            spec_walk_children(ns, i + 1, depth, level),
            e,
        );
    } else {
        lemma_walk_children_keep_entry(ns, i + 1, k, depth, level, e);
        lemma_add_contains_right(
            spec_walk_entry(ns[i], depth, level),
            spec_walk_children(ns, i + 1, depth, level),
            e,
        );
    }
}

/// Every enumerated directory is reported: whatever directory the index
/// path `idxs` reaches within the enumerated depth, the walk's result holds
/// its classified entry, with the kind its probe outputs fix.
pub proof fn lemma_enumerated_directory_reported(
    ns: Seq<DirNode>,
    idxs: Seq<int>,
    depth: nat,
    level: nat,
)
    requires
        valid_index_path(ns, idxs),
        1 <= idxs.len() <= depth,
    ensures
        spec_walk_children(ns, 0, depth, level).contains(
            EntrySpec { kind: spec_kind(node_at(ns, idxs)), path: node_at(ns, idxs).path@ },
        ),
    decreases idxs.len(),
{
    let k = idxs[0];
    let e = EntrySpec { kind: spec_kind(node_at(ns, idxs)), path: node_at(ns, idxs).path@ };
    let kind = spec_kind(ns[k]);
    let head = seq![EntrySpec { kind, path: ns[k].path@ }];
    let expansion = if kind == DirKind::BareRepository {
        spec_worktree_entries(ns[k].worktree_list)
    } else if kind == DirKind::PlainDirectory && level <= 1 {
        non_plain(spec_walk_children(ns[k].children@, 0, 1, level + 1))
    } else {
        Seq::<EntrySpec>::empty()
    };
    let deeper = if depth > 1 {
        spec_walk_children(ns[k].children@, 0, (depth - 1) as nat, level)
    } else {
        Seq::<EntrySpec>::empty()
    };
    assert(spec_walk_entry(ns[k], depth, level) == head + expansion + deeper);
    if idxs.len() == 1 {
        assert((head + expansion + deeper)[0] == e);
        assert(spec_walk_entry(ns[k], depth, level).contains(e));
    } else {
        lemma_enumerated_directory_reported(
            ns[k].children@,
            idxs.drop_first(),
            (depth - 1) as nat,
            level,
        );
        assert(node_at(ns, idxs) == node_at(ns[k].children@, idxs.drop_first()));
        assert(deeper.contains(e));
        lemma_add_contains_right(head + expansion, deeper, e);
    }
    lemma_walk_children_keep_entry(ns, 0, k, depth, level, e);
}

/// Idempotence: walking an unchanged snapshot twice — no probe output, no
/// listing, no directory differing between the two walks — produces the
/// identical ordered sequence of entries.
pub proof fn lemma_walk_idempotent(
    first: Seq<DirNode>,
    second: Seq<DirNode>,
    depth: nat,
    level: nat,
)
    requires
        first == second,
    ensures
        spec_walk_children(first, 0, depth, level) == spec_walk_children(second, 0, depth, level),
{
}

} // verus!
