//! Parsing of the captured output of the git worktree listing.
//!
//! The listing is one line per worktree. A line containing the literal
//! marker `(bare)` describes the bare repository itself and is skipped. On
//! every other line the first whitespace-delimited token is the worktree's
//! absolute path; the remaining fields are discarded, and a line with no
//! whitespace is skipped. Listing order is preserved.
use vstd::prelude::*;
use vstd::string::*;
use crate::model::path_views;
use crate::text::{
    find_char, find_char_at, find_whitespace, find_whitespace_at, is_whitespace_char,
    lemma_find_char_at, lemma_find_whitespace_at, spec_contains, str_contains,
};

verus! {

/// A line as the line splitter reports it: the trailing carriage return of a
/// terminated line is dropped.
pub open spec fn chop_cr(l: Seq<char>) -> Seq<char> {
    if l.len() > 0 && l.last() == '\r' {
        l.drop_last()
    } else {
        l
    }
}

/// The lines of `s`: split at every newline, each terminated line stripped
/// of a trailing carriage return, the final line ending optional.
pub open spec fn spec_lines(s: Seq<char>) -> Seq<Seq<char>>
    decreases s.len(),
{
    if s.len() == 0 {
        Seq::empty()
    } else {
        let i = find_char(s, '\n');
        if 0 <= i < s.len() {
            seq![chop_cr(s.subrange(0, i))] + spec_lines(s.subrange(i + 1, s.len() as int))
        } else {
            seq![s]
        }
    }
}

/// What one listing line contributes: nothing for a `(bare)` line or a line
/// without whitespace, else the text before the first whitespace character.
pub open spec fn parse_line(l: Seq<char>) -> Seq<Seq<char>> {
    if spec_contains(l, "(bare)"@) {
        Seq::empty()
    } else {
        let i = find_whitespace(l);
        if 0 <= i < l.len() {
            seq![l.subrange(0, i)]
        } else {
            Seq::empty()
        }
    }
}

pub open spec fn parse_lines(ls: Seq<Seq<char>>) -> Seq<Seq<char>>
    decreases ls.len(),
{
    if ls.len() == 0 {
        Seq::empty()
    } else {
        parse_line(ls[0]) + parse_lines(ls.drop_first())
    }
}

/// The worktree paths named by a captured listing, in listing order.
pub open spec fn spec_worktree_paths(s: Seq<char>) -> Seq<Seq<char>> {
    parse_lines(spec_lines(s))
}

/// Parses the captured standard output of the worktree listing into the
/// worktree paths it names, in listing order.
pub fn parse_worktree_list(s: &str) -> (res: Vec<String>)
    ensures
        path_views(res@) == spec_worktree_paths(s@),
{
    let n = s.unicode_len();
    let mut res: Vec<String> = Vec::new();
    let mut pos: usize = 0;
    proof {
        assert(s@.subrange(0, n as int) =~= s@);
        assert(path_views(res@) =~= Seq::<Seq<char>>::empty());
    }
    while pos < n
        invariant
            0 <= pos <= n,
            n == s@.len(),
            path_views(res@) + parse_lines(spec_lines(s@.subrange(pos as int, n as int)))
                == spec_worktree_paths(s@),
        decreases n - pos,
    {
        let ghost suffix = s@.subrange(pos as int, n as int);
        let e = find_char_at(s, pos, '\n');
        proof {
            assert(forall|k: int| 0 <= k < e - pos ==> suffix[k] == s@[pos + k]);
            lemma_find_char_at(suffix, '\n', e - pos);
        }
        let line_end = if e < n && e > pos && s.get_char(e - 1) == '\r' {
            e - 1
        } else {
            e
        };
        let line = s.substring_char(pos, line_end);
        let ghost contributed: Seq<Seq<char>> = parse_line(line@);
        proof {
            if e < n {
                let raw = suffix.subrange(0, e - pos);
                assert(raw =~= s@.subrange(pos as int, e as int));
                if raw.len() > 0 && raw.last() == '\r' {
                    assert(raw.drop_last() =~= s@.subrange(pos as int, e - 1));
                    assert(line@ == chop_cr(raw));
                } else {
                    assert(line@ == chop_cr(raw));
                }
                let rest = suffix.subrange(e - pos + 1, suffix.len() as int);
                assert(rest =~= s@.subrange(e + 1, n as int));
                assert(spec_lines(suffix) == seq![chop_cr(raw)] + spec_lines(rest));
                let ls = seq![chop_cr(raw)] + spec_lines(rest);
                assert(ls[0] == chop_cr(raw));
                assert(ls.drop_first() =~= spec_lines(rest));
                assert(parse_lines(spec_lines(suffix)) == contributed + parse_lines(
                    spec_lines(s@.subrange(e + 1, n as int)),
                ));
            } else {
                assert(line@ =~= suffix);
                assert(spec_lines(suffix) == seq![suffix]);
                let ls = seq![suffix];
                assert(ls.drop_first() =~= Seq::<Seq<char>>::empty());
                assert(parse_lines(spec_lines(suffix)) == contributed + parse_lines(
                    Seq::<Seq<char>>::empty(),
                ));
                assert(s@.subrange(n as int, n as int) =~= Seq::<char>::empty());
            }
        }
        if !str_contains(line, "(bare)") {
            let sp = find_whitespace_at(line, 0);
            proof {
                lemma_find_whitespace_at(line@, sp as int);
            }
            if sp < line.unicode_len() {
                let ghost before = res@;
                res.push(String::from_str(line.substring_char(0, sp)));
                proof {
                    assert(contributed =~= seq![line@.subrange(0, sp as int)]);
                    assert(path_views(res@) =~= path_views(before) + contributed);
                }
            } else {
                proof {
                    assert(contributed =~= Seq::<Seq<char>>::empty());
                    assert(path_views(res@) =~= path_views(res@) + contributed);
                }
            }
        } else {
            proof {
                assert(contributed =~= Seq::<Seq<char>>::empty());
                assert(path_views(res@) =~= path_views(res@) + contributed);
            }
        }
        pos = if e < n {
            e + 1
        } else {
            n
        };
    }
    proof {
        assert(s@.subrange(n as int, n as int) =~= Seq::<char>::empty());
        assert(path_views(res@) + Seq::<Seq<char>>::empty() =~= path_views(res@));
    }
    res
}

proof fn lemma_line_without_marker(l: Seq<char>)
    requires
        forall|j: int| 0 <= j < l.len() ==> l[j] != '(',
    ensures
        !spec_contains(l, "(bare)"@),
{
    reveal_strlit("(bare)");
    assert forall|j: int|
        0 <= j <= l.len() - "(bare)"@.len() implies #[trigger] l.subrange(
        j,
        j + "(bare)"@.len() as int,
    ) != "(bare)"@ by {
        if l.subrange(j, j + "(bare)"@.len() as int) == "(bare)"@ {
            assert(l.subrange(j, j + "(bare)"@.len() as int)[0] == l[j]);
            assert(l[j] == '(');
        }
    }
}

/// The worked example of a captured listing, evaluated in the specification
/// itself: three lines, of which the `(bare)` line contributes nothing and
/// the other two contribute their first whitespace-delimited token, in
/// listing order.
pub proof fn lemma_example_listing()
    ensures
        spec_worktree_paths("/a/wt1 1234abcd [main]\n/repo.git (bare)\n/a/wt2 5678efab [dev]\n"@)
            == seq!["/a/wt1"@, "/a/wt2"@],
{
    reveal_strlit("/a/wt1 1234abcd [main]\n/repo.git (bare)\n/a/wt2 5678efab [dev]\n");
    reveal_strlit("/a/wt1");
    reveal_strlit("/a/wt2");
    reveal_strlit("(bare)");
    let s = "/a/wt1 1234abcd [main]\n/repo.git (bare)\n/a/wt2 5678efab [dev]\n"@;
    assert(s.len() == 62);

    // The three lines and the newline positions between them.
    lemma_find_char_at(s, '\n', 22);
    let l1 = s.subrange(0, 22);
    let r1 = s.subrange(23, 62);
    assert(chop_cr(l1) == l1);
    assert(spec_lines(s) == seq![l1] + spec_lines(r1));

    assert(forall|k: int| 0 <= k < 39 ==> r1[k] == s[23 + k]);
    lemma_find_char_at(r1, '\n', 16);
    let l2 = r1.subrange(0, 16);
    let r2 = r1.subrange(17, 39);
    assert(chop_cr(l2) == l2);
    assert(spec_lines(r1) == seq![l2] + spec_lines(r2));

    assert(forall|k: int| 0 <= k < 22 ==> r2[k] == s[40 + k]);
    lemma_find_char_at(r2, '\n', 21);
    let l3 = r2.subrange(0, 21);
    let r3 = r2.subrange(22, 22);
    assert(chop_cr(l3) == l3);
    assert(r3 =~= Seq::<char>::empty());
    assert(spec_lines(r3) == Seq::<Seq<char>>::empty());
    assert(spec_lines(r2) == seq![l3] + Seq::<Seq<char>>::empty());

    // First line: no marker, first whitespace after the path token.
    assert(forall|j: int| 0 <= j < 22 ==> l1[j] == s[j]);
    lemma_line_without_marker(l1);
    assert(forall|k: int| 0 <= k < 6 ==> !is_whitespace_char(l1[k]));
    assert(is_whitespace_char(l1[6]));
    lemma_find_whitespace_at(l1, 6);
    assert(l1.subrange(0, 6) =~= "/a/wt1"@);
    assert(parse_line(l1) == seq!["/a/wt1"@]);

    // Second line: the marker occurs, the line contributes nothing.
    assert(forall|k: int| 0 <= k < 16 ==> l2[k] == s[23 + k]);
    assert(l2.subrange(10, 10 + "(bare)"@.len() as int) =~= "(bare)"@);
    assert(spec_contains(l2, "(bare)"@));
    assert(parse_line(l2) == Seq::<Seq<char>>::empty());

    // Third line: no marker, first whitespace after the path token.
    assert(forall|k: int| 0 <= k < 21 ==> l3[k] == s[40 + k]);
    lemma_line_without_marker(l3);
    assert(forall|k: int| 0 <= k < 6 ==> !is_whitespace_char(l3[k]));
    assert(is_whitespace_char(l3[6]));
    lemma_find_whitespace_at(l3, 6);
    assert(l3.subrange(0, 6) =~= "/a/wt2"@);
    assert(parse_line(l3) == seq!["/a/wt2"@]);

    // Chain the per-line contributions in order.
    let ls3 = seq![l3] + Seq::<Seq<char>>::empty();
    assert(ls3.drop_first() =~= Seq::<Seq<char>>::empty());
    assert(parse_lines(spec_lines(r2)) == seq!["/a/wt2"@] + parse_lines(
        Seq::<Seq<char>>::empty(),
    ));
    let ls2 = seq![l2] + spec_lines(r2);
    assert(ls2.drop_first() =~= spec_lines(r2));
    assert(parse_lines(spec_lines(r1)) == Seq::<Seq<char>>::empty() + parse_lines(spec_lines(r2)));
    let ls1 = seq![l1] + spec_lines(r1);
    assert(ls1.drop_first() =~= spec_lines(r1));
    assert(parse_lines(spec_lines(s)) == seq!["/a/wt1"@] + parse_lines(spec_lines(r1)));
    assert(spec_worktree_paths(s) =~= seq!["/a/wt1"@, "/a/wt2"@]);
}

} // verus!
