//! Expansion of a root argument into an absolute path: an absolute argument
//! stands as it is; a leading `~/` is stripped and replaced by the home
//! directory; any other argument is joined onto the home directory as-is.
use vstd::prelude::*;
use vstd::string::*;

verus! {

/// The home directory joined with `s`, as path joining behaves: an absolute
/// `s` replaces `home`, and otherwise a separator is inserted unless `home`
/// is empty or already ends with one.
pub open spec fn spec_join(home: Seq<char>, s: Seq<char>) -> Seq<char> {
    if s.len() > 0 && s[0] == '/' {
        s
    } else if home.len() == 0 {
        s
    } else if home.last() == '/' {
        home + s
    } else {
        home + "/"@ + s
    }
}

/// Where a root argument points: itself when absolute, the home directory
/// joined with the text after a stripped leading `~/`, and the home
/// directory joined with the whole argument otherwise.
pub open spec fn spec_expand_path(path: Seq<char>, home: Seq<char>) -> Seq<char> {
    if path.len() > 0 && path[0] == '/' {
        path
    } else if path.len() >= 2 && path[0] == '~' && path[1] == '/' {
        spec_join(home, path.skip(2))
    } else {
        spec_join(home, path)
    }
}

fn join_path(home: &str, s: &str) -> (res: String)
    ensures
        res@ == spec_join(home@, s@),
{
    let hn = home.unicode_len();
    if s.unicode_len() > 0 && s.get_char(0) == '/' {
        String::from_str(s)
    } else if hn == 0 {
        String::from_str(s)
    } else if home.get_char(hn - 1) == '/' {
        String::from_str(home).concat(s)
    } else {
        let mut r = String::from_str(home);
        r.append("/");
        r.append(s);
        r
    }
}

/// Expands a root argument against the home directory.
pub fn expand_path(path: &str, home: &str) -> (res: String)
    ensures
        res@ == spec_expand_path(path@, home@),
{
    let n = path.unicode_len();
    if n > 0 && path.get_char(0) == '/' {
        String::from_str(path)
    } else if n >= 2 && path.get_char(0) == '~' && path.get_char(1) == '/' {
        let rest = path.substring_char(2, n);
        proof {
            assert(rest@ =~= path@.skip(2));
        }
        join_path(home, rest)
    } else {
        join_path(home, path)
    }
}

} // verus!
