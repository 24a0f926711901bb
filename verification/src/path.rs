//! Paths as byte strings: joining a directory with a child name, taking a
//! path's parent, and the tilde form a path displays as when it lies under
//! the home directory.
use vstd::prelude::*;

verus! {

use crate::bytes::clone_bytes;
use crate::bytes::has_prefix;
use crate::fuzzy::is_prefix_of;

/// A directory path joined with a child name: a slash goes between them
/// unless the directory already ends in one.
pub open spec fn spec_join(dir: Seq<u8>, name: Seq<u8>) -> Seq<u8> {
    if dir.len() > 0 && dir.last() == 47u8 {
        dir + name
    } else {
        dir + seq![47u8] + name
    }
}

/// Joins a directory path with a child name.
pub fn join_path(dir: &Vec<u8>, name: &Vec<u8>) -> (r: Vec<u8>)
    ensures
        r@ == spec_join(dir@, name@),
{
    let mut r = clone_bytes(dir);
    if !(dir.len() > 0 && dir[dir.len() - 1] == 47) {
        r.push(47);
    }
    let mut i: usize = 0;
    let ghost base = r@;
    while i < name.len()
        invariant
            i <= name@.len(),
            r@ == base + name@.subrange(0, i as int),
        decreases name@.len() - i,
    {
        r.push(name[i]);
        proof {
            assert((base + name@.subrange(0, i as int)).push(name@[i as int]) =~= base
                + name@.subrange(0, i as int + 1));
        }
        i = i + 1;
    }
    proof {
        assert(base + name@.subrange(0, name@.len() as int) =~= base + name@);
        if dir@.len() > 0 && dir@.last() == 47u8 {
            assert(r@ =~= spec_join(dir@, name@));
        } else {
            assert(base =~= dir@ + seq![47u8]);
            assert(r@ =~= spec_join(dir@, name@));
        }
    }
    r
}

/// The position of the last slash in a path, if any.
pub open spec fn spec_last_slash(s: Seq<u8>) -> Option<int>
    decreases s.len(),
{
    if s.len() == 0 {
        None
    } else if s.last() == 47u8 {
        Some(s.len() - 1)
    } else {
        spec_last_slash(s.drop_last())
    }
}

/// The parent of a path: what precedes its last component. The root and a
/// path with no slash have none; a path directly under the root has the
/// root.
pub open spec fn spec_parent(p: Seq<u8>) -> Option<Seq<u8>> {
    match spec_last_slash(p) {
        None => None,
        Some(i) => if i == 0 {
            if p.len() == 1 {
                None
            } else {
                Some(seq![47u8])
            }
        } else {
            Some(p.take(i))
        },
    }
}

/// When position `i` holds the last slash, the scan from the end finds it.
proof fn lemma_last_slash_at(s: Seq<u8>, i: int)
    requires
        0 <= i < s.len(),
        s[i] == 47u8,
        forall|k: int| i < k < s.len() ==> s[k] != 47u8,
    ensures
        spec_last_slash(s) == Some(i),
    decreases s.len(),
{
    if i < s.len() - 1 {
        lemma_last_slash_at(s.drop_last(), i);
    }
}

/// A path with no slash at all has no last slash.
proof fn lemma_last_slash_none(s: Seq<u8>)
    requires
        forall|k: int| 0 <= k < s.len() ==> s[k] != 47u8,
    ensures
        spec_last_slash(s) is None,
    decreases s.len(),
{
    if s.len() > 0 {
        lemma_last_slash_none(s.drop_last());
    }
}

/// The parent of a path, or `None` at the root.
pub fn parent_path(p: &Vec<u8>) -> (r: Option<Vec<u8>>)
    ensures
        match r {
            Some(v) => spec_parent(p@) == Some(v@),
            None => spec_parent(p@) is None,
        },
{
    let n = p.len();
    let mut j: usize = n;
    while j > 0 && p[j - 1] != 47
        invariant
            j <= n,
            n == p@.len(),
            forall|k: int| j <= k < n ==> p@[k] != 47u8,
        decreases j,
    {
        j = j - 1;
    }
    if j == 0 {
        proof {
            lemma_last_slash_none(p@);
        }
        return None;
    }
    proof {
        lemma_last_slash_at(p@, j - 1);
    }
    if j == 1 {
        if n == 1 {
            None
        } else {
            let mut root: Vec<u8> = Vec::new();
            root.push(47);
            proof {
                assert(root@ =~= seq![47u8]);
            }
            Some(root)
        }
    } else {
        let mut out: Vec<u8> = Vec::new();
        let mut k: usize = 0;
        while k < j - 1
            invariant
                k <= j - 1 < n,
                n == p@.len(),
                out@ == p@.subrange(0, k as int),
            decreases j - 1 - k,
        {
            out.push(p[k]);
            proof {
                assert(p@.subrange(0, k as int).push(p@[k as int]) =~= p@.subrange(
                    0,
                    k as int + 1,
                ));
            }
            k = k + 1;
        }
        proof {
            assert(out@ =~= p@.take(j - 1));
        }
        Some(out)
    }
}

/// The path a browser shows: when tilde display is on and the path lies in
/// the home directory, home collapses to `~`.
pub open spec fn spec_display_path(current: Seq<u8>, home: Seq<u8>, show_tilde: bool) -> Seq<u8> {
    if show_tilde && current == home {
        seq![126u8]
    } else if show_tilde && current.len() > home.len() && is_prefix_of(home, current)
        && current[home.len() as int] == 47u8 {
        seq![126u8] + current.skip(home.len() as int)
    } else {
        current
    }
}

/// The display form of the current path, given the home directory.
pub fn display_path(current: &Vec<u8>, home: &Vec<u8>, show_tilde: bool) -> (r: Vec<u8>)
    ensures
        r@ == spec_display_path(current@, home@, show_tilde),
{
    if show_tilde && has_prefix(current, home) {
        if current.len() == home.len() {
            proof {
                assert(current@.subrange(0, home@.len() as int) =~= current@);
            }
            let mut t: Vec<u8> = Vec::new();
            t.push(126);
            proof {
                assert(t@ =~= seq![126u8]);
            }
            return t;
        }
        if current[home.len()] == 47 {
            let mut t: Vec<u8> = Vec::new();
            t.push(126);
            let mut k: usize = home.len();
            while k < current.len()
                invariant
                    home@.len() <= k <= current@.len(),
                    t@ == seq![126u8] + current@.subrange(home@.len() as int, k as int),
                decreases current@.len() - k,
            {
                t.push(current[k]);
                proof {
                    assert((seq![126u8] + current@.subrange(home@.len() as int, k as int)).push(
                        current@[k as int],
                    ) =~= seq![126u8] + current@.subrange(home@.len() as int, k as int + 1));
                }
                k = k + 1;
            }
            proof {
                assert(t@ =~= seq![126u8] + current@.skip(home@.len() as int));
                assert(current@ != home@);
            }
            return t;
        }
    }
    proof {
        if show_tilde && current@ == home@ {
            assert(is_prefix_of(home@, current@)) by {
                assert(current@.subrange(0, home@.len() as int) =~= home@);
            }
            assert(false);
        }
    }
    clone_bytes(current)
}

} // verus!
