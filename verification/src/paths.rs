//! Paths as sequences of segments.
//!
//! The engine never touches the filesystem; a path is a list of name
//! segments. Source paths are given as the resolver produced them (rooted
//! at the stub tree); target paths are relative to the destination root,
//! which keeps every planned action inside the destination tree by
//! construction.

use vstd::prelude::*;
use vstd::string::StringExecFns;

verus! {

/// Mathematical image of a path: its segments as character sequences.
pub open spec fn path_view(p: Vec<String>) -> Seq<Seq<char>> {
    p.deep_view()
}

/// Structural equality of two paths.
pub fn path_eq(a: &Vec<String>, b: &Vec<String>) -> (r: bool)
    ensures
        r == (a.deep_view() == b.deep_view()),
{
    if a.len() != b.len() {
        proof {
            assert(a.deep_view().len() == a.len());
            assert(b.deep_view().len() == b.len());
        }
        return false;
    }
    let n = a.len();
    let mut i: usize = 0;
    while i < n
        invariant
            n == a.len() == b.len(),
            i <= n,
            forall|j: int| 0 <= j < i ==> a.deep_view()[j] == b.deep_view()[j],
        decreases n - i,
    {
        let same = a[i] == b[i];
        if !same {
            proof {
                assert(a.deep_view()[i as int] == a@[i as int]@);
                assert(b.deep_view()[i as int] == b@[i as int]@);
            }
            return false;
        }
        proof {
            assert(a.deep_view()[i as int] == a@[i as int]@);
            assert(b.deep_view()[i as int] == b@[i as int]@);
        }
        i += 1;
    }
    proof {
        assert(a.deep_view() =~= b.deep_view());
    }
    true
}

/// Structural copy of a path.
pub fn path_clone(p: &Vec<String>) -> (r: Vec<String>)
    ensures
        r.deep_view() == p.deep_view(),
{
    let mut out: Vec<String> = Vec::new();
    let n = p.len();
    let mut i: usize = 0;
    while i < n
        invariant
            n == p.len(),
            i <= n,
            out.len() == i,
            forall|j: int| 0 <= j < i ==> out.deep_view()[j] == p.deep_view()[j],
        decreases n - i,
    {
        out.push(p[i].clone());
        proof {
            assert(out.deep_view()[i as int] == out@[i as int]@);
            assert(p.deep_view()[i as int] == p@[i as int]@);
        }
        i += 1;
    }
    proof {
        assert(out.deep_view() =~= p.deep_view());
    }
    out
}

/// The file name of a path: its last segment, absent for an empty path.
pub fn file_name(p: &Vec<String>) -> (r: Option<&String>)
    ensures
        match r {
            Some(s) => p.deep_view().len() > 0 && s@ == p.deep_view().last(),
            None => p.deep_view().len() == 0,
        },
{
    if p.len() == 0 {
        None
    } else {
        let s = &p[p.len() - 1];
        proof {
            assert(p.deep_view()[p.len() - 1] == p@[p.len() - 1]@);
        }
        Some(s)
    }
}

/// Whether `root` is a proper prefix of `p`.
pub open spec fn has_prefix(p: Seq<Seq<char>>, root: Seq<Seq<char>>) -> bool {
    p.len() >= root.len() && p.subrange(0, root.len() as int) == root
}

/// The remainder of `p` after `root`; meaningful only when
/// `has_prefix(path_view(p), path_view(root))` holds.
pub open spec fn strip_prefix_spec(p: Seq<Seq<char>>, root: Seq<Seq<char>>) -> Seq<Seq<char>> {
    p.subrange(root.len() as int, p.len() as int)
}

/// Relates `p` to `root`: the segments of `p` past `root` when `root` is a
/// prefix of `p`, `None` otherwise.
pub fn strip_prefix(p: &Vec<String>, root: &Vec<String>) -> (r: Option<Vec<String>>)
    ensures
        match r {
            Some(rest) => {
                &&& has_prefix(p.deep_view(), root.deep_view())
                &&& rest.deep_view() == strip_prefix_spec(p.deep_view(), root.deep_view())
            },
            None => !has_prefix(p.deep_view(), root.deep_view()),
        },
{
    let n = root.len();
    if p.len() < n {
        proof {
            assert(p.deep_view().len() == p.len());
            assert(root.deep_view().len() == root.len());
        }
        return None;
    }
    let mut i: usize = 0;
    while i < n
        invariant
            n == root.len() <= p.len(),
            i <= n,
            forall|j: int| 0 <= j < i ==> p.deep_view()[j] == root.deep_view()[j],
        decreases n - i,
    {
        let same = p[i] == root[i];
        if !same {
            proof {
                assert(p.deep_view()[i as int] == p@[i as int]@);
                assert(root.deep_view()[i as int] == root@[i as int]@);
                assert(!has_prefix(p.deep_view(), root.deep_view())) by {
                    if has_prefix(p.deep_view(), root.deep_view()) {
                        assert(p.deep_view().subrange(0, n as int)[i as int]
                            == root.deep_view()[i as int]);
                    }
                }
            }
            return None;
        }
        proof {
            assert(p.deep_view()[i as int] == p@[i as int]@);
            assert(root.deep_view()[i as int] == root@[i as int]@);
        }
        i += 1;
    }
    let mut rest: Vec<String> = Vec::new();
    let mut k: usize = n;
    while k < p.len()
        invariant
            n <= k <= p.len(),
            rest.len() == k - n,
            forall|j: int| 0 <= j < k - n ==> rest.deep_view()[j] == p.deep_view()[n + j],
        decreases p.len() - k,
    {
        let ghost prev = rest.deep_view();
        let ghost prev_seq = rest@;
        rest.push(p[k].clone());
        proof {
            assert forall|j: int| 0 <= j < (k - n) as int implies rest.deep_view()[j]
                == p.deep_view()[n + j] by {
                assert(prev[j] == prev_seq[j]@);
                assert(rest@[j] == prev_seq[j]);
                assert(rest.deep_view()[j] == rest@[j]@);
            }
            assert(rest.deep_view()[(k - n) as int] == rest@[(k - n) as int]@);
            assert(p.deep_view()[k as int] == p@[k as int]@);
        }
        k += 1;
    }
    proof {
        assert(p.deep_view().subrange(0, n as int) =~= root.deep_view());
        assert(rest.deep_view() =~= strip_prefix_spec(p.deep_view(), root.deep_view()));
    }
    Some(rest)
}

/// Display form of a path: its segments joined with `/`.
pub open spec fn join_segments(p: Seq<Seq<char>>) -> Seq<char>
    decreases p.len(),
{
    if p.len() == 0 {
        Seq::empty()
    } else if p.len() == 1 {
        p[0]
    } else {
        p[0] + "/"@ + join_segments(p.skip(1))
    }
}

/// Builds the display form of a path.
pub fn path_display(p: &Vec<String>) -> (r: String)
    ensures
        r@ == join_segments(p.deep_view()),
{
    let mut s = String::new();
    let n = p.len();
    if n == 0 {
        return s;
    }
    s.append(p[0].as_str());
    proof {
        assert(p.deep_view()[0] == p@[0]@);
    }
    let mut i: usize = 1;
    while i < n
        invariant
            1 <= i <= n,
            n == p.len(),
            s@ == join_segments(p.deep_view().subrange(0, i as int)),
        decreases n - i,
    {
        s.append("/");
        s.append(p[i].as_str());
        proof {
            assert(p.deep_view()[i as int] == p@[i as int]@);
            lemma_join_append(p.deep_view(), i as int);
        }
        i += 1;
    }
    proof {
        assert(p.deep_view().subrange(0, n as int) =~= p.deep_view());
    }
    s
}

/// Joining one more segment extends the display form with `/` and that
/// segment, for any non-empty prefix length `i`.
proof fn lemma_join_append(p: Seq<Seq<char>>, i: int)
    requires
        1 <= i < p.len(),
    ensures
        join_segments(p.subrange(0, i + 1)) == join_segments(p.subrange(0, i)) + "/"@ + p[i],
    decreases i,
{
    if i == 1 {
        assert(p.subrange(0, 2).len() == 2);
        assert(p.subrange(0, 2)[0] == p[0]);
        assert(p.subrange(0, 2).skip(1) =~= seq![p[1]]);
        assert(join_segments(seq![p[1]]) == p[1]);
        assert(p.subrange(0, 1) =~= seq![p[0]]);
    } else {
        lemma_join_append(p.skip(1), i - 1);
        assert(p.subrange(0, i + 1).skip(1) =~= p.skip(1).subrange(0, i));
        assert(p.subrange(0, i).skip(1) =~= p.skip(1).subrange(0, i - 1));
        assert(p.subrange(0, i + 1)[0] == p[0]);
        assert(p.subrange(0, i)[0] == p[0]);
        assert(p.skip(1)[i - 1] == p[i]);
        assert(join_segments(p.subrange(0, i + 1)) == p[0] + "/"@ + join_segments(
            p.skip(1).subrange(0, i),
        ));
        assert(join_segments(p.skip(1).subrange(0, i)) == join_segments(
            p.skip(1).subrange(0, i - 1),
        ) + "/"@ + p.skip(1)[i - 1]);
        assert((p[0] + "/"@ + (join_segments(p.skip(1).subrange(0, i - 1)) + "/"@ + p[i])) =~= ((p[0]
            + "/"@ + join_segments(p.skip(1).subrange(0, i - 1))) + "/"@ + p[i]));
    }
}

} // verus!
