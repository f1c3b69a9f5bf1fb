//! Paths as text, with `/` between their segments.

use crate::text::{chars_of, cut, split, split_ranges, string_of_range};
use vstd::prelude::*;
use vstd::string::StringExecFns;

verus! {

/// Whether `p` starts at the file-system root.
pub open spec fn is_absolute(p: Seq<char>) -> bool {
    p.len() > 0 && p[0] == '/'
}

/// `rel` taken from the directory `base`: `rel` itself where it is absolute or
/// `base` is empty, else `base`, one `/` and `rel`.
pub open spec fn join_path(base: Seq<char>, rel: Seq<char>) -> Seq<char> {
    if is_absolute(rel) || base.len() == 0 {
        rel
    } else if base.last() == '/' {
        base + rel
    } else {
        base.push('/') + rel
    }
}

/// Where the last `/` of `p` stands, or `-1` where `p` has none.
pub open spec fn last_slash(p: Seq<char>) -> int
    decreases p.len(),
{
    if p.len() == 0 {
        -1
    } else if p.last() == '/' {
        p.len() - 1
    } else {
        last_slash(p.drop_last())
    }
}

/// The directory that holds `p`: what stands before the last `/` of `p`, `/`
/// itself where that is the first character, and nothing where `p` has none.
pub open spec fn parent_dir(p: Seq<char>) -> Seq<char> {
    let i = last_slash(p);
    if i < 0 {
        Seq::empty()
    } else if i == 0 {
        seq!['/']
    } else {
        p.take(i)
    }
}

/// The pieces among `pieces` that are not empty, in order.
pub open spec fn nonempty(pieces: Seq<Seq<char>>) -> Seq<Seq<char>> {
    pieces.filter(|s: Seq<char>| s.len() > 0)
}

/// Adding a piece at the end adds it to the pieces that are not empty, where
/// it is not empty itself.
pub proof fn lemma_nonempty_push(pieces: Seq<Seq<char>>, piece: Seq<char>)
    ensures
        nonempty(pieces.push(piece)) == if piece.len() > 0 {
            nonempty(pieces).push(piece)
        } else {
            nonempty(pieces)
        },
{
    reveal(Seq::filter);
    assert(pieces.push(piece).drop_last() == pieces);
}

/// The segments of `p`: what stands between its `/`, empty pieces left out.
pub open spec fn segments(p: Seq<char>) -> Seq<Seq<char>> {
    nonempty(split(p, '/', '/'))
}

/// Whether `path` lies in the directory `root` or is `root` itself: both are
/// absolute or both are not, and the segments of `root` are the first
/// segments of `path`. The paths are compared as they are written, `.` and
/// `..` being segments like any other: the answer is about places on disk
/// only for canonical paths.
pub open spec fn within(path: Seq<char>, root: Seq<char>) -> bool {
    is_absolute(path) == is_absolute(root) && segments(root).is_prefix_of(segments(path))
}

/// Where a symlink at `link` with the text `target` points, before the file
/// system resolves it: `target` itself where it is absolute, else `target`
/// taken from the directory that holds the link.
pub open spec fn link_destination(link: Seq<char>, target: Seq<char>) -> Seq<char> {
    join_path(parent_dir(link), target)
}

fn starts_with_slash(v: &Vec<char>) -> (r: bool)
    ensures
        r == is_absolute(v@),
{
    v.len() > 0 && v[0] == '/'
}

/// Joins `rel` onto the directory `base`.
pub fn join(base: &str, rel: &str) -> (p: String)
    ensures
        p@ == join_path(base@, rel@),
{
    let b = chars_of(base);
    let r = chars_of(rel);
    if starts_with_slash(&r) || b.len() == 0 {
        String::from_str(rel)
    } else if b[b.len() - 1] == '/' {
        let mut p = String::from_str(base);
        p.append(rel);
        p
    } else {
        let mut p = String::from_str(base);
        p.push('/');
        p.append(rel);
        p
    }
}

/// The directory that holds `p`.
pub fn parent(p: &str) -> (dir: String)
    ensures
        dir@ == parent_dir(p@),
{
    let v = chars_of(p);
    let mut i: usize = v.len();
    assert(v@.take(v.len() as int) == v@);
    while i > 0 && v[i - 1] != '/'
        invariant
            i <= v.len(),
            last_slash(v@) == last_slash(v@.take(i as int)),
        decreases i,
    {
        proof {
            assert(v@.take(i as int).drop_last() == v@.take(i - 1));
        }
        i -= 1;
    }
    proof {
        if i == 0 {
            assert(v@.take(0).len() == 0);
        } else {
            assert(v@.take(i as int).last() == v@[i - 1]);
        }
    }
    if i == 0 {
        String::new()
    } else if i == 1 {
        let mut dir = String::new();
        dir.push('/');
        dir
    } else {
        proof {
            assert(v@.subrange(0, i - 1) == v@.take(i - 1));
        }
        string_of_range(&v, 0, i - 1)
    }
}

/// Where a symlink at `link` with the text `target` points.
pub fn symlink_destination(link: &str, target: &str) -> (dest: String)
    ensures
        dest@ == link_destination(link@, target@),
{
    let dir = parent(link);
    join(dir.as_str(), target)
}

/// Where the segments of `v` start and end.
fn segment_ranges(v: &Vec<char>) -> (out: Vec<(usize, usize)>)
    ensures
        cut(v@, out@) == segments(v@),
        forall|k: int| 0 <= k < out.len() ==> (#[trigger] out[k]).0 <= out[k].1 <= v.len(),
{
    let all = split_ranges(v, '/', '/');
    let mut out: Vec<(usize, usize)> = Vec::new();
    let mut i: usize = 0;
    assert(cut(v@, all@.take(0)) =~= Seq::<Seq<char>>::empty());
    while i < all.len()
        invariant
            i <= all.len(),
            forall|k: int| 0 <= k < all.len() ==> (#[trigger] all[k]).0 <= all[k].1 <= v.len(),
            forall|k: int| 0 <= k < out.len() ==> (#[trigger] out[k]).0 <= out[k].1 <= v.len(),
            cut(v@, out@) == nonempty(cut(v@, all@.take(i as int))),
        decreases all.len() - i,
    {
        let r = all[i];
        proof {
            let before = cut(v@, all@.take(i as int));
            let piece = v@.subrange(r.0 as int, r.1 as int);
            assert(cut(v@, all@.take(i + 1)) =~= before.push(piece));
            lemma_nonempty_push(before, piece);
            if r.0 < r.1 {
                assert(cut(v@, out@.push(r)) =~= cut(v@, out@).push(piece));
            }
        }
        if r.0 < r.1 {
            out.push(r);
        }
        i += 1;
    }
    assert(all@.take(all.len() as int) == all@);
    out
}

fn same_text(a: &Vec<char>, ra: (usize, usize), b: &Vec<char>, rb: (usize, usize)) -> (r: bool)
    requires
        ra.0 <= ra.1 <= a.len(),
        rb.0 <= rb.1 <= b.len(),
    ensures
        r == (a@.subrange(ra.0 as int, ra.1 as int) == b@.subrange(rb.0 as int, rb.1 as int)),
{
    let ghost x = a@.subrange(ra.0 as int, ra.1 as int);
    let ghost y = b@.subrange(rb.0 as int, rb.1 as int);
    if ra.1 - ra.0 != rb.1 - rb.0 {
        assert(x.len() != y.len());
        return false;
    }
    let n = ra.1 - ra.0;
    let mut k: usize = 0;
    while k < n
        invariant
            k <= n,
            n == ra.1 - ra.0,
            n == rb.1 - rb.0,
            ra.1 <= a.len(),
            rb.1 <= b.len(),
            x == a@.subrange(ra.0 as int, ra.1 as int),
            y == b@.subrange(rb.0 as int, rb.1 as int),
            forall|j: int| 0 <= j < k ==> x[j] == y[j],
        decreases n - k,
    {
        if a[ra.0 + k] != b[rb.0 + k] {
            assert(x[k as int] != y[k as int]);
            return false;
        }
        k += 1;
    }
    assert(x =~= y);
    true
}

/// Whether `path` lies in the directory `root` or is `root` itself.
pub fn is_within(path: &str, root: &str) -> (r: bool)
    ensures
        r == within(path@, root@),
{
    let p = chars_of(path);
    let q = chars_of(root);
    if starts_with_slash(&p) != starts_with_slash(&q) {
        return false;
    }
    let ps = segment_ranges(&p);
    let qs = segment_ranges(&q);
    if qs.len() > ps.len() {
        return false;
    }
    let ghost want = segments(q@);
    let ghost have = segments(p@);
    let mut k: usize = 0;
    while k < qs.len()
        invariant
            k <= qs.len() <= ps.len(),
            p@ == path@,
            q@ == root@,
            is_absolute(p@) == is_absolute(q@),
            want == segments(q@),
            have == segments(p@),
            want == cut(q@, qs@),
            have == cut(p@, ps@),
            forall|j: int| 0 <= j < qs.len() ==> (#[trigger] qs[j]).0 <= qs[j].1 <= q.len(),
            forall|j: int| 0 <= j < ps.len() ==> (#[trigger] ps[j]).0 <= ps[j].1 <= p.len(),
            forall|j: int| 0 <= j < k ==> want[j] == have[j],
        decreases qs.len() - k,
    {
        if !same_text(&q, qs[k], &p, ps[k]) {
            assert(want[k as int] != have.subrange(0, want.len() as int)[k as int]);
            return false;
        }
        k += 1;
    }
    assert(want =~= have.subrange(0, want.len() as int));
    true
}

} // verus!
