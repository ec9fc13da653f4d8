//! Path text operations: replacing a file extension, taking a parent,
//! stripping a directory prefix and joining. Paths are plain text with
//! `/` separating components.

use vstd::prelude::*;
use crate::text::{chars_of, string_from_chars};

verus! {

/// The index of the last occurrence of `x`, if any.
pub open spec fn find_last<T>(s: Seq<T>, x: T) -> Option<int>
    decreases s.len(),
{
    if s.len() == 0 {
        None
    } else if s.last() == x {
        Some(s.len() - 1)
    } else {
        find_last(s.drop_last(), x)
    }
}

/// A backward scan that saw no hit above `k`, and a hit at `k` if `k`
/// is in range, pins down `find_last`.
pub proof fn lemma_find_last_at<T>(s: Seq<T>, x: T, k: int)
    requires
        -1 <= k < s.len(),
        forall|j: int| k < j < s.len() ==> s[j] != x,
        k >= 0 ==> s[k] == x,
    ensures
        find_last(s, x) == (if k < 0 {
            None::<int>
        } else {
            Some(k)
        }),
    decreases s.len(),
{
    if s.len() == 0 {
    } else if s.last() == x {
        assert(k == s.len() - 1);
    } else {
        assert(forall|j: int| k < j < s.len() - 1 ==> s.drop_last()[j] == s[j]);
        lemma_find_last_at(s.drop_last(), x, k);
    }
}

/// The index of the last occurrence of `x` in a character vector.
pub fn find_last_char(v: &Vec<char>, x: char) -> (r: Option<usize>)
    ensures
        find_last(v@, x) == (match r {
            Some(i) => Some(i as int),
            None => None::<int>,
        }),
        r matches Some(i) ==> i < v@.len(),
{
    let mut i: usize = v.len();
    while i > 0
        invariant
            i <= v@.len(),
            forall|j: int| i <= j < v@.len() ==> v@[j] != x,
        decreases i,
    {
        i -= 1;
        if v[i] == x {
            proof {
                lemma_find_last_at(v@, x, i as int);
            }
            return Some(i);
        }
    }
    proof {
        lemma_find_last_at(v@, x, -1);
    }
    None
}

/// Where the file name starts: right after the last `/`, or at the
/// start when there is none.
pub open spec fn file_name_start(path: Seq<char>) -> int {
    match find_last(path, '/') {
        Some(i) => i + 1,
        None => 0,
    }
}

/// Where the extension dot cuts the path: the last `.` when it falls
/// inside the file name and is not its first character, else the end.
pub open spec fn stem_end(path: Seq<char>) -> int {
    match find_last(path, '.') {
        Some(d) => if d > file_name_start(path) {
            d
        } else {
            path.len() as int
        },
        None => path.len() as int,
    }
}

/// The path with its extension replaced by `ext`.
pub open spec fn with_ext(path: Seq<char>, ext: Seq<char>) -> Seq<char> {
    path.take(stem_end(path)) + seq!['.'] + ext
}

/// Replace the extension of `path` by `ext`.
pub fn with_extension(path: &str, ext: &str) -> (r: String)
    ensures
        r@ == with_ext(path@, ext@),
{
    let p = chars_of(path);
    let e = chars_of(ext);
    let plen: usize = p.len();
    let name_start: usize = match find_last_char(&p, '/') {
        Some(i) => i + 1,
        None => 0,
    };
    let cut: usize = match find_last_char(&p, '.') {
        Some(d) => if d > name_start {
            d
        } else {
            p.len()
        },
        None => p.len(),
    };
    let mut out: Vec<char> = Vec::new();
    let mut i: usize = 0;
    while i < cut
        invariant
            cut <= p@.len(),
            i <= cut,
            out@ == p@.subrange(0, i as int),
        decreases cut - i,
    {
        out.push(p[i]);
        proof {
            assert(out@ =~= p@.subrange(0, i + 1));
        }
        i += 1;
    }
    out.push('.');
    let mut j: usize = 0;
    while j < e.len()
        invariant
            cut <= p@.len(),
            j <= e@.len(),
            out@ == p@.subrange(0, cut as int) + seq!['.'] + e@.subrange(0, j as int),
        decreases e.len() - j,
    {
        out.push(e[j]);
        proof {
            assert(out@ =~= p@.subrange(0, cut as int) + seq!['.'] + e@.subrange(0, j + 1));
        }
        j += 1;
    }
    proof {
        assert(out@ =~= with_ext(path@, ext@));
    }
    string_from_chars(&out)
}

/// The directory part of a path: everything before the last `/`, empty
/// when there is none.
pub open spec fn parent_of(path: Seq<char>) -> Seq<char> {
    match find_last(path, '/') {
        Some(i) => path.take(i),
        None => Seq::empty(),
    }
}

/// The directory part of `path`.
pub fn parent(path: &str) -> (r: String)
    ensures
        r@ == parent_of(path@),
{
    let p = chars_of(path);
    let cut: usize = match find_last_char(&p, '/') {
        Some(i) => i,
        None => 0,
    };
    let mut out: Vec<char> = Vec::new();
    let mut i: usize = 0;
    while i < cut
        invariant
            cut <= p@.len(),
            i <= cut,
            out@ == p@.subrange(0, i as int),
        decreases cut - i,
    {
        out.push(p[i]);
        proof {
            assert(out@ =~= p@.subrange(0, i + 1));
        }
        i += 1;
    }
    proof {
        assert(out@ =~= parent_of(path@));
    }
    string_from_chars(&out)
}

/// `path` made relative to `prefix` when it lies under it, else
/// unchanged; relative to itself it is empty.
pub open spec fn strip_prefix_path(path: Seq<char>, prefix: Seq<char>) -> Seq<char> {
    if path == prefix {
        Seq::empty()
    } else if prefix.len() == 0 {
        path
    } else if path.len() > prefix.len() && path.take(prefix.len() as int) == prefix && path[prefix.len() as int]
        == '/' {
        path.skip(prefix.len() as int + 1)
    } else {
        path
    }
}

/// Make `path` relative to `prefix` when it lies under it.
pub fn strip_path_prefix(path: &str, prefix: &str) -> (r: String)
    ensures
        r@ == strip_prefix_path(path@, prefix@),
{
    let p = chars_of(path);
    let q = chars_of(prefix);
    if p.len() == q.len() && vecs_eq(&p, &q) {
        proof {
            assert(path@ =~= prefix@);
        }
        return String::new();
    }
    proof {
        if p@.len() == q@.len() {
            assert(path@ != prefix@);
        }
    }
    if q.len() == 0 {
        return path.to_owned();
    }
    if p.len() > q.len() {
        let mut i: usize = 0;
        let mut same: bool = true;
        proof {
            assert(p@.subrange(0, 0) =~= q@.subrange(0, 0));
        }
        while i < q.len()
            invariant
                q@.len() < p@.len(),
                i <= q@.len(),
                same == (p@.subrange(0, i as int) == q@.subrange(0, i as int)),
            decreases q.len() - i,
        {
            proof {
                assert(p@.subrange(0, i + 1).drop_last() =~= p@.subrange(0, i as int));
                assert(q@.subrange(0, i + 1).drop_last() =~= q@.subrange(0, i as int));
            }
            if p[i] != q[i] {
                proof {
                    assert(p@.subrange(0, i + 1)[i as int] != q@.subrange(0, i + 1)[i as int]);
                }
                same = false;
            } else {
                proof {
                    if same {
                        assert(p@.subrange(0, i + 1) =~= q@.subrange(0, i + 1));
                    } else {
                        assert(p@.subrange(0, i as int) != q@.subrange(0, i as int));
                        assert(p@.subrange(0, i + 1).drop_last() != q@.subrange(
                            0,
                            i + 1,
                        ).drop_last());
                    }
                }
            }
            i += 1;
        }
        if same && p[q.len()] == '/' {
            let mut out: Vec<char> = Vec::new();
            let mut k: usize = q.len() + 1;
            while k < p.len()
                invariant
                    q@.len() + 1 <= p@.len(),
                    q@.len() + 1 <= k <= p@.len(),
                    out@ == p@.subrange(q@.len() as int + 1, k as int),
                decreases p.len() - k,
            {
                out.push(p[k]);
                proof {
                    assert(out@ =~= p@.subrange(q@.len() as int + 1, k + 1));
                }
                k += 1;
            }
            proof {
                assert(q@.subrange(0, q@.len() as int) =~= q@);
                assert(out@ =~= strip_prefix_path(path@, prefix@));
            }
            return string_from_chars(&out);
        }
        proof {
            assert(q@.subrange(0, q@.len() as int) =~= q@);
        }
    }
    path.to_owned()
}

/// Character-vector equality.
fn vecs_eq(a: &Vec<char>, b: &Vec<char>) -> (r: bool)
    ensures
        r == (a@ == b@),
{
    if a.len() != b.len() {
        return false;
    }
    let mut i: usize = 0;
    while i < a.len()
        invariant
            a@.len() == b@.len(),
            i <= a@.len(),
            forall|t: int| 0 <= t < i ==> a@[t] == b@[t],
        decreases a.len() - i,
    {
        if a[i] != b[i] {
            return false;
        }
        i += 1;
    }
    proof {
        assert(a@ =~= b@);
    }
    true
}

/// `a` and `b` joined with a separator; an empty side joins to the
/// other unchanged.
pub open spec fn path_join(a: Seq<char>, b: Seq<char>) -> Seq<char> {
    if a.len() == 0 {
        b
    } else if b.len() == 0 {
        a
    } else {
        a + seq!['/'] + b
    }
}

/// Join two path fragments.
pub fn join(a: &str, b: &str) -> (r: String)
    ensures
        r@ == path_join(a@, b@),
{
    if a.is_empty() {
        return b.to_owned();
    }
    if b.is_empty() {
        return a.to_owned();
    }
    let mut out: String = a.to_owned();
    out.push('/');
    let bs = chars_of(b);
    let mut i: usize = 0;
    while i < bs.len()
        invariant
            i <= bs@.len(),
            out@ == a@ + seq!['/'] + bs@.subrange(0, i as int),
        decreases bs.len() - i,
    {
        out.push(bs[i]);
        proof {
            assert(out@ =~= a@ + seq!['/'] + bs@.subrange(0, i + 1));
        }
        i += 1;
    }
    proof {
        assert(out@ =~= path_join(a@, b@));
    }
    out
}

/// Whether the path begins with `..`: such an auxiliary reference is
/// resolved against the parent of the auxiliary directory.
pub open spec fn starts_dot_dot(p: Seq<char>) -> bool {
    p.len() >= 2 && p[0] == '.' && p[1] == '.'
}

/// Whether `p` begins with `..`.
pub fn is_dot_dot(p: &str) -> (r: bool)
    ensures
        r == starts_dot_dot(p@),
{
    let v = chars_of(p);
    v.len() >= 2 && v[0] == '.' && v[1] == '.'
}

} // verus!
