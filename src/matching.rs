use vstd::prelude::*;
use vstd::string::StringSliceAdditionalSpecFns;

verus! {

/// `p` occurs in `s` as a (not necessarily contiguous) subsequence: its
/// elements appear in `s` in the same order.
pub open spec fn is_subsequence(p: Seq<u8>, s: Seq<u8>) -> bool
    decreases s.len(),
{
    if p.len() == 0 {
        true
    } else if s.len() == 0 {
        false
    } else if p[0] == s[0] {
        is_subsequence(p.drop_first(), s.drop_first())
    } else {
        is_subsequence(p, s.drop_first())
    }
}

proof fn lemma_subsequence_step(p: Seq<u8>, s: Seq<u8>, j: int, i: int)
    requires
        0 <= j < p.len(),
        0 <= i < s.len(),
    ensures
        is_subsequence(p.subrange(j, p.len() as int), s.subrange(i, s.len() as int)) == if p[j]
            == s[i] {
            is_subsequence(
                p.subrange(j + 1, p.len() as int),
                s.subrange(i + 1, s.len() as int),
            )
        } else {
            is_subsequence(p.subrange(j, p.len() as int), s.subrange(i + 1, s.len() as int))
        },
{
    let ps = p.subrange(j, p.len() as int);
    let ss = s.subrange(i, s.len() as int);
    assert(ps.drop_first() =~= p.subrange(j + 1, p.len() as int));
    assert(ss.drop_first() =~= s.subrange(i + 1, s.len() as int));
}

/// Whether a candidate whose replacement text is `replace` may complete the
/// typed `prefix`: the prefix's bytes must occur in order, not necessarily
/// contiguously, among the replacement's bytes. The empty prefix matches
/// everything.
pub fn can_complete(prefix: &str, replace: &str) -> (r: bool)
    ensures
        r == is_subsequence(prefix.spec_bytes(), replace.spec_bytes()),
{
    let p = prefix.as_bytes();
    let s = replace.as_bytes();
    if p.len() == 0 {
        return true;
    }
    let mut j: usize = 0;
    let mut i: usize = 0;
    proof {
        assert(p@.subrange(0, p@.len() as int) =~= p@);
        assert(s@.subrange(0, s@.len() as int) =~= s@);
    }
    while i < s.len()
        invariant
            p@ == prefix.spec_bytes(),
            s@ == replace.spec_bytes(),
            0 <= j < p@.len(),
            0 <= i <= s@.len(),
            is_subsequence(p@, s@) == is_subsequence(
                p@.subrange(j as int, p@.len() as int),
                s@.subrange(i as int, s@.len() as int),
            ),
        decreases s@.len() - i,
    {
        proof {
            lemma_subsequence_step(p@, s@, j as int, i as int);
        }
        if p[j] == s[i] {
            j = j + 1;
            if j == p.len() {
                return true;
            }
        }
        i = i + 1;
    }
    false
}

/// Byte-wise lexicographic order, as `str`'s `Ord` compares.
pub open spec fn bytes_lt(a: Seq<u8>, b: Seq<u8>) -> bool
    decreases a.len(),
{
    if b.len() == 0 {
        false
    } else if a.len() == 0 {
        true
    } else if a[0] != b[0] {
        a[0] < b[0]
    } else {
        bytes_lt(a.drop_first(), b.drop_first())
    }
}

pub proof fn lemma_bytes_lt_irreflexive(a: Seq<u8>)
    ensures
        !bytes_lt(a, a),
    decreases a.len(),
{
    if a.len() > 0 {
        lemma_bytes_lt_irreflexive(a.drop_first());
    }
}

pub proof fn lemma_bytes_lt_transitive(a: Seq<u8>, b: Seq<u8>, c: Seq<u8>)
    requires
        bytes_lt(a, b),
        bytes_lt(b, c),
    ensures
        bytes_lt(a, c),
    decreases a.len(),
{
    if a.len() > 0 && b.len() > 0 && c.len() > 0 && a[0] == b[0] && b[0] == c[0] {
        lemma_bytes_lt_transitive(a.drop_first(), b.drop_first(), c.drop_first());
    }
}

/// Three-way byte-wise comparison of `a` with `b`: `-1`, `0` or `1`.
pub fn compare_bytes(a: &str, b: &str) -> (r: i8)
    ensures
        r == 0 <==> a.spec_bytes() == b.spec_bytes(),
        r < 0 <==> bytes_lt(a.spec_bytes(), b.spec_bytes()),
        r > 0 <==> bytes_lt(b.spec_bytes(), a.spec_bytes()),
{
    let x = a.as_bytes();
    let y = b.as_bytes();
    let mut i: usize = 0;
    proof {
        lemma_bytes_lt_irreflexive(x@);
        assert(x@.subrange(0, x@.len() as int) =~= x@);
        assert(y@.subrange(0, y@.len() as int) =~= y@);
    }
    while i < x.len() && i < y.len()
        invariant
            x@ == a.spec_bytes(),
            y@ == b.spec_bytes(),
            0 <= i <= x@.len(),
            i <= y@.len(),
            x@.subrange(0, i as int) == y@.subrange(0, i as int),
            bytes_lt(x@, y@) == bytes_lt(
                x@.subrange(i as int, x@.len() as int),
                y@.subrange(i as int, y@.len() as int),
            ),
            bytes_lt(y@, x@) == bytes_lt(
                y@.subrange(i as int, y@.len() as int),
                x@.subrange(i as int, x@.len() as int),
            ),
        decreases x@.len() - i,
    {
        let ghost xs = x@.subrange(i as int, x@.len() as int);
        let ghost ys = y@.subrange(i as int, y@.len() as int);
        if x[i] < y[i] {
            proof {
                assert(xs[0] == x@[i as int] && ys[0] == y@[i as int]);
                assert(x@[i as int] != y@[i as int]);
            }
            return -1;
        }
        if x[i] > y[i] {
            proof {
                assert(xs[0] == x@[i as int] && ys[0] == y@[i as int]);
                assert(x@[i as int] != y@[i as int]);
            }
            return 1;
        }
        proof {
            assert(xs[0] == x@[i as int] && ys[0] == y@[i as int]);
            assert(xs.drop_first() =~= x@.subrange(i + 1, x@.len() as int));
            assert(ys.drop_first() =~= y@.subrange(i + 1, y@.len() as int));
            assert(x@.subrange(0, i + 1) =~= x@.subrange(0, i as int).push(x@[i as int]));
            assert(y@.subrange(0, i + 1) =~= y@.subrange(0, i as int).push(y@[i as int]));
        }
        i = i + 1;
    }
    let ghost xs = x@.subrange(i as int, x@.len() as int);
    let ghost ys = y@.subrange(i as int, y@.len() as int);
    if x.len() == y.len() {
        proof {
            assert(x@ =~= x@.subrange(0, i as int));
            assert(y@ =~= y@.subrange(0, i as int));
            assert(xs.len() == 0 && ys.len() == 0);
        }
        0
    } else if x.len() < y.len() {
        proof {
            assert(xs.len() == 0 && ys.len() > 0);
            assert(x@.len() != y@.len());
        }
        -1
    } else {
        proof {
            assert(ys.len() == 0 && xs.len() > 0);
            assert(x@.len() != y@.len());
        }
        1
    }
}

} // verus!
