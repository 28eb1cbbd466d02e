//! Byte-sequence utilities: lexicographic order and prefix, suffix and
//! substring tests, shared by the label sort, the listing parser and the
//! path heuristics.

use vstd::prelude::*;
use vstd::slice::slice_index_get;

verus! {

/// `a` is at most `b` in byte-wise lexicographic order, the order in
/// which service labels are listed.
pub open spec fn lex_leq(a: Seq<u8>, b: Seq<u8>) -> bool
    decreases a.len(),
{
    if a.len() == 0 {
        true
    } else if b.len() == 0 {
        false
    } else if a[0] < b[0] {
        true
    } else if a[0] > b[0] {
        false
    } else {
        lex_leq(a.drop_first(), b.drop_first())
    }
}

/// Any two byte sequences are comparable.
pub proof fn lemma_lex_leq_total(a: Seq<u8>, b: Seq<u8>)
    ensures
        lex_leq(a, b) || lex_leq(b, a),
    decreases a.len(),
{
    if a.len() > 0 && b.len() > 0 && a[0] == b[0] {
        lemma_lex_leq_total(a.drop_first(), b.drop_first());
    }
}

/// Lexicographic order is transitive.
pub proof fn lemma_lex_leq_trans(a: Seq<u8>, b: Seq<u8>, c: Seq<u8>)
    requires
        lex_leq(a, b),
        lex_leq(b, c),
    ensures
        lex_leq(a, c),
    decreases a.len(),
{
    if a.len() > 0 && b.len() > 0 && c.len() > 0 && a[0] == b[0] && b[0] == c[0] {
        lemma_lex_leq_trans(a.drop_first(), b.drop_first(), c.drop_first());
    }
}

proof fn lemma_lex_leq_step(a: Seq<u8>, b: Seq<u8>, i: int)
    requires
        0 <= i < a.len(),
        i < b.len(),
        a[i] == b[i],
    ensures
        lex_leq(a.skip(i), b.skip(i)) == lex_leq(a.skip(i + 1), b.skip(i + 1)),
{
    assert(a.skip(i).drop_first() =~= a.skip(i + 1));
    assert(b.skip(i).drop_first() =~= b.skip(i + 1));
    assert(a.skip(i)[0] == a[i]);
    assert(b.skip(i)[0] == b[i]);
}

/// Byte-wise lexicographic comparison.
pub fn bytes_leq(a: &[u8], b: &[u8]) -> (r: bool)
    ensures
        r == lex_leq(a@, b@),
{
    proof {
        assert(a@.skip(0) =~= a@);
        assert(b@.skip(0) =~= b@);
    }
    let mut i: usize = 0;
    loop
        invariant
            i <= a@.len(),
            i <= b@.len(),
            lex_leq(a@, b@) == lex_leq(a@.skip(i as int), b@.skip(i as int)),
        decreases a@.len() - i,
    {
        if i >= a.len() {
            proof {
                assert(a@.skip(i as int).len() == 0);
            }
            return true;
        }
        if i >= b.len() {
            proof {
                assert(b@.skip(i as int).len() == 0);
                assert(a@.skip(i as int).len() > 0);
            }
            return false;
        }
        let x = *slice_index_get(a, i);
        let y = *slice_index_get(b, i);
        proof {
            assert(a@.skip(i as int)[0] == a@[i as int]);
            assert(b@.skip(i as int)[0] == b@[i as int]);
        }
        if x < y {
            return true;
        }
        if x > y {
            return false;
        }
        proof {
            lemma_lex_leq_step(a@, b@, i as int);
        }
        i = i + 1;
    }
}

/// `p` is a prefix of `s`.
pub open spec fn is_prefix_of(p: Seq<u8>, s: Seq<u8>) -> bool {
    p.len() <= s.len() && s.subrange(0, p.len() as int) == p
}

/// `x` is a suffix of `s`.
pub open spec fn is_suffix_of(x: Seq<u8>, s: Seq<u8>) -> bool {
    x.len() <= s.len() && s.subrange(s.len() - x.len(), s.len() as int) == x
}

/// `n` occurs somewhere in `s`.
pub open spec fn has_substring(s: Seq<u8>, n: Seq<u8>) -> bool {
    exists|i: int| 0 <= i && i + n.len() <= s.len() && #[trigger] s.subrange(i, i + n.len()) == n
}

/// `n` matches `s` at offset `i`.
fn match_at(s: &[u8], n: &[u8], i: usize) -> (r: bool)
    requires
        i + n@.len() <= s@.len(),
    ensures
        r == (s@.subrange(i as int, i as int + n@.len() as int) == n@),
{
    let s_len = s.len();
    let mut k: usize = 0;
    loop
        invariant
            k <= n@.len(),
            i + n@.len() <= s@.len(),
            s@.len() == s_len,
            forall|j: int| 0 <= j < k ==> s@[i + j] == n@[j],
        decreases n@.len() - k,
    {
        if k >= n.len() {
            proof {
                assert(s@.subrange(i as int, i as int + n@.len() as int) =~= n@);
            }
            return true;
        }
        let sc = *slice_index_get(s, i + k);
        let nc = *slice_index_get(n, k);
        if sc != nc {
            proof {
                assert(s@.subrange(i as int, i as int + n@.len() as int)[k as int] == s@[i
                    + k]);
            }
            return false;
        }
        k = k + 1;
    }
}

/// Equality of byte slices.
pub fn bytes_eq(a: &[u8], b: &[u8]) -> (r: bool)
    ensures
        r == (a@ == b@),
{
    if a.len() != b.len() {
        return false;
    }
    let r = match_at(a, b, 0);
    proof {
        assert(a@.subrange(0, b@.len() as int) =~= a@);
    }
    r
}

/// Prefix test.
pub fn bytes_starts_with(s: &[u8], p: &[u8]) -> (r: bool)
    ensures
        r == is_prefix_of(p@, s@),
{
    if p.len() > s.len() {
        return false;
    }
    match_at(s, p, 0)
}

/// Suffix test.
pub fn bytes_ends_with(s: &[u8], x: &[u8]) -> (r: bool)
    ensures
        r == is_suffix_of(x@, s@),
{
    if x.len() > s.len() {
        return false;
    }
    match_at(s, x, s.len() - x.len())
}

/// Substring test.
pub fn bytes_contains(s: &[u8], n: &[u8]) -> (r: bool)
    ensures
        r == has_substring(s@, n@),
{
    if n.len() == 0 {
        proof {
            assert(s@.subrange(0, 0 + n@.len() as int) =~= n@);
        }
        return true;
    }
    if n.len() > s.len() {
        return false;
    }
    let s_len = s.len();
    let end = s.len() - n.len();
    let mut i: usize = 0;
    loop
        invariant
            n@.len() > 0,
            i <= end + 1,
            s@.len() == s_len,
            end == s@.len() - n@.len(),
            forall|j: int| 0 <= j < i ==> #[trigger] s@.subrange(j, j + n@.len()) != n@,
        decreases end + 1 - i,
    {
        if i > end {
            return false;
        }
        if match_at(s, n, i) {
            return true;
        }
        i = i + 1;
    }
}

} // verus!
