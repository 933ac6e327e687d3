//! Lexicographic ordering of byte sequences, the prefix relation, and the
//! least-upper-bound facts behind [`crate::KeyRange::prefix`].

use vstd::prelude::*;

verus! {

/// Strict lexicographic order on byte sequences: `a` comes before `b` when
/// `a` is a proper prefix of `b`, or at the first differing position the
/// byte of `a` is smaller.
pub open spec fn lex_lt(a: Seq<u8>, b: Seq<u8>) -> bool
    decreases a.len(),
{
    if b.len() == 0 {
        false
    } else if a.len() == 0 {
        true
    } else {
        a[0] < b[0] || (a[0] == b[0] && lex_lt(a.skip(1), b.skip(1)))
    }
}

/// `a` comes lexicographically before `b`, or equals it.
pub open spec fn lex_le(a: Seq<u8>, b: Seq<u8>) -> bool {
    lex_lt(a, b) || a == b
}

/// `k` begins with the bytes of `p`.
pub open spec fn has_prefix(p: Seq<u8>, k: Seq<u8>) -> bool {
    p.len() <= k.len() && k.take(p.len() as int) == p
}

/// Every byte of `p` is `0xff`.
pub open spec fn all_ff(p: Seq<u8>) -> bool {
    forall|i: int| 0 <= i < p.len() ==> p[i] == 0xff
}

/// The least upper bound of all sequences that begin with `p`: drop any
/// trailing `0xff` bytes, then increment the last remaining byte. Empty when
/// no such bound exists, i.e. when every byte of `p` is `0xff`.
pub open spec fn prefix_end(p: Seq<u8>) -> Seq<u8>
    decreases p.len(),
{
    if p.len() == 0 {
        Seq::empty()
    } else if p.last() < 0xff {
        p.drop_last().push((p.last() + 1) as u8)
    } else {
        prefix_end(p.drop_last())
    }
}

pub proof fn lemma_lex_lt_irrefl(a: Seq<u8>)
    ensures
        !lex_lt(a, a),
    decreases a.len(),
{
    if a.len() > 0 {
        lemma_lex_lt_irrefl(a.skip(1));
    }
}

pub proof fn lemma_lex_lt_trans(a: Seq<u8>, b: Seq<u8>, c: Seq<u8>)
    requires
        lex_lt(a, b),
        lex_lt(b, c),
    ensures
        lex_lt(a, c),
    decreases a.len(),
{
    if a.len() > 0 && b.len() > 0 && c.len() > 0 {
        if a[0] == b[0] && b[0] == c[0] {
            lemma_lex_lt_trans(a.skip(1), b.skip(1), c.skip(1));
        }
    }
}

/// Exactly how two sequences compare is unchanged by a shared leading part.
pub proof fn lemma_lex_lt_common(c: Seq<u8>, a: Seq<u8>, b: Seq<u8>)
    ensures
        lex_lt(c + a, c + b) <==> lex_lt(a, b),
    decreases c.len(),
{
    if c.len() == 0 {
        assert(c + a =~= a);
        assert(c + b =~= b);
    } else {
        lemma_lex_lt_common(c.skip(1), a, b);
        assert((c + a).skip(1) =~= c.skip(1) + a);
        assert((c + b).skip(1) =~= c.skip(1) + b);
        assert((c + a)[0] == c[0]);
        assert((c + b)[0] == c[0]);
    }
}

pub proof fn lemma_lex_trichotomy(a: Seq<u8>, b: Seq<u8>)
    ensures
        lex_lt(a, b) || lex_lt(b, a) || a == b,
    decreases a.len(),
{
    if a.len() == 0 && b.len() == 0 {
        assert(a =~= b);
    } else if a.len() > 0 && b.len() > 0 && a[0] == b[0] {
        lemma_lex_trichotomy(a.skip(1), b.skip(1));
        if a.skip(1) == b.skip(1) {
            assert(a.skip(1).len() == b.skip(1).len());
            assert(a.len() == b.len());
            assert forall|i: int| 0 <= i < a.len() implies a[i] == b[i] by {
                if i >= 1 {
                    assert(a.skip(1)[i - 1] == a[i]);
                    assert(b.skip(1)[i - 1] == b[i]);
                }
            }
            assert(a =~= b);
        }
    }
}

/// A sequence that begins with `p` is at least `p` in the order.
pub proof fn lemma_has_prefix_le(p: Seq<u8>, k: Seq<u8>)
    requires
        has_prefix(p, k),
    ensures
        lex_le(p, k),
{
    let n = p.len() as int;
    if p.len() == k.len() {
        assert(k.take(n) =~= k);
    } else {
        lemma_lex_lt_common(p, Seq::empty(), k.skip(n));
        assert(p + Seq::<u8>::empty() =~= p);
        assert(p + k.skip(n) =~= k) by {
            assert(forall|i: int| 0 <= i < n ==> #[trigger] k[i] == k.take(n)[i]);
        }
    }
}

pub proof fn lemma_prefix_end_empty_iff_all_ff(p: Seq<u8>)
    ensures
        prefix_end(p).len() == 0 <==> all_ff(p),
    decreases p.len(),
{
    if p.len() > 0 {
        if p.last() < 0xff {
            assert(!all_ff(p)) by {
                assert(p[p.len() - 1] < 0xff);
            }
        } else {
            lemma_prefix_end_empty_iff_all_ff(p.drop_last());
            if all_ff(p.drop_last()) {
                assert forall|i: int| 0 <= i < p.len() implies p[i] == 0xff by {
                    if i < p.len() - 1 {
                        assert(p.drop_last()[i] == 0xff);
                    }
                }
            }
        }
    }
}

/// Part one of the boundary law: every key that begins with `p` lies
/// strictly below `prefix_end(p)`.
pub proof fn lemma_prefix_end_covers_prefix(p: Seq<u8>, k: Seq<u8>)
    requires
        p.len() > 0,
        !all_ff(p),
        has_prefix(p, k),
    ensures
        lex_lt(k, prefix_end(p)),
    decreases p.len(),
{
    let n = p.len() as int;
    assert(forall|i: int| 0 <= i < n ==> #[trigger] k[i] == k.take(n)[i]);
    if p.last() < 0xff {
        let x = (p.last() + 1) as u8;
        lemma_lex_lt_common(p.drop_last(), k.skip(n - 1), seq![x]);
        assert(p.drop_last() + k.skip(n - 1) =~= k);
        assert(p.drop_last() + seq![x] =~= prefix_end(p));
        assert(k.skip(n - 1)[0] == k[n - 1]);
        assert(lex_lt(k.skip(n - 1), seq![x]));
    } else {
        let p2 = p.drop_last();
        assert(p2.len() > 0) by {
            if p2.len() == 0 {
                assert(forall|i: int| 0 <= i < p.len() ==> p[i] == 0xff);
            }
        }
        assert(!all_ff(p2)) by {
            if all_ff(p2) {
                assert forall|i: int| 0 <= i < p.len() implies p[i] == 0xff by {
                    if i < p.len() - 1 {
                        assert(p2[i] == 0xff);
                    }
                }
                assert(all_ff(p));
            }
        }
        assert(has_prefix(p2, k)) by {
            assert(k.take(n - 1) =~= p2) by {
                assert(forall|i: int| 0 <= i < n - 1 ==> #[trigger] p2[i] == p[i]);
            }
        }
        assert(p2.len() == p.len() - 1);
        lemma_prefix_end_covers_prefix(p2, k);
    }
}

/// The boundary of a prefix that is not all `0xff` ends in a byte above
/// zero, so it is never one of the reserved `[0x00]` sentinels.
pub proof fn lemma_prefix_end_last_nonzero(p: Seq<u8>)
    requires
        !all_ff(p),
    ensures
        prefix_end(p).len() > 0,
        prefix_end(p).last() >= 1,
    decreases p.len(),
{
    assert(p.len() > 0) by {
        if p.len() == 0 {
            assert(all_ff(p));
        }
    }
    if p.last() < 0xff {
        assert(prefix_end(p).last() == (p.last() + 1) as u8);
    } else {
        let p2 = p.drop_last();
        assert(!all_ff(p2)) by {
            if all_ff(p2) {
                assert forall|i: int| 0 <= i < p.len() implies p[i] == 0xff by {
                    if i < p.len() - 1 {
                        assert(p2[i] == 0xff);
                    }
                }
                assert(all_ff(p));
            }
        }
        assert(p2.len() == p.len() - 1);
        lemma_prefix_end_last_nonzero(p2);
    }
}

/// When every byte of `p` after position `i` is `0xff` and the byte at `i`
/// is not, the boundary keeps the first `i` bytes and increments the one at
/// `i`.
pub proof fn lemma_prefix_end_step(p: Seq<u8>, i: int)
    requires
        0 <= i < p.len(),
        p[i] < 0xff,
        forall|j: int| i < j < p.len() ==> p[j] == 0xff,
    ensures
        prefix_end(p) == p.take(i).push((p[i] + 1) as u8),
    decreases p.len(),
{
    if i == p.len() - 1 {
        assert(p.last() == p[i]);
        assert(p.drop_last() =~= p.take(i));
    } else {
        assert(p.last() == 0xff);
        let p2 = p.drop_last();
        assert(p2[i] == p[i]);
        assert forall|j: int| i < j < p2.len() implies p2[j] == 0xff by {
            assert(p2[j] == p[j]);
        }
        lemma_prefix_end_step(p2, i);
        assert(p2.take(i) =~= p.take(i));
    }
}

/// Any sequence at or above an all-`0xff` sequence `p` must begin with `p`.
pub proof fn lemma_ge_all_ff_has_prefix(p: Seq<u8>, k: Seq<u8>)
    requires
        all_ff(p),
        lex_le(p, k),
    ensures
        has_prefix(p, k),
    decreases p.len(),
{
    let n = p.len() as int;
    if p.len() == 0 {
        assert(k.take(0) =~= p);
    } else if p == k {
        assert(k.take(n) =~= p);
    } else {
        assert(lex_lt(p, k));
        assert(k.len() > 0);
        assert(p[0] == 0xff);
        assert(p[0] == k[0] && lex_lt(p.skip(1), k.skip(1)));
        assert forall|j: int| 0 <= j < p.skip(1).len() implies p.skip(1)[j] == 0xff by {
            assert(p.skip(1)[j] == p[j + 1]);
        }
        lemma_ge_all_ff_has_prefix(p.skip(1), k.skip(1));
        assert(k.take(n) =~= p) by {
            assert(k.skip(1).len() >= n - 1);
            assert forall|j: int| 1 <= j < n implies k[j] == p[j] by {
                assert(k.skip(1)[j - 1] == k[j]);
                assert(k.skip(1).take(n - 1)[j - 1] == k.skip(1)[j - 1]);
                assert(p.skip(1)[j - 1] == p[j]);
            }
        }
    }
}

/// Any sequence between `p` and `prefix_end(p)` must begin with `p`.
pub proof fn lemma_between_prefix_end(p: Seq<u8>, k: Seq<u8>)
    requires
        p.len() > 0,
        !all_ff(p),
        lex_le(p, k),
        lex_lt(k, prefix_end(p)),
    ensures
        has_prefix(p, k),
    decreases p.len(),
{
    let n = p.len() as int;
    if k == p {
        assert(k.take(n) =~= p);
    } else if p.last() < 0xff {
        lemma_below_incremented(p, k);
        if !has_prefix(p, k) {
            assert(lex_lt(k, p));
            lemma_lex_lt_trans(p, k, p);
            lemma_lex_lt_irrefl(p);
        }
    } else {
        let p2 = p.drop_last();
        assert(p2.len() > 0) by {
            if p2.len() == 0 {
                assert(forall|i: int| 0 <= i < p.len() ==> p[i] == 0xff);
            }
        }
        assert(!all_ff(p2)) by {
            if all_ff(p2) {
                assert forall|i: int| 0 <= i < p.len() implies p[i] == 0xff by {
                    if i < p.len() - 1 {
                        assert(p2[i] == 0xff);
                    }
                }
                assert(all_ff(p));
            }
        }
        assert(has_prefix(p2, p)) by {
            assert(p.take(n - 1) =~= p2);
        }
        lemma_has_prefix_le(p2, p);
        assert(lex_lt(p, k));
        if lex_lt(p2, p) {
            lemma_lex_lt_trans(p2, p, k);
        }
        assert(p2.len() == p.len() - 1);
        lemma_between_prefix_end(p2, k);
        // k begins with p2; the byte after must be 0xff to keep k above p.
        assert(forall|i: int| 0 <= i < n - 1 ==> #[trigger] k[i] == k.take(n - 1)[i]);
        let kk = k.skip(n - 1);
        lemma_lex_lt_common(p2, seq![p.last()], kk);
        assert(p2 + seq![p.last()] =~= p);
        assert(p2 + kk =~= k);
        assert(lex_lt(seq![p.last()], kk));
        assert(kk.len() > 0);
        assert(kk[0] == 0xff) by {
            assert(seq![p.last()][0] == 0xff);
        }
        assert(k.take(n) =~= p) by {
            assert(k[n - 1] == kk[0]);
        }
    }
}

/// A sequence strictly below the incremented form of `p` either begins with
/// `p` or is at most `p`.
proof fn lemma_below_incremented(p: Seq<u8>, q: Seq<u8>)
    requires
        p.len() > 0,
        p.last() < 0xff,
        lex_lt(q, p.drop_last().push((p.last() + 1) as u8)),
    ensures
        has_prefix(p, q) || lex_le(q, p),
    decreases p.len(),
{
    let n = p.len() as int;
    let e = p.drop_last().push((p.last() + 1) as u8);
    if q.len() == 0 {
        assert(lex_lt(q, p));
    } else if n == 1 {
        assert(e.len() == 1);
        assert(e[0] == (p.last() + 1) as u8);
        assert(e.skip(1).len() == 0);
        assert(!lex_lt(q.skip(1), e.skip(1)));
        if q[0] < p[0] {
            assert(lex_lt(q, p));
        } else {
            assert(q[0] == p[0]);
            assert(q.take(1) =~= p);
        }
    } else {
        assert(e[0] == p[0]);
        if q[0] < p[0] {
            assert(lex_lt(q, p));
        } else {
            assert(q[0] == e[0]);
            assert(lex_lt(q.skip(1), e.skip(1)));
            let p2 = p.skip(1);
            assert(p2.len() == n - 1);
            assert(p2.last() == p.last());
            assert(e.skip(1) =~= p2.drop_last().push((p2.last() + 1) as u8));
            lemma_below_incremented(p2, q.skip(1));
            if has_prefix(p2, q.skip(1)) {
                assert(has_prefix(p, q)) by {
                    assert(q.take(n) =~= p) by {
                        assert(forall|i: int|
                            1 <= i < n ==> #[trigger] q[i] == q.skip(1)[i - 1]);
                        assert(forall|i: int|
                            0 <= i < n - 1
                                ==> q.skip(1)[i] == #[trigger] q.skip(1).take(n - 1)[i]);
                        assert(forall|i: int|
                            1 <= i < n ==> #[trigger] p[i] == p2[i - 1]);
                    }
                }
            } else if lex_lt(q.skip(1), p2) {
                assert(lex_lt(q, p));
            } else {
                assert(q.skip(1) == p2);
                assert(q =~= p) by {
                    assert(forall|i: int|
                        1 <= i < q.len() ==> #[trigger] q[i] == q.skip(1)[i - 1]);
                    assert(forall|i: int|
                        1 <= i < p.len() ==> #[trigger] p[i] == p2[i - 1]);
                }
            }
        }
    }
}

/// Part two of the boundary law: `prefix_end(p)` is the least upper bound.
/// Any `q` that lies strictly above every key beginning with `p` is at
/// least `prefix_end(p)`.
pub proof fn lemma_prefix_end_least_bound(p: Seq<u8>, q: Seq<u8>)
    requires
        p.len() > 0,
        !all_ff(p),
        forall|k: Seq<u8>| #[trigger] has_prefix(p, k) ==> lex_lt(k, q),
    ensures
        lex_le(prefix_end(p), q),
    decreases p.len(),
{
    let n = p.len() as int;
    assert(has_prefix(p, p)) by {
        assert(p.take(n) =~= p);
    }
    assert(lex_lt(p, q));
    if p.last() < 0xff {
        let e = prefix_end(p);
        lemma_lex_trichotomy(e, q);
        if lex_lt(q, e) {
            lemma_below_incremented(p, q);
            if has_prefix(p, q) {
                lemma_lex_lt_irrefl(q);
            } else if lex_lt(q, p) {
                lemma_lex_lt_trans(p, q, p);
                lemma_lex_lt_irrefl(p);
            } else {
                assert(q == p);
                lemma_lex_lt_irrefl(p);
            }
        }
    } else {
        let p2 = p.drop_last();
        assert(p2.len() > 0) by {
            if p2.len() == 0 {
                assert(forall|i: int| 0 <= i < p.len() ==> p[i] == 0xff);
            }
        }
        assert(!all_ff(p2)) by {
            if all_ff(p2) {
                assert forall|i: int| 0 <= i < p.len() implies p[i] == 0xff by {
                    if i < p.len() - 1 {
                        assert(p2[i] == 0xff);
                    }
                }
                assert(all_ff(p));
            }
        }
        assert forall|k2: Seq<u8>| #[trigger] has_prefix(p2, k2) implies lex_lt(k2, q) by {
            assert(forall|i: int|
                0 <= i < n - 1 ==> #[trigger] k2[i] == k2.take(n - 1)[i]);
            if k2.len() == n - 1 {
                // k2 is exactly p2, a proper prefix of p.
                assert(k2 =~= p2);
                lemma_has_prefix_le(k2, p);
                if lex_lt(k2, p) {
                    lemma_lex_lt_trans(k2, p, q);
                }
            } else if k2[n - 1] == p.last() {
                // k2 begins with all of p.
                assert(has_prefix(p, k2)) by {
                    assert(k2.take(n) =~= p) by {
                        assert(forall|i: int|
                            0 <= i < n - 1 ==> #[trigger] p[i] == p2[i]);
                    }
                }
            } else {
                // k2 differs from p at the last position, below it.
                assert(k2[n - 1] < p.last());
                lemma_lex_lt_common(p2, k2.skip(n - 1), seq![p.last()]);
                assert(p2 + k2.skip(n - 1) =~= k2);
                assert(p2 + seq![p.last()] =~= p);
                assert(k2.skip(n - 1)[0] == k2[n - 1]);
                assert(lex_lt(k2.skip(n - 1), seq![p.last()]));
                lemma_lex_lt_trans(k2, p, q);
            }
        }
        assert(p2.len() == p.len() - 1);
        lemma_prefix_end_least_bound(p2, q);
    }
}

} // verus!
