//! Exact fractions and the sums that the statistics are built from.
use vstd::prelude::*;

verus! {

/// A non-negative fraction `num / den`; `den` is positive in every value
/// this library returns.
#[derive(Clone, Copy, Debug, PartialEq, Eq, Structural)]
pub struct Ratio {
    pub num: u128,
    pub den: u128,
}

/// A signed fraction `num / den`; `den` is positive in every value this
/// library returns, so the sign of the fraction is the sign of `num`.
#[derive(Clone, Copy, Debug, PartialEq, Eq, Structural)]
pub struct SignedRatio {
    pub num: i128,
    pub den: u128,
}

/// Sum of a sequence of integers.
pub open spec fn sum(s: Seq<int>) -> int
    decreases s.len(),
{
    if s.len() == 0 {
        0
    } else {
        sum(s.drop_last()) + s.last()
    }
}

/// A sequence of machine integers read as mathematical integers.
pub open spec fn ints(s: Seq<u64>) -> Seq<int> {
    s.map_values(|x: u64| x as int)
}

/// Every element lies in `0..=b`.
pub open spec fn bounded_by(s: Seq<int>, b: int) -> bool {
    forall|i: int| 0 <= i < s.len() ==> 0 <= #[trigger] s[i] <= b
}

pub proof fn lemma_sum_take_next(s: Seq<int>, i: int)
    requires
        0 <= i < s.len(),
    ensures
        sum(s.take(i + 1)) == sum(s.take(i)) + s[i],
{
    assert(s.take(i + 1).drop_last() =~= s.take(i));
}

pub proof fn lemma_sum_subrange_next(s: Seq<int>, lo: int, hi: int)
    requires
        0 <= lo <= hi < s.len(),
    ensures
        sum(s.subrange(lo, hi + 1)) == sum(s.subrange(lo, hi)) + s[hi],
{
    assert(s.subrange(lo, hi + 1).drop_last() =~= s.subrange(lo, hi));
}

/// A sum of elements in `0..=b` lies in `0..=len * b`.
pub proof fn lemma_sum_bounded(s: Seq<int>, b: int)
    requires
        bounded_by(s, b),
    ensures
        0 <= sum(s) <= s.len() * b,
    decreases s.len(),
{
    if s.len() > 0 {
        let t = s.drop_last();
        assert(bounded_by(t, b)) by {
            assert forall|i: int| 0 <= i < t.len() implies 0 <= #[trigger] t[i] <= b by {
                assert(t[i] == s[i]);
            }
        }
        lemma_sum_bounded(t, b);
        assert(s.last() == s[s.len() - 1]);
        assert(sum(s) == sum(t) + s.last());
        assert(sum(s) <= s.len() * b) by (nonlinear_arith)
            requires
                sum(s) == sum(t) + s.last(),
                sum(t) <= t.len() * b,
                s.last() <= b,
                s.len() == t.len() + 1,
        ;
        assert(0 <= sum(s));
    } else {
        assert(s.len() * b == 0) by (nonlinear_arith)
            requires
                s.len() == 0,
        ;
    }
}

/// Bounds of a sum of `u64` values in 128 bits.
pub proof fn lemma_sum_u64_fits(s: Seq<u64>)
    requires
        s.len() <= usize::MAX,
    ensures
        0 <= sum(ints(s)) <= s.len() * (u64::MAX as int),
        sum(ints(s)) <= u128::MAX,
{
    let t = ints(s);
    assert(bounded_by(t, u64::MAX as int)) by {
        assert forall|i: int| 0 <= i < t.len() implies 0 <= #[trigger] t[i] <= u64::MAX as int by {
            assert(t[i] == s[i] as int);
        }
    }
    lemma_sum_bounded(t, u64::MAX as int);
    let n = s.len() as int;
    assert(n * (u64::MAX as int) <= (usize::MAX as int) * (u64::MAX as int)) by (nonlinear_arith)
        requires
            0 <= n <= usize::MAX,
    ;
    assert((usize::MAX as int) * (u64::MAX as int) <= u128::MAX) by (nonlinear_arith)
        requires
            usize::MAX <= u64::MAX,
    ;
}

/// A prefix of a sequence of non-negative numbers sums to at most the whole.
pub proof fn lemma_sum_prefix_le(s: Seq<int>, j: int)
    requires
        0 <= j <= s.len(),
        forall|i: int| 0 <= i < s.len() ==> 0 <= #[trigger] s[i],
    ensures
        sum(s.take(j)) <= sum(s),
    decreases s.len(),
{
    if j < s.len() {
        let t = s.drop_last();
        assert(t.take(j) =~= s.take(j));
        assert(s.last() == s[s.len() - 1]);
        lemma_sum_prefix_le(t, j);
    } else {
        assert(s.take(j) =~= s);
    }
}

/// A sum of non-negative numbers is zero exactly when every number is zero.
pub proof fn lemma_sum_zero(s: Seq<int>)
    requires
        forall|i: int| 0 <= i < s.len() ==> 0 <= #[trigger] s[i],
    ensures
        0 <= sum(s),
        sum(s) == 0 <==> (forall|i: int| 0 <= i < s.len() ==> #[trigger] s[i] == 0),
    decreases s.len(),
{
    if s.len() > 0 {
        let t = s.drop_last();
        assert(s.last() == s[s.len() - 1]);
        assert forall|i: int| 0 <= i < t.len() implies 0 <= #[trigger] t[i] by {
            assert(t[i] == s[i]);
        }
        lemma_sum_zero(t);
        if sum(s) == 0 {
            assert forall|i: int| 0 <= i < s.len() implies #[trigger] s[i] == 0 by {
                if i < t.len() {
                    assert(t[i] == s[i]);
                }
            }
        }
        if forall|i: int| 0 <= i < s.len() ==> #[trigger] s[i] == 0 {
            assert forall|i: int| 0 <= i < t.len() implies #[trigger] t[i] == 0 by {
                assert(t[i] == s[i]);
            }
        }
    }
}

/// The sum of an elementwise sum is the sum of the sums.
pub proof fn lemma_sum_add(a: Seq<int>, b: Seq<int>, c: Seq<int>)
    requires
        a.len() == b.len() == c.len(),
        forall|i: int| 0 <= i < c.len() ==> #[trigger] c[i] == a[i] + b[i],
    ensures
        sum(c) == sum(a) + sum(b),
    decreases c.len(),
{
    if c.len() > 0 {
        let (a2, b2, c2) = (a.drop_last(), b.drop_last(), c.drop_last());
        assert forall|i: int| 0 <= i < c2.len() implies #[trigger] c2[i] == a2[i] + b2[i] by {
            assert(c2[i] == c[i] && a2[i] == a[i] && b2[i] == b[i]);
        }
        lemma_sum_add(a2, b2, c2);
        assert(c.last() == c[c.len() - 1]);
    }
}

/// Scaling every element scales the sum.
pub proof fn lemma_sum_scale(s: Seq<int>, t: Seq<int>, k: int)
    requires
        s.len() == t.len(),
        forall|i: int| 0 <= i < t.len() ==> #[trigger] t[i] == k * s[i],
    ensures
        sum(t) == k * sum(s),
    decreases s.len(),
{
    if s.len() > 0 {
        let (s2, t2) = (s.drop_last(), t.drop_last());
        assert forall|i: int| 0 <= i < t2.len() implies #[trigger] t2[i] == k * s2[i] by {
            assert(t2[i] == t[i] && s2[i] == s[i]);
        }
        lemma_sum_scale(s2, t2, k);
        assert(t.last() == t[t.len() - 1] && s.last() == s[s.len() - 1]);
        assert(k * sum(s2) + k * s.last() == k * (sum(s2) + s.last())) by (nonlinear_arith);
    }
}

/// If every element exceeds `c`, the sum exceeds `len * c`.
pub proof fn lemma_sum_above(s: Seq<int>, c: int)
    requires
        s.len() > 0,
        forall|i: int| 0 <= i < s.len() ==> #[trigger] s[i] > c,
    ensures
        sum(s) > s.len() * c,
    decreases s.len(),
{
    let t = s.drop_last();
    assert(s.last() == s[s.len() - 1]);
    if t.len() > 0 {
        assert forall|i: int| 0 <= i < t.len() implies #[trigger] t[i] > c by {
            assert(t[i] == s[i]);
        }
        lemma_sum_above(t, c);
    } else {
        assert(sum(t) == 0);
    }
    assert(sum(s) == sum(t) + s.last());
    assert(sum(s) > s.len() * c) by (nonlinear_arith)
        requires
            sum(s) == sum(t) + s.last(),
            sum(t) > t.len() * c || (t.len() == 0 && sum(t) == 0),
            s.last() > c,
            s.len() == t.len() + 1,
    ;
}

/// If every element is below `c`, the sum is below `len * c`.
pub proof fn lemma_sum_below(s: Seq<int>, c: int)
    requires
        s.len() > 0,
        forall|i: int| 0 <= i < s.len() ==> #[trigger] s[i] < c,
    ensures
        sum(s) < s.len() * c,
    decreases s.len(),
{
    let t = s.drop_last();
    assert(s.last() == s[s.len() - 1]);
    if t.len() > 0 {
        assert forall|i: int| 0 <= i < t.len() implies #[trigger] t[i] < c by {
            assert(t[i] == s[i]);
        }
        lemma_sum_below(t, c);
    } else {
        assert(sum(t) == 0);
    }
    assert(sum(s) == sum(t) + s.last());
    assert(sum(s) < s.len() * c) by (nonlinear_arith)
        requires
            sum(s) == sum(t) + s.last(),
            sum(t) < t.len() * c || (t.len() == 0 && sum(t) == 0),
            s.last() < c,
            s.len() == t.len() + 1,
    ;
}

/// Sum of `len` consecutive elements of `s` starting at `start`.
pub fn window_sum(s: &[u64], start: usize, len: usize) -> (r: u128)
    requires
        start + len <= s@.len(),
    ensures
        r == sum(ints(s@).subrange(start as int, start + len)),
{
    let n: usize = s.len();
    let mut acc: u128 = 0;
    let mut i: usize = 0;
    while i < len
        invariant
            n == s@.len(),
            start + len <= s@.len(),
            i <= len,
            acc == sum(ints(s@).subrange(start as int, start + i)),
        decreases len - i,
    {
        proof {
            let w = s@.subrange(start as int, start + i + 1);
            lemma_sum_u64_fits(w);
            assert(ints(w) =~= ints(s@).subrange(start as int, start + i + 1));
            lemma_sum_subrange_next(ints(s@), start as int, start + i);
            assert(ints(s@)[start + i] == s@[start + i] as int);
            assert(acc + s@[start + i] <= u128::MAX);
        }
        let x: u64 = s[start + i];
        acc = acc + x as u128;
        i = i + 1;
    }
    acc
}

} // verus!
