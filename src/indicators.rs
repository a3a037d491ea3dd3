//! Indicators over a plain price sequence: windowed moving average and
//! relative strength index.
use vstd::prelude::*;

use crate::arith::{
    bounded_by, ints, lemma_sum_add, lemma_sum_bounded, sum, window_sum, Ratio,
};

verus! {

/// Number of consecutive steps in a price sequence.
pub open spec fn steps(p: Seq<u64>) -> nat {
    if p.len() == 0 {
        0
    } else {
        (p.len() - 1) as nat
    }
}

/// Rise from price `j` to price `j + 1`, or zero when the price does not rise.
pub open spec fn gain_at(p: Seq<u64>, j: int) -> int {
    if p[j + 1] > p[j] {
        p[j + 1] - p[j]
    } else {
        0
    }
}

/// Fall from price `j` to price `j + 1`, or zero when the price does not fall.
pub open spec fn loss_at(p: Seq<u64>, j: int) -> int {
    if p[j + 1] < p[j] {
        p[j] - p[j + 1]
    } else {
        0
    }
}

pub open spec fn gains(p: Seq<u64>) -> Seq<int> {
    Seq::new(steps(p), |j: int| gain_at(p, j))
}

pub open spec fn losses(p: Seq<u64>) -> Seq<int> {
    Seq::new(steps(p), |j: int| loss_at(p, j))
}

/// Total gain over the `k` steps that end before step `i`.
pub open spec fn window_gain(p: Seq<u64>, k: int, i: int) -> int {
    sum(gains(p).subrange(i - k, i))
}

/// Total loss over the `k` steps that end before step `i`.
pub open spec fn window_loss(p: Seq<u64>, k: int, i: int) -> int {
    sum(losses(p).subrange(i - k, i))
}

/// The relative strength index at step `i`, as numerator and denominator of
/// a fraction of its full scale of 100.  With `rs = gain / loss` the index is
/// `100 - 100 / (1 + rs) = 100 * gain / (gain + loss)`; a window without
/// losses counts as `rs = 0`, so the index is then zero.
pub open spec fn rsi_fraction(p: Seq<u64>, k: int, i: int) -> (int, int) {
    if window_loss(p, k, i) != 0 {
        (window_gain(p, k, i), window_gain(p, k, i) + window_loss(p, k, i))
    } else {
        (0, 1)
    }
}

/// Number of index values that a sequence of `n` prices yields for a window
/// of `k` steps, once `n >= k`.
pub open spec fn rsi_len(n: int, k: int) -> int {
    if n - 1 > k {
        n - 1 - k
    } else {
        0
    }
}

/// Means of every window of `period` consecutive prices, in order; a sequence
/// shorter than one window comes back unchanged, each price as `p / 1`.
pub fn calculate_moving_average(prices: &[u64], period: usize) -> (r: Vec<Ratio>)
    requires
        period > 0,
    ensures
        prices@.len() < period ==> r@.len() == prices@.len() && forall|i: int|
            0 <= i < r@.len() ==> #[trigger] r@[i] == (Ratio { num: prices@[i] as u128, den: 1 }),
        prices@.len() >= period ==> r@.len() == prices@.len() - period + 1 && forall|j: int|
            0 <= j < r@.len() ==> (#[trigger] r@[j]).num == sum(
                ints(prices@).subrange(j, j + period),
            ) && r@[j].den == period,
{
    let n: usize = prices.len();
    let mut out: Vec<Ratio> = Vec::new();
    if n < period {
        let mut i: usize = 0;
        while i < n
            invariant
                n == prices@.len(),
                i <= n,
                out@.len() == i,
                forall|j: int| 0 <= j < i ==> #[trigger] out@[j] == (Ratio { num: prices@[j] as u128, den: 1 }),
            decreases n - i,
        {
            out.push(Ratio { num: prices[i] as u128, den: 1 });
            i = i + 1;
        }
        return out;
    }
    let count: usize = n - period + 1;
    let mut j: usize = 0;
    while j < count
        invariant
            n == prices@.len(),
            n >= period > 0,
            count == n - period + 1,
            j <= count,
            out@.len() == j,
            forall|i: int|
                0 <= i < j ==> (#[trigger] out@[i]).num == sum(ints(prices@).subrange(i, i + period))
                    && out@[i].den == period,
        decreases count - j,
    {
        let s: u128 = window_sum(prices, j, period);
        out.push(Ratio { num: s, den: period as u128 });
        j = j + 1;
    }
    out
}

/// The gain and the loss of every step, as two vectors.
fn step_moves(prices: &[u64]) -> (r: (Vec<u64>, Vec<u64>))
    ensures
        ints(r.0@) =~= gains(prices@),
        ints(r.1@) =~= losses(prices@),
        forall|j: int| 0 <= j < r.0@.len() ==> #[trigger] r.0@[j] + r.1@[j] <= u64::MAX,
{
    let n: usize = prices.len();
    let mut up: Vec<u64> = Vec::new();
    let mut down: Vec<u64> = Vec::new();
    let mut i: usize = 1;
    while i < n
        invariant
            n == prices@.len(),
            1 <= i,
            i <= n || (n == 0 && i == 1),
            up@.len() == i - 1,
            down@.len() == i - 1,
            forall|j: int| 0 <= j < i - 1 ==> #[trigger] up@[j] == gain_at(prices@, j),
            forall|j: int| 0 <= j < i - 1 ==> #[trigger] down@[j] == loss_at(prices@, j),
            forall|j: int| 0 <= j < i - 1 ==> #[trigger] up@[j] + down@[j] <= u64::MAX,
        decreases n - i,
    {
        let a: u64 = prices[i - 1];
        let b: u64 = prices[i];
        if b > a {
            up.push(b - a);
            down.push(0);
        } else {
            up.push(0);
            down.push(a - b);
        }
        i = i + 1;
    }
    proof {
        assert(up@.len() == steps(prices@));
        assert forall|j: int| 0 <= j < up@.len() implies ints(up@)[j] == gains(prices@)[j] && ints(
            down@,
        )[j] == losses(prices@)[j] by {
            assert(up@[j] == gain_at(prices@, j));
            assert(down@[j] == loss_at(prices@, j));
        }
    }
    (up, down)
}

/// Relative strength index over a sliding window of `period` steps; each
/// value is a fraction of the index's full scale of 100.  A sequence shorter
/// than `period` yields the neutral value one half for every price.
pub fn calculate_rsi(prices: &[u64], period: usize) -> (r: Vec<Ratio>)
    ensures
        prices@.len() < period ==> r@.len() == prices@.len() && forall|i: int|
            0 <= i < r@.len() ==> #[trigger] r@[i] == (Ratio { num: 1, den: 2 }),
        prices@.len() >= period ==> r@.len() == rsi_len(prices@.len() as int, period as int)
            && forall|j: int|
            0 <= j < r@.len() ==> (#[trigger] r@[j]).num == rsi_fraction(prices@, period as int, j + period).0
                && r@[j].den == rsi_fraction(prices@, period as int, j + period).1,
{
    let n: usize = prices.len();
    let mut out: Vec<Ratio> = Vec::new();
    if n < period {
        let mut i: usize = 0;
        while i < n
            invariant
                i <= n,
                out@.len() == i,
                forall|j: int| 0 <= j < i ==> #[trigger] out@[j] == (Ratio { num: 1, den: 2 }),
            decreases n - i,
        {
            out.push(Ratio { num: 1, den: 2 });
            i = i + 1;
        }
        return out;
    }
    let (up, down) = step_moves(prices);
    let m: usize = up.len();
    let mut i: usize = period;
    while i < m
        invariant
            n == prices@.len(),
            n >= period,
            m == up@.len() == down@.len() == steps(prices@),
            ints(up@) =~= gains(prices@),
            ints(down@) =~= losses(prices@),
            forall|j: int| 0 <= j < m ==> #[trigger] up@[j] + down@[j] <= u64::MAX,
            period <= i,
            i <= m || i == period,
            out@.len() == i - period,
            forall|j: int|
                0 <= j < out@.len() ==> (#[trigger] out@[j]).num == rsi_fraction(prices@, period as int, j + period).0
                    && out@[j].den == rsi_fraction(prices@, period as int, j + period).1,
        decreases m - i,
    {
        let g: u128 = window_sum(up.as_slice(), i - period, period);
        let l: u128 = window_sum(down.as_slice(), i - period, period);
        if l != 0 {
            proof {
                let lo = (i - period) as int;
                let a = gains(prices@).subrange(lo, i as int);
                let b = losses(prices@).subrange(lo, i as int);
                let c = Seq::new(period as nat, |j: int| a[j] + b[j]);
                lemma_sum_add(a, b, c);
                assert(bounded_by(c, u64::MAX as int)) by {
                    assert forall|j: int| 0 <= j < c.len() implies 0 <= #[trigger] c[j] <= u64::MAX as int by {
                        assert(a[j] == ints(up@)[lo + j] && b[j] == ints(down@)[lo + j]);
                        assert(up@[lo + j] + down@[lo + j] <= u64::MAX);
                    }
                }
                lemma_sum_bounded(c, u64::MAX as int);
                let k = period as int;
                assert(k * (u64::MAX as int) <= u128::MAX) by (nonlinear_arith)
                    requires
                        0 <= k <= usize::MAX,
                        usize::MAX <= u64::MAX,
                ;
            }
            out.push(Ratio { num: g, den: g + l });
        } else {
            out.push(Ratio { num: 0, den: 1 });
        }
        i = i + 1;
    }
    assert(out@.len() == rsi_len(n as int, period as int));
    out
}

} // verus!
