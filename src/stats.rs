//! Summary statistics of one token's series.
use vstd::prelude::*;

use crate::arith::{
    ints, lemma_sum_above, lemma_sum_below, lemma_sum_prefix_le, lemma_sum_scale,
    lemma_sum_take_next, lemma_sum_zero, sum, window_sum, Ratio, SignedRatio,
};
use crate::series::{AnalyticsEngine, MarketData};

verus! {

/// Failures of the analytics calls.
#[derive(Clone, Copy, Debug, PartialEq, Eq, Structural)]
pub enum AnalyticsError {
    /// No point was ever added for the token.
    UnknownToken,
    /// The series holds fewer than the two points that the figure needs.
    InsufficientData,
    /// A figure would divide by zero: a first price, an initial portfolio
    /// value, a total liquidity or a staked amount of zero.
    InvalidInput,
    /// An exact result does not fit in 128 bits.
    Overflow,
}

/// Direction of a series, from the sign of its price change.
#[derive(Clone, Copy, Debug, PartialEq, Eq, Structural)]
pub enum Trend {
    Bullish,
    Bearish,
    Neutral,
}

impl Trend {
    /// The trend's conventional upper-case label.
    pub fn label(&self) -> (r: &'static str)
        ensures
            *self == Trend::Bullish ==> r@ == "BULLISH"@,
            *self == Trend::Bearish ==> r@ == "BEARISH"@,
            *self == Trend::Neutral ==> r@ == "NEUTRAL"@,
    {
        match self {
            Trend::Bullish => "BULLISH",
            Trend::Bearish => "BEARISH",
            Trend::Neutral => "NEUTRAL",
        }
    }
}

/// Trend of a change whose sign is the sign of `x`.
pub open spec fn trend_of(x: int) -> Trend {
    if x > 0 {
        Trend::Bullish
    } else if x < 0 {
        Trend::Bearish
    } else {
        Trend::Neutral
    }
}

/// Statistics of a whole stored series.
#[derive(Clone, Copy, Debug, PartialEq, Eq, Structural)]
pub struct AnalyticsResult {
    /// Mean price.
    pub avg_price: Ratio,
    /// Total volume.
    pub volume_24h: u128,
    /// Percent change from the first price to the last.
    pub price_change_24h: SignedRatio,
    /// Sample variance of the prices (divisor `n - 1`); the volatility is
    /// its square root.
    pub variance: Ratio,
    pub trend: Trend,
}

/// A column of a series of points.
#[derive(Clone, Copy, Debug, PartialEq, Eq, Structural)]
pub enum Field {
    Price,
    Volume,
    Liquidity,
}

pub open spec fn field_of(d: MarketData, f: Field) -> u64 {
    match f {
        Field::Price => d.price,
        Field::Volume => d.volume,
        Field::Liquidity => d.liquidity,
    }
}

/// One field of every point, in order.
pub open spec fn column(pts: Seq<MarketData>, f: Field) -> Seq<u64> {
    pts.map_values(|d: MarketData| field_of(d, f))
}

/// Total of one field over every point.
pub open spec fn total(pts: Seq<MarketData>, f: Field) -> int {
    sum(ints(column(pts, f)))
}

/// Squared deviations of `n * x` from `s`, for every `x` of `p`: with `s` the
/// sum of the `n` values of `p`, these are the squared deviations from the
/// mean, scaled by `n * n`.
pub open spec fn scaled_sq_devs(p: Seq<int>, n: int, s: int) -> Seq<int> {
    p.map_values(|x: int| (n * x - s) * (n * x - s))
}

/// Numerator of the sample variance of the prices over the denominator
/// `variance_den`.
pub open spec fn variance_num(p: Seq<u64>) -> int {
    sum(scaled_sq_devs(ints(p), p.len() as int, sum(ints(p))))
}

/// `n * n * (n - 1)`: the sample variance of `n` prices is
/// `sum((n * p_i - S)^2) / (n * n * (n - 1))`, with `S` the sum of the prices.
pub open spec fn variance_den(n: int) -> int {
    n * n * (n - 1)
}

/// The exact sample variance of `p` fits in the `Ratio` it is returned as.
pub open spec fn variance_fits(p: Seq<u64>) -> bool {
    variance_num(p) <= u128::MAX && variance_den(p.len() as int) <= u128::MAX
}

fn column_values(pts: &Vec<MarketData>, f: Field) -> (r: Vec<u64>)
    ensures
        r@ == column(pts@, f),
{
    let n: usize = pts.len();
    let mut out: Vec<u64> = Vec::new();
    let mut i: usize = 0;
    while i < n
        invariant
            n == pts@.len(),
            i <= n,
            out@ =~= column(pts@, f).take(i as int),
        decreases n - i,
    {
        let d: MarketData = pts[i];
        let v: u64 = match f {
            Field::Price => d.price,
            Field::Volume => d.volume,
            Field::Liquidity => d.liquidity,
        };
        out.push(v);
        i = i + 1;
        assert(out@ =~= column(pts@, f).take(i as int));
    }
    assert(out@ =~= column(pts@, f));
    out
}

/// Total of one field over a series.
pub fn column_total(pts: &Vec<MarketData>, f: Field) -> (r: u128)
    ensures
        r == total(pts@, f),
{
    let v: Vec<u64> = column_values(pts, f);
    let r: u128 = window_sum(v.as_slice(), 0, v.len());
    assert(ints(v@).subrange(0, v@.len() as int) =~= ints(v@));
    r
}

/// `a` holds the statistics of the series `pts`.
pub open spec fn describes(a: AnalyticsResult, pts: Seq<MarketData>) -> bool {
    let p = column(pts, Field::Price);
    let n = pts.len() as int;
    &&& a.avg_price.num == sum(ints(p)) && a.avg_price.den == n
    &&& a.volume_24h == total(pts, Field::Volume)
    &&& a.price_change_24h.num == 100 * (p[n - 1] - p[0]) && a.price_change_24h.den == p[0]
    &&& a.variance.num == variance_num(p) && a.variance.den == variance_den(n)
    &&& a.trend == trend_of(a.price_change_24h.num as int)
}

/// Some element of `p` is at most the mean of `p`, and some element is at
/// least the mean: the mean lies between the least and the greatest element.
pub proof fn lemma_mean_within_range(p: Seq<int>)
    requires
        p.len() > 0,
    ensures
        exists|i: int| 0 <= i < p.len() && p.len() * #[trigger] p[i] <= sum(p),
        exists|j: int| 0 <= j < p.len() && sum(p) <= p.len() * #[trigger] p[j],
{
    let n = p.len() as int;
    let t = p.map_values(|x: int| n * x);
    lemma_sum_scale(p, t, n);
    if forall|i: int| 0 <= i < p.len() ==> p.len() * #[trigger] p[i] > sum(p) {
        assert forall|i: int| 0 <= i < t.len() implies #[trigger] t[i] > sum(p) by {
            assert(t[i] == n * p[i]);
        }
        lemma_sum_above(t, sum(p));
    }
    if forall|j: int| 0 <= j < p.len() ==> sum(p) > p.len() * #[trigger] p[j] {
        assert forall|i: int| 0 <= i < t.len() implies #[trigger] t[i] < sum(p) by {
            assert(t[i] == n * p[i]);
        }
        lemma_sum_below(t, sum(p));
    }
}

/// A sum of `n` copies of `c` is `n * c`.
pub proof fn lemma_sum_constant(s: Seq<int>, c: int)
    requires
        forall|i: int| 0 <= i < s.len() ==> #[trigger] s[i] == c,
    ensures
        sum(s) == s.len() * c,
    decreases s.len(),
{
    if s.len() > 0 {
        let t = s.drop_last();
        assert forall|i: int| 0 <= i < t.len() implies #[trigger] t[i] == c by {
            assert(t[i] == s[i]);
        }
        lemma_sum_constant(t, c);
        assert(s.last() == s[s.len() - 1]);
        assert(sum(s) == s.len() * c) by (nonlinear_arith)
            requires
                sum(s) == sum(t) + s.last(),
                sum(t) == t.len() * c,
                s.last() == c,
                s.len() == t.len() + 1,
        ;
    }
}

/// The sample variance of a non-empty price sequence is zero exactly when
/// every price is the same.
pub proof fn lemma_variance_zero_iff_constant(p: Seq<u64>)
    requires
        p.len() > 0,
    ensures
        variance_num(p) == 0 <==> (forall|i: int, j: int|
            0 <= i < p.len() && 0 <= j < p.len() ==> #[trigger] p[i] == #[trigger] p[j]),
{
    let q = ints(p);
    let n = p.len() as int;
    let s = sum(q);
    let devs = scaled_sq_devs(q, n, s);
    assert forall|k: int| 0 <= k < devs.len() implies 0 <= #[trigger] devs[k] by {
        let y = n * q[k] - s;
        assert(0 <= y * y) by (nonlinear_arith);
    }
    lemma_sum_zero(devs);
    if forall|i: int, j: int| 0 <= i < p.len() && 0 <= j < p.len() ==> #[trigger] p[i] == #[trigger] p[j] {
        let c = q[0];
        assert forall|i: int| 0 <= i < q.len() implies #[trigger] q[i] == c by {
            assert(p[i] == p[0]);
        }
        lemma_sum_constant(q, c);
        assert forall|k: int| 0 <= k < devs.len() implies #[trigger] devs[k] == 0 by {
            assert(q[k] == c);
            let y = n * q[k] - s;
            assert(y == 0);
            assert(devs[k] == y * y);
            assert(y * y == 0) by (nonlinear_arith)
                requires
                    y == 0,
            ;
        }
    }
    if variance_num(p) == 0 {
        assert forall|i: int, j: int| 0 <= i < p.len() && 0 <= j < p.len() implies #[trigger] p[i]
            == #[trigger] p[j] by {
            assert(devs[i] == 0 && devs[j] == 0);
            let (a, b) = (q[i], q[j]);
            assert(a == b) by (nonlinear_arith)
                requires
                    (n * a - s) * (n * a - s) == 0,
                    (n * b - s) * (n * b - s) == 0,
                    n > 0,
            ;
        }
    }
}

impl AnalyticsEngine {
    /// Statistics of the whole series of `token`: mean price, total volume,
    /// percent change from the first price to the last, sample variance of
    /// the prices, and trend.
    pub fn calculate_analytics(&self, token: &str) -> (r: Result<AnalyticsResult, AnalyticsError>)
        requires
            self.wf(),
        ensures
            !self@.contains_key(token@) ==> r == Err::<AnalyticsResult, AnalyticsError>(
                AnalyticsError::UnknownToken,
            ),
            self@.contains_key(token@) ==> {
                let pts = self@[token@];
                let p = column(pts, Field::Price);
                &&& pts.len() < 2 ==> r == Err::<AnalyticsResult, AnalyticsError>(
                    AnalyticsError::InsufficientData,
                )
                &&& pts.len() >= 2 && p[0] == 0 ==> r == Err::<AnalyticsResult, AnalyticsError>(
                    AnalyticsError::InvalidInput,
                )
                &&& pts.len() >= 2 && p[0] != 0 && !variance_fits(p) ==> r == Err::<
                    AnalyticsResult,
                    AnalyticsError,
                >(AnalyticsError::Overflow)
                &&& pts.len() >= 2 && p[0] != 0 && variance_fits(p) ==> r is Ok
            },
            r matches Ok(a) ==> {
                let pts = self@[token@];
                let p = column(pts, Field::Price);
                &&& self@.contains_key(token@)
                &&& describes(a, pts)
                &&& exists|i: int|
                    0 <= i < p.len() && a.avg_price.den * #[trigger] p[i] <= a.avg_price.num
                &&& exists|j: int|
                    0 <= j < p.len() && a.avg_price.num <= a.avg_price.den * #[trigger] p[j]
                &&& a.variance.num == 0 <==> (forall|i: int, j: int|
                    0 <= i < p.len() && 0 <= j < p.len() ==> #[trigger] p[i] == #[trigger] p[j])
            },
    {
        let pts: &Vec<MarketData> = match self.series(token) {
            None => {
                return Err(AnalyticsError::UnknownToken);
            },
            Some(v) => v,
        };
        let n: usize = pts.len();
        if n < 2 {
            return Err(AnalyticsError::InsufficientData);
        }
        let prices: Vec<u64> = column_values(pts, Field::Price);
        let first: u64 = prices[0];
        let last: u64 = prices[n - 1];
        if first == 0 {
            return Err(AnalyticsError::InvalidInput);
        }
        let variance: Ratio = match self.calculate_volatility(prices.as_slice()) {
            None => {
                return Err(AnalyticsError::Overflow);
            },
            Some(v) => v,
        };
        let s: u128 = window_sum(prices.as_slice(), 0, n);
        let volume: u128 = column_total(pts, Field::Volume);
        let change: i128 = (last as i128 - first as i128) * 100;
        let trend: Trend = if change > 0 {
            Trend::Bullish
        } else if change < 0 {
            Trend::Bearish
        } else {
            Trend::Neutral
        };
        proof {
            let q = ints(prices@);
            assert(q.subrange(0, n as int) =~= q);
            lemma_mean_within_range(q);
            let i = choose|i: int| 0 <= i < q.len() && q.len() * #[trigger] q[i] <= sum(q);
            assert(n * prices@[i] <= s);
            let j = choose|j: int| 0 <= j < q.len() && sum(q) <= q.len() * #[trigger] q[j];
            assert(s <= n * prices@[j]);
            lemma_variance_zero_iff_constant(prices@);
        }
        Ok(
            AnalyticsResult {
                avg_price: Ratio { num: s, den: n as u128 },
                volume_24h: volume,
                price_change_24h: SignedRatio { num: change, den: first as u128 },
                variance,
                trend,
            },
        )
    }

    /// Sample variance of `prices`, or `None` when it does not fit; zero for
    /// fewer than two prices.
    fn calculate_volatility(&self, prices: &[u64]) -> (r: Option<Ratio>)
        ensures
            prices@.len() < 2 ==> r == Some(Ratio { num: 0, den: 1 }),
            prices@.len() >= 2 ==> (r is None <==> !variance_fits(prices@)),
            prices@.len() >= 2 ==> (r matches Some(v) ==> v.num == variance_num(prices@) && v.den
                == variance_den(prices@.len() as int)),
    {
        let n: usize = prices.len();
        if n < 2 {
            return Some(Ratio { num: 0, den: 1 });
        }
        let s: u128 = window_sum(prices, 0, n);
        let ghost p = ints(prices@);
        let ghost devs = scaled_sq_devs(p, n as int, s as int);
        proof {
            assert(p.subrange(0, n as int) =~= p);
            assert forall|j: int| 0 <= j < devs.len() implies 0 <= #[trigger] devs[j] by {
                let y = n * p[j] - s;
                assert(0 <= y * y) by (nonlinear_arith);
            }
            lemma_sum_zero(devs);
        }
        let nn: u128 = n as u128;
        let mut acc: u128 = 0;
        let mut i: usize = 0;
        while i < n
            invariant
                n == prices@.len(),
                nn == n,
                2 <= n <= usize::MAX,
                p == ints(prices@),
                devs == scaled_sq_devs(p, n as int, s as int),
                s == sum(p),
                0 <= sum(devs),
                forall|j: int| 0 <= j < devs.len() ==> 0 <= #[trigger] devs[j],
                i <= n,
                acc == sum(devs.take(i as int)),
            decreases n - i,
        {
            let x: u64 = prices[i];
            proof {
                assert((nn as int) * (x as int) <= u128::MAX) by (nonlinear_arith)
                    requires
                        nn <= u64::MAX,
                        x <= u64::MAX,
                ;
            }
            let scaled: u128 = nn * (x as u128);
            let d: u128 = if scaled >= s {
                scaled - s
            } else {
                s - scaled
            };
            proof {
                assert(p[i as int] == x as int);
                assert(devs[i as int] == d * d) by (nonlinear_arith)
                    requires
                        devs[i as int] == (n * p[i as int] - s) * (n * p[i as int] - s),
                        p[i as int] == x,
                        scaled == nn * x,
                        nn == n,
                        d == scaled - s || d == s - scaled,
                ;
                lemma_sum_take_next(devs, i as int);
                lemma_sum_prefix_le(devs, i + 1);
                lemma_sum_zero(devs.take(i as int));
            }
            match d.checked_mul(d) {
                None => {
                    return None;
                },
                Some(sq) => match acc.checked_add(sq) {
                    None => {
                        return None;
                    },
                    Some(a) => {
                        acc = a;
                    },
                },
            }
            i = i + 1;
        }
        proof {
            assert(devs.take(n as int) =~= devs);
        }
        proof {
            assert(nn * nn <= u128::MAX) by (nonlinear_arith)
                requires
                    nn <= u64::MAX,
            ;
        }
        let n2: u128 = nn * nn;
        match n2.checked_mul(nn - 1) {
            None => None,
            Some(den) => Some(Ratio { num: acc, den }),
        }
    }
}

} // verus!
