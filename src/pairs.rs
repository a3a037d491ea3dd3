//! Comparisons of two tokens' series: price divergence and pooled liquidity.
use vstd::prelude::*;

use crate::arith::Ratio;
use crate::series::{AnalyticsEngine, MarketData};
use crate::stats::{column_total, total, AnalyticsError, Field};

verus! {

/// The latest prices of two tokens differ by more than the threshold.
#[derive(Clone, Debug)]
pub struct Opportunity {
    pub token1: String,
    pub token2: String,
    /// Absolute difference of the two latest prices.
    pub price_difference: u64,
}

/// Liquidity and volume pooled over the whole history of two series.
#[derive(Clone, Copy, Debug, PartialEq, Eq, Structural)]
pub struct LiquidityAnalysis {
    /// Sum of the liquidity of every point of both series.
    pub total_liquidity: u128,
    /// Half the sum of the volume of every point of both series.
    pub average_volume: Ratio,
    /// `average_volume / total_liquidity`.
    pub efficiency_score: Ratio,
}

pub open spec fn abs_diff(a: int, b: int) -> int {
    if a >= b {
        a - b
    } else {
        b - a
    }
}

/// Price of the latest point of a series.
pub open spec fn last_price(pts: Seq<MarketData>) -> int {
    pts.last().price as int
}

/// The latest prices `a` and `b` differ by more than `bps` hundredths of a
/// percent of `a`.
pub open spec fn diverges(a: int, b: int, bps: int) -> bool {
    10000 * abs_diff(a, b) > a * bps
}

/// Both tokens have a series.
pub open spec fn both_known(e: Map<Seq<char>, Seq<MarketData>>, t1: Seq<char>, t2: Seq<char>) -> bool {
    e.contains_key(t1) && e.contains_key(t2)
}

/// Liquidity summed over both series.
pub open spec fn pooled(e: Map<Seq<char>, Seq<MarketData>>, t1: Seq<char>, t2: Seq<char>, f: Field) -> int {
    total(e[t1], f) + total(e[t2], f)
}

impl AnalyticsEngine {
    /// Compares the latest price of each token; reports an opportunity when
    /// they differ by strictly more than `threshold_bps` hundredths of a
    /// percent of the first token's price.
    pub fn detect_arbitrage_opportunities(&self, token1: &str, token2: &str, threshold_bps: u64) -> (r:
        Option<Opportunity>)
        requires
            self.wf(),
        ensures
            r is Some <==> both_known(self@, token1@, token2@) && self@[token1@].len() > 0
                && self@[token2@].len() > 0 && diverges(
                last_price(self@[token1@]),
                last_price(self@[token2@]),
                threshold_bps as int,
            ),
            r matches Some(o) ==> o.token1@ == token1@ && o.token2@ == token2@ && o.price_difference
                == abs_diff(last_price(self@[token1@]), last_price(self@[token2@])),
    {
        let a: &Vec<MarketData> = match self.series(token1) {
            None => {
                return None;
            },
            Some(v) => v,
        };
        let b: &Vec<MarketData> = match self.series(token2) {
            None => {
                return None;
            },
            Some(v) => v,
        };
        if a.len() == 0 || b.len() == 0 {
            return None;
        }
        let pa: u64 = a[a.len() - 1].price;
        let pb: u64 = b[b.len() - 1].price;
        let diff: u64 = if pa >= pb {
            pa - pb
        } else {
            pb - pa
        };
        proof {
            assert((pa as int) * (threshold_bps as int) <= u128::MAX) by (nonlinear_arith)
                requires
                    pa <= u64::MAX,
                    threshold_bps <= u64::MAX,
            ;
        }
        let threshold: u128 = (pa as u128) * (threshold_bps as u128);
        if 10000 * (diff as u128) > threshold {
            Some(
                Opportunity {
                    token1: token1.to_owned(),
                    token2: token2.to_owned(),
                    price_difference: diff,
                },
            )
        } else {
            None
        }
    }

    /// Pools liquidity and volume over the whole history of both series.
    /// `None` when either token has no series.
    pub fn analyze_liquidity_pool(&self, token1: &str, token2: &str) -> (r: Option<
        Result<LiquidityAnalysis, AnalyticsError>,
    >)
        requires
            self.wf(),
        ensures
            r is None <==> !both_known(self@, token1@, token2@),
            r == Some(Err::<LiquidityAnalysis, AnalyticsError>(AnalyticsError::InvalidInput)) <==> both_known(
                self@,
                token1@,
                token2@,
            ) && pooled(self@, token1@, token2@, Field::Liquidity) == 0,
            both_known(self@, token1@, token2@) ==> {
                let l = pooled(self@, token1@, token2@, Field::Liquidity);
                let v = pooled(self@, token1@, token2@, Field::Volume);
                &&& l != 0 && (v > u128::MAX || 2 * l > u128::MAX) ==> r == Some(
                    Err::<LiquidityAnalysis, AnalyticsError>(AnalyticsError::Overflow),
                )
                &&& l != 0 && v <= u128::MAX && 2 * l <= u128::MAX ==> r == Some(
                    Ok::<LiquidityAnalysis, AnalyticsError>(
                        LiquidityAnalysis {
                            total_liquidity: l as u128,
                            average_volume: Ratio { num: v as u128, den: 2 },
                            efficiency_score: Ratio { num: v as u128, den: (2 * l) as u128 },
                        },
                    ),
                )
            },
    {
        let a: &Vec<MarketData> = match self.series(token1) {
            None => {
                return None;
            },
            Some(v) => v,
        };
        let b: &Vec<MarketData> = match self.series(token2) {
            None => {
                return None;
            },
            Some(v) => v,
        };
        let la: u128 = column_total(a, Field::Liquidity);
        let lb: u128 = column_total(b, Field::Liquidity);
        if la == 0 && lb == 0 {
            return Some(Err(AnalyticsError::InvalidInput));
        }
        let va: u128 = column_total(a, Field::Volume);
        let vb: u128 = column_total(b, Field::Volume);
        let l: u128 = match la.checked_add(lb) {
            None => {
                return Some(Err(AnalyticsError::Overflow));
            },
            Some(x) => x,
        };
        let l2: u128 = match l.checked_mul(2) {
            None => {
                return Some(Err(AnalyticsError::Overflow));
            },
            Some(x) => x,
        };
        let v: u128 = match va.checked_add(vb) {
            None => {
                return Some(Err(AnalyticsError::Overflow));
            },
            Some(x) => x,
        };
        Some(
            Ok(
                LiquidityAnalysis {
                    total_liquidity: l,
                    average_volume: Ratio { num: v, den: 2 },
                    efficiency_score: Ratio { num: v, den: l2 },
                },
            ),
        )
    }
}

} // verus!
