//! Performance figures of a portfolio from its value before and after.
use vstd::prelude::*;

use crate::arith::{Ratio, SignedRatio};
use crate::series::AnalyticsEngine;
use crate::stats::AnalyticsError;

verus! {

/// Performance of a portfolio between two valuations.
#[derive(Clone, Copy, Debug, PartialEq, Eq, Structural)]
pub struct PortfolioMetrics {
    /// The current value.
    pub total_value: u64,
    /// Percent gain or loss relative to the initial value.
    pub pnl_24h: SignedRatio,
    /// Excess return over the risk-free rate, divided by the magnitude of
    /// the return; zero when the return is zero.
    pub sharpe_ratio: SignedRatio,
    /// Percent lost relative to the initial value; zero without a loss.
    pub max_drawdown: Ratio,
    /// 100 when the portfolio gained, 0 otherwise.
    pub win_rate: u8,
}

pub open spec fn magnitude(x: int) -> int {
    if x >= 0 {
        x
    } else {
        -x
    }
}

/// The metrics of a move from `initial` to `current` with a risk-free rate of
/// `rf_bps` hundredths of a percent.  With `pnl = 100 * (c - i) / i` percent
/// and a rate of `rf_bps / 100` percent, `(pnl - rate) / |pnl|` reduces to
/// `(10000 * (c - i) - rf_bps * i) / (10000 * |c - i|)`.
pub open spec fn metrics_of(initial: int, current: int, rf_bps: int) -> PortfolioMetrics {
    let change = current - initial;
    PortfolioMetrics {
        total_value: current as u64,
        pnl_24h: SignedRatio { num: (100 * change) as i128, den: initial as u128 },
        sharpe_ratio: if change != 0 {
            SignedRatio {
                num: (10000 * change - rf_bps * initial) as i128,
                den: (10000 * magnitude(change)) as u128,
            }
        } else {
            SignedRatio { num: 0, den: 1 }
        },
        max_drawdown: if current < initial {
            Ratio { num: (100 * (initial - current)) as u128, den: initial as u128 }
        } else {
            Ratio { num: 0, den: 1 }
        },
        win_rate: if change > 0 {
            100
        } else {
            0
        },
    }
}

impl AnalyticsEngine {
    /// Profit and loss, simplified Sharpe ratio, drawdown and win rate of a
    /// move from `initial_value` to `current_value`; the risk-free rate is
    /// given in hundredths of a percent.
    pub fn calculate_portfolio_metrics(
        &self,
        initial_value: u64,
        current_value: u64,
        risk_free_bps: i32,
    ) -> (r: Result<PortfolioMetrics, AnalyticsError>)
        ensures
            initial_value == 0 ==> r == Err::<PortfolioMetrics, AnalyticsError>(
                AnalyticsError::InvalidInput,
            ),
            initial_value != 0 ==> r == Ok::<PortfolioMetrics, AnalyticsError>(
                metrics_of(initial_value as int, current_value as int, risk_free_bps as int),
            ),
    {
        if initial_value == 0 {
            return Err(AnalyticsError::InvalidInput);
        }
        let i: i128 = initial_value as i128;
        let c: i128 = current_value as i128;
        let change: i128 = c - i;
        proof {
            assert(-0x1_0000_0000_0000_0000_0000_0000 <= (risk_free_bps as int) * (i as int)
                <= 0x1_0000_0000_0000_0000_0000_0000) by (nonlinear_arith)
                requires
                    -0x8000_0000 <= risk_free_bps <= 0x7fff_ffff,
                    0 <= i <= 0xffff_ffff_ffff_ffff,
            ;
        }
        let sharpe: SignedRatio = if change != 0 {
            let size: u128 = if change >= 0 {
                change as u128
            } else {
                (-change) as u128
            };
            SignedRatio { num: 10000 * change - (risk_free_bps as i128) * i, den: 10000 * size }
        } else {
            SignedRatio { num: 0, den: 1 }
        };
        let drawdown: Ratio = if current_value < initial_value {
            Ratio {
                num: 100 * ((initial_value - current_value) as u128),
                den: initial_value as u128,
            }
        } else {
            Ratio { num: 0, den: 1 }
        };
        let win_rate: u8 = if change > 0 {
            100
        } else {
            0
        };
        Ok(
            PortfolioMetrics {
                total_value: current_value,
                pnl_24h: SignedRatio { num: 100 * change, den: initial_value as u128 },
                sharpe_ratio: sharpe,
                max_drawdown: drawdown,
                win_rate,
            },
        )
    }

    /// Yearly yield, in percent, of paying `rewards_per_day` on
    /// `total_staked`: `rewards_per_day / total_staked * 365 * 100`.
    pub fn calculate_yield_farming_apy(
        &self,
        pool_address: &str,
        total_staked: u64,
        rewards_per_day: u64,
    ) -> (r: Result<Ratio, AnalyticsError>)
        ensures
            total_staked == 0 ==> r == Err::<Ratio, AnalyticsError>(AnalyticsError::InvalidInput),
            total_staked != 0 ==> r == Ok::<Ratio, AnalyticsError>(
                Ratio { num: (36500 * rewards_per_day) as u128, den: total_staked as u128 },
            ),
    {
        if total_staked == 0 {
            return Err(AnalyticsError::InvalidInput);
        }
        Ok(Ratio { num: 36500 * (rewards_per_day as u128), den: total_staked as u128 })
    }
}

} // verus!
