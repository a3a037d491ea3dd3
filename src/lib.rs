//! Market analytics over integer-valued price, volume and liquidity series.
//!
//! Every amount is an integer number of the caller's smallest unit, and every
//! derived figure is returned as an exact fraction, so no result depends on
//! rounding.

pub mod arith;
pub mod indicators;
pub mod series;
pub mod stats;
pub mod pairs;
pub mod portfolio;

pub use arith::{Ratio, SignedRatio};
pub use indicators::{calculate_moving_average, calculate_rsi};
pub use pairs::{LiquidityAnalysis, Opportunity};
pub use portfolio::PortfolioMetrics;
pub use series::{AnalyticsEngine, MarketData};
pub use stats::{AnalyticsError, AnalyticsResult, Field, Trend};
