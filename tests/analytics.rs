use bankr_analytics::{
    calculate_moving_average, calculate_rsi, AnalyticsEngine, AnalyticsError, Ratio, SignedRatio,
    Trend,
};

fn value(r: Ratio) -> f64 {
    r.num as f64 / r.den as f64
}

fn signed_value(r: SignedRatio) -> f64 {
    r.num as f64 / r.den as f64
}

fn engine_with(token: &str, prices: &[u64]) -> AnalyticsEngine {
    let mut e = AnalyticsEngine::new();
    for (i, p) in prices.iter().enumerate() {
        e.add_market_data(token, i as u64, *p, 10, 5);
    }
    e
}

#[test]
fn three_rising_prices_give_bullish_summary() {
    let e = engine_with("X", &[100, 110, 121]);
    let a = e.calculate_analytics("X").unwrap();
    assert_eq!(a.avg_price, Ratio { num: 331, den: 3 });
    assert!((value(a.avg_price) - 110.33).abs() < 0.01);
    assert_eq!(signed_value(a.price_change_24h), 21.0);
    assert_eq!(a.trend, Trend::Bullish);
    assert_eq!(a.trend.label(), "BULLISH");
    assert_eq!(a.volume_24h, 30);
}

#[test]
fn sample_variance_uses_n_minus_one() {
    let e = engine_with("X", &[100, 110, 121]);
    let a = e.calculate_analytics("X").unwrap();
    assert_eq!(a.variance, Ratio { num: 1986, den: 18 });
    assert!((value(a.variance) - 110.3333).abs() < 0.001);
}

#[test]
fn mean_lies_between_least_and_greatest_price() {
    let prices = [7u64, 3, 12, 9, 3];
    let e = engine_with("M", &prices);
    let a = e.calculate_analytics("M").unwrap();
    let mean = value(a.avg_price);
    assert!(mean >= 3.0 && mean <= 12.0);
}

#[test]
fn falling_and_flat_series_trends() {
    let e = engine_with("D", &[200, 150, 100]);
    let a = e.calculate_analytics("D").unwrap();
    assert_eq!(a.trend, Trend::Bearish);
    assert_eq!(a.trend.label(), "BEARISH");
    assert_eq!(signed_value(a.price_change_24h), -50.0);
    let f = engine_with("F", &[100, 300, 100]);
    let b = f.calculate_analytics("F").unwrap();
    assert_eq!(b.price_change_24h.num, 0);
    assert_eq!(b.trend, Trend::Neutral);
    assert_eq!(b.trend.label(), "NEUTRAL");
}

#[test]
fn constant_prices_have_zero_variance() {
    let e = engine_with("C", &[42, 42, 42, 42]);
    let a = e.calculate_analytics("C").unwrap();
    assert_eq!(a.variance.num, 0);
    let g = engine_with("G", &[42, 42, 43, 42]);
    assert!(g.calculate_analytics("G").unwrap().variance.num > 0);
}

#[test]
fn analytics_errors() {
    let e = engine_with("ONE", &[5]);
    assert_eq!(e.calculate_analytics("NONE"), Err(AnalyticsError::UnknownToken));
    assert_eq!(e.calculate_analytics("one"), Err(AnalyticsError::UnknownToken));
    assert_eq!(e.calculate_analytics("ONE"), Err(AnalyticsError::InsufficientData));
    let z = engine_with("Z", &[0, 5]);
    assert_eq!(z.calculate_analytics("Z"), Err(AnalyticsError::InvalidInput));
    let big = engine_with("B", &[1, u64::MAX]);
    assert_eq!(big.calculate_analytics("B"), Err(AnalyticsError::Overflow));
}

#[test]
fn series_keep_insertion_order() {
    let mut e = AnalyticsEngine::new();
    assert!(e.series("A").is_none());
    e.add_market_data("A", 9, 3, 1, 2);
    e.add_market_data("B", 1, 8, 1, 2);
    e.add_market_data("A", 4, 5, 6, 7);
    let a = e.series("A").unwrap();
    assert_eq!(a.len(), 2);
    assert_eq!(a[0].timestamp, 9);
    assert_eq!(a[1].price, 5);
    assert_eq!(a[1].liquidity, 7);
    assert_eq!(e.series("B").unwrap().len(), 1);
}

#[test]
fn moving_average_of_four_prices() {
    let r = calculate_moving_average(&[1, 2, 3, 4], 2);
    let values: Vec<f64> = r.iter().map(|x| value(*x)).collect();
    assert_eq!(values, vec![1.5, 2.5, 3.5]);
}

#[test]
fn moving_average_lengths() {
    let p = [4u64, 8, 6, 2, 10];
    for k in 1..=5usize {
        assert_eq!(calculate_moving_average(&p, k).len(), p.len() - k + 1);
    }
    let r = calculate_moving_average(&[4, 8], 3);
    assert_eq!(r, vec![Ratio { num: 4, den: 1 }, Ratio { num: 8, den: 1 }]);
    assert!(calculate_moving_average(&[], 1).is_empty());
}

#[test]
fn rsi_short_input_is_neutral() {
    let r = calculate_rsi(&[1, 2], 3);
    assert_eq!(r.len(), 2);
    for x in r {
        assert_eq!(value(x) * 100.0, 50.0);
    }
}

#[test]
fn rsi_values_and_length() {
    let r = calculate_rsi(&[1, 2, 3, 2, 4], 2);
    assert_eq!(r, vec![Ratio { num: 0, den: 1 }, Ratio { num: 1, den: 2 }]);
    let p = [10u64, 12, 11, 15, 14, 13, 18, 20];
    assert_eq!(calculate_rsi(&p, 3).len(), p.len() - 1 - 3);
    assert!(calculate_rsi(&p, 8).is_empty());
}

#[test]
fn rsi_window_with_losses() {
    // steps: +2, -1, +4, -1, -1, +5
    let r = calculate_rsi(&[10, 12, 11, 15, 14, 13, 18], 3);
    assert_eq!(r.len(), 3);
    assert_eq!(r[0], Ratio { num: 6, den: 7 });
    assert_eq!(r[1], Ratio { num: 4, den: 6 });
    assert_eq!(r[2], Ratio { num: 4, den: 6 });
}

#[test]
fn arbitrage_triggers_above_threshold() {
    let mut e = AnalyticsEngine::new();
    e.add_market_data("A", 1, 100, 0, 0);
    e.add_market_data("B", 1, 102, 0, 0);
    let o = e.detect_arbitrage_opportunities("A", "B", 100).unwrap();
    assert_eq!(o.token1, "A");
    assert_eq!(o.token2, "B");
    assert_eq!(o.price_difference, 2);
}

#[test]
fn arbitrage_stays_quiet_below_threshold() {
    // prices in tenths: 100.0 and 100.5
    let mut e = AnalyticsEngine::new();
    e.add_market_data("A", 1, 1000, 0, 0);
    e.add_market_data("B", 1, 1005, 0, 0);
    assert!(e.detect_arbitrage_opportunities("A", "B", 100).is_none());
}

#[test]
fn arbitrage_exact_threshold_and_missing_token() {
    let mut e = AnalyticsEngine::new();
    e.add_market_data("A", 1, 100, 0, 0);
    e.add_market_data("B", 1, 101, 0, 0);
    assert!(e.detect_arbitrage_opportunities("A", "B", 100).is_none());
    assert!(e.detect_arbitrage_opportunities("A", "Q", 100).is_none());
    e.add_market_data("A", 2, 90, 0, 0);
    assert_eq!(e.detect_arbitrage_opportunities("A", "B", 100).unwrap().price_difference, 11);
}

#[test]
fn liquidity_pool_totals() {
    let mut e = AnalyticsEngine::new();
    e.add_market_data("A", 1, 1, 5, 10);
    e.add_market_data("A", 2, 1, 5, 20);
    e.add_market_data("B", 1, 1, 7, 30);
    let l = e.analyze_liquidity_pool("A", "B").unwrap().unwrap();
    assert_eq!(l.total_liquidity, 60);
    assert_eq!(l.average_volume, Ratio { num: 17, den: 2 });
    assert_eq!(value(l.average_volume), 8.5);
    assert_eq!(l.efficiency_score, Ratio { num: 17, den: 120 });
}

#[test]
fn liquidity_pool_zero_and_missing() {
    let mut e = AnalyticsEngine::new();
    e.add_market_data("A", 1, 1, 5, 0);
    e.add_market_data("B", 1, 1, 7, 0);
    assert_eq!(e.analyze_liquidity_pool("A", "B"), Some(Err(AnalyticsError::InvalidInput)));
    assert_eq!(e.analyze_liquidity_pool("A", "C"), None);
    assert_eq!(e.analyze_liquidity_pool("C", "B"), None);
    e.add_market_data("B", 2, 1, 7, 1);
    assert!(e.analyze_liquidity_pool("A", "B").unwrap().is_ok());
}

#[test]
fn portfolio_gain() {
    let e = AnalyticsEngine::new();
    let m = e.calculate_portfolio_metrics(1000, 1100, 0).unwrap();
    assert_eq!(m.total_value, 1100);
    assert_eq!(signed_value(m.pnl_24h), 10.0);
    assert_eq!(signed_value(m.sharpe_ratio), 1.0);
    assert_eq!(m.max_drawdown.num, 0);
    assert_eq!(m.win_rate, 100);
}

#[test]
fn portfolio_zero_initial_value() {
    let e = AnalyticsEngine::new();
    assert_eq!(e.calculate_portfolio_metrics(0, 100, 0), Err(AnalyticsError::InvalidInput));
}

#[test]
fn portfolio_loss_with_risk_free_rate() {
    let e = AnalyticsEngine::new();
    // pnl = -20 %, rate = 2 %: (-20 - 2) / 20 = -1.1
    let m = e.calculate_portfolio_metrics(500, 400, 200).unwrap();
    assert_eq!(signed_value(m.pnl_24h), -20.0);
    assert!((signed_value(m.sharpe_ratio) + 1.1).abs() < 1e-12);
    assert_eq!(value(m.max_drawdown), 20.0);
    assert_eq!(m.win_rate, 0);
    let flat = e.calculate_portfolio_metrics(500, 500, 200).unwrap();
    assert_eq!(flat.sharpe_ratio.num, 0);
    assert_eq!(flat.win_rate, 0);
}

#[test]
fn yield_apy() {
    let e = AnalyticsEngine::new();
    let r = e.calculate_yield_farming_apy("0xpool", 1000, 1).unwrap();
    assert_eq!(value(r), 36.5);
    assert_eq!(e.calculate_yield_farming_apy("0xpool", 0, 1), Err(AnalyticsError::InvalidInput));
}
