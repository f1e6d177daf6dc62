use stock_tracker::series::StockData;
use stock_tracker::strategy::MovingAverageStrategy;
use stock_tracker::strategy::TradeDecision;
use stock_tracker::strategy::TradingStrategy;

fn series_from_closes(closes: &[u64]) -> Vec<StockData> {
    let mut out = Vec::new();
    for (i, &c) in closes.iter().enumerate() {
        out.push(StockData {
            timestamp: i as i64,
            open: c,
            high: c,
            low: c,
            close: c,
            volume: 0,
        });
    }
    out
}

#[test]
fn decide_short_series_none() {
    let strat = MovingAverageStrategy::new(2, 3);
    let data = series_from_closes(&[10, 20]);
    assert_eq!(strat.decide(&data), None);
}

#[test]
fn decide_empty_series_none() {
    let strat = MovingAverageStrategy::new(10, 50);
    let data = series_from_closes(&[]);
    assert_eq!(strat.decide(&data), None);
}

#[test]
fn decide_buy_when_short_mean_above_long_mean() {
    let strat = MovingAverageStrategy::new(2, 3);
    // last-2 mean = 25, last-3 mean = 20
    let data = series_from_closes(&[10, 10, 40]);
    assert_eq!(strat.decide(&data), Some(TradeDecision::Buy));
}

#[test]
fn decide_sell_when_short_mean_below_long_mean() {
    let strat = MovingAverageStrategy::new(2, 3);
    // last-2 mean = 25, last-3 mean = 30
    let data = series_from_closes(&[40, 40, 10]);
    assert_eq!(strat.decide(&data), Some(TradeDecision::Sell));
}

#[test]
fn decide_hold_on_equal_means() {
    let strat = MovingAverageStrategy::new(2, 3);
    let data = series_from_closes(&[7, 7, 7]);
    assert_eq!(strat.decide(&data), Some(TradeDecision::Hold));
}

#[test]
fn decide_hold_when_windows_equal() {
    let strat = MovingAverageStrategy::new(1, 1);
    let data = series_from_closes(&[5]);
    assert_eq!(strat.decide(&data), Some(TradeDecision::Hold));
}

#[test]
fn decide_uses_only_trailing_windows() {
    let strat = MovingAverageStrategy::new(1, 2);
    // An old spike changes nothing: only the last 2 closes matter.
    let data = series_from_closes(&[1_000_000, 10, 30]);
    // last-1 mean = 30, last-2 mean = 20
    assert_eq!(strat.decide(&data), Some(TradeDecision::Buy));
}
