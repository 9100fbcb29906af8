use trade_analytics::errors::AnalyticsError;
use trade_analytics::service::{AnalyticsService, PRICE_LIMIT};
use trade_analytics::tick::{Exchange, Tick};

fn tick(price: u64, quantity: u64, ts: u64) -> Tick {
    Tick::new(b"btcusdt".to_vec(), price, quantity, ts, None, Exchange::Binance)
}

#[test]
fn vwap_two_trades() {
    let ticks = vec![tick(100, 1, 10), tick(200, 1, 20)];
    let r = AnalyticsService::get_trade_analytics(&ticks).unwrap();
    assert_eq!(r.total_volume_in_quotes, 300);
    assert_eq!(r.vwap, 150);
    assert_eq!(r.trades_count, 2);
}

#[test]
fn vwap_empty_is_not_found() {
    let ticks: Vec<Tick> = Vec::new();
    assert_eq!(AnalyticsService::get_trade_analytics(&ticks), Err(AnalyticsError::NotFound));
}

#[test]
fn vwap_zero_quantity_is_internal() {
    let ticks = vec![tick(100, 0, 10)];
    assert_eq!(AnalyticsService::get_trade_analytics(&ticks), Err(AnalyticsError::Internal));
}

#[test]
fn vwap_volume_overflow_is_internal() {
    let ticks = vec![tick(u64::MAX, u64::MAX, 1), tick(u64::MAX, u64::MAX, 2)];
    assert_eq!(AnalyticsService::get_trade_analytics(&ticks), Err(AnalyticsError::Internal));
}

#[test]
fn vwap_rounds_down() {
    let ticks = vec![tick(100, 1, 1), tick(101, 2, 2)];
    let r = AnalyticsService::get_trade_analytics(&ticks).unwrap();
    assert_eq!(r.total_volume_in_quotes, 302);
    assert_eq!(r.vwap, 100);
    assert_eq!(r.trades_count, 2);
}

#[test]
fn sma_window_one_is_identity() {
    let ticks = vec![tick(5, 1, 10), tick(7, 1, 20), tick(9, 1, 30)];
    let pts = AnalyticsService::get_moving_average(&ticks, 1).unwrap();
    assert_eq!(pts.len(), 3);
    let values: Vec<u64> = pts.iter().map(|p| p.value).collect();
    assert_eq!(values, vec![5, 7, 9]);
    let times: Vec<u64> = pts.iter().map(|p| p.timestamp).collect();
    assert_eq!(times, vec![10, 20, 30]);
}

#[test]
fn sma_output_length_equals_input_length() {
    let ticks = vec![tick(1, 1, 1), tick(2, 1, 2), tick(3, 1, 3), tick(4, 1, 4), tick(5, 1, 5)];
    let pts = AnalyticsService::get_moving_average(&ticks, 20).unwrap();
    assert_eq!(pts.len(), 5);
}

#[test]
fn sma_partial_then_full_windows() {
    let ticks = vec![tick(10, 1, 1), tick(20, 1, 2), tick(30, 1, 3)];
    let pts = AnalyticsService::get_moving_average(&ticks, 2).unwrap();
    let values: Vec<u64> = pts.iter().map(|p| p.value).collect();
    assert_eq!(values, vec![10, 15, 25]);
}

#[test]
fn sma_mean_rounds_down() {
    let ticks = vec![tick(1, 1, 1), tick(2, 1, 2)];
    let pts = AnalyticsService::get_moving_average(&ticks, 2).unwrap();
    assert_eq!(pts[1].value, 1);
}

#[test]
fn sma_zero_window_is_invalid_argument() {
    let ticks = vec![tick(10, 1, 1)];
    assert_eq!(
        AnalyticsService::get_moving_average(&ticks, 0),
        Err(AnalyticsError::InvalidArgument)
    );
}

#[test]
fn sma_empty_is_not_found() {
    let ticks: Vec<Tick> = Vec::new();
    assert_eq!(AnalyticsService::get_moving_average(&ticks, 5), Err(AnalyticsError::NotFound));
    assert_eq!(AnalyticsService::get_moving_average(&ticks, 0), Err(AnalyticsError::NotFound));
}

#[test]
fn ema_seed_and_recurrence() {
    let ticks = vec![tick(10, 1, 1), tick(20, 1, 2), tick(30, 1, 3), tick(40, 1, 4)];
    let pts = AnalyticsService::get_ema(&ticks, 3).unwrap();
    assert_eq!(pts.len(), 2);
    assert_eq!(pts[0].value, 20);
    assert_eq!(pts[0].timestamp, 3);
    assert_eq!(pts[1].value, 30);
    assert_eq!(pts[1].timestamp, 4);
}

#[test]
fn ema_empty_is_not_found() {
    let ticks: Vec<Tick> = Vec::new();
    assert_eq!(AnalyticsService::get_ema(&ticks, 3), Err(AnalyticsError::NotFound));
    assert_eq!(AnalyticsService::get_ema(&ticks, 0), Err(AnalyticsError::NotFound));
}

#[test]
fn ema_too_few_ticks_is_insufficient_data() {
    let ticks = vec![tick(10, 1, 1), tick(20, 1, 2)];
    assert_eq!(AnalyticsService::get_ema(&ticks, 3), Err(AnalyticsError::InsufficientData));
}

#[test]
fn ema_zero_window_is_invalid_argument() {
    let ticks = vec![tick(10, 1, 1)];
    assert_eq!(AnalyticsService::get_ema(&ticks, 0), Err(AnalyticsError::InvalidArgument));
}

#[test]
fn ema_price_out_of_range_is_internal() {
    let ticks = vec![tick(PRICE_LIMIT + 1, 1, 1)];
    assert_eq!(AnalyticsService::get_ema(&ticks, 1), Err(AnalyticsError::Internal));
}

#[test]
fn macd_output_length_formula() {
    let mut ticks = Vec::new();
    for i in 0..40u64 {
        ticks.push(tick(100 + i, 1, i));
    }
    let pts = AnalyticsService::get_macd(&ticks, 12, 26, 9).unwrap();
    assert_eq!(pts.len(), 40 - (26 + 9 - 2));
}

#[test]
fn macd_at_boundary_is_insufficient_data() {
    let mut ticks = Vec::new();
    for i in 0..33u64 {
        ticks.push(tick(100 + i, 1, i));
    }
    assert_eq!(
        AnalyticsService::get_macd(&ticks, 12, 26, 9),
        Err(AnalyticsError::InsufficientData)
    );
}

#[test]
fn macd_fewer_than_slow_is_insufficient_data() {
    let mut ticks = Vec::new();
    for i in 0..20u64 {
        ticks.push(tick(100 + i, 1, i));
    }
    assert_eq!(
        AnalyticsService::get_macd(&ticks, 12, 26, 9),
        Err(AnalyticsError::InsufficientData)
    );
}

#[test]
fn macd_invalid_periods_are_invalid_argument() {
    let ticks = vec![tick(10, 1, 1)];
    assert_eq!(AnalyticsService::get_macd(&ticks, 0, 26, 9), Err(AnalyticsError::InvalidArgument));
    assert_eq!(AnalyticsService::get_macd(&ticks, 12, 26, 0), Err(AnalyticsError::InvalidArgument));
    assert_eq!(AnalyticsService::get_macd(&ticks, 26, 26, 9), Err(AnalyticsError::InvalidArgument));
    assert_eq!(AnalyticsService::get_macd(&ticks, 30, 26, 9), Err(AnalyticsError::InvalidArgument));
}

#[test]
fn macd_empty_is_not_found() {
    let ticks: Vec<Tick> = Vec::new();
    assert_eq!(AnalyticsService::get_macd(&ticks, 12, 26, 9), Err(AnalyticsError::NotFound));
}

#[test]
fn macd_small_series_exact_values() {
    let ticks = vec![tick(10, 1, 100), tick(20, 1, 200), tick(30, 1, 300)];
    let pts = AnalyticsService::get_macd(&ticks, 1, 2, 1).unwrap();
    assert_eq!(pts.len(), 2);
    assert_eq!(pts[0].timestamp, 200);
    assert_eq!(pts[0].macd_line, 5);
    assert_eq!(pts[0].signal_line, 5);
    assert_eq!(pts[0].histogram, 0);
    assert_eq!(pts[1].timestamp, 300);
    assert_eq!(pts[1].macd_line, 5);
    assert_eq!(pts[1].signal_line, 5);
    assert_eq!(pts[1].histogram, 0);
}

#[test]
fn macd_price_out_of_range_is_internal() {
    let mut ticks = Vec::new();
    for i in 0..40u64 {
        ticks.push(tick(100, 1, i));
    }
    ticks.push(tick(PRICE_LIMIT + 1, 1, 40));
    assert_eq!(AnalyticsService::get_macd(&ticks, 12, 26, 9), Err(AnalyticsError::Internal));
}
