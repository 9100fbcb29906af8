use trade_analytics::errors::AnalyticsError;
use trade_analytics::service::{
    all_prices_in_range, extract_prices, extract_timestamps, is_sorted_by_time, AnalyticsService,
    PRICE_LIMIT,
};
use trade_analytics::sources::{BinanceSource, CoinbaseSource};
use trade_analytics::store::{query_range, should_flush};
use trade_analytics::subject::{ascii_lowercase, remove_dashes, subscribe_subject};
use trade_analytics::tick::{bytes_equal, clone_bytes, Exchange, Tick};
use trade_analytics::time::{
    format_timestamp_us, ingestion_nanos_from_parts, ingestion_parts_from_nanos, millis_to_micros,
    seconds_to_micros, TimeRange,
};
use trade_analytics::AnalyticsType;

fn make_tick(symbol: &[u8], price: u64, ts: u64) -> Tick {
    Tick::new(symbol.to_vec(), price, 1, ts, None, Exchange::Binance)
}

#[test]
fn analytics_type_labels() {
    assert_eq!(AnalyticsType::Vwap.as_str(), "VWAP");
    assert_eq!(AnalyticsType::Sma.as_str(), "SMA");
    assert_eq!(AnalyticsType::Macd.as_str(), "MACD");
}

#[test]
fn error_labels() {
    assert_eq!(AnalyticsError::NotFound.describe(), "not found");
    assert_eq!(AnalyticsError::InvalidArgument.describe(), "invalid argument");
    assert_eq!(AnalyticsError::InsufficientData.describe(), "insufficient data");
    assert_eq!(AnalyticsError::Internal.describe(), "internal error");
    assert_eq!(AnalyticsError::Decode.describe(), "decode error");
}

#[test]
fn exchange_codes() {
    assert_eq!(Exchange::Unknown.code(), 0);
    assert_eq!(Exchange::Binance.code(), 1);
    assert_eq!(Exchange::Coinbase.code(), 2);
    assert_eq!(Exchange::from_code(1), Exchange::Binance);
    assert_eq!(Exchange::from_code(2), Exchange::Coinbase);
    assert_eq!(Exchange::from_code(0), Exchange::Unknown);
    assert_eq!(Exchange::from_code(9), Exchange::Unknown);
    assert_eq!(Exchange::Binance.name_bytes(), b"binance".to_vec());
    assert_eq!(Exchange::Coinbase.name_bytes(), b"coinbase".to_vec());
    assert_eq!(Exchange::Unknown.name_bytes(), b"unknown".to_vec());
}

#[test]
fn second_and_milli_conversions() {
    assert_eq!(seconds_to_micros(0), Some(0));
    assert_eq!(seconds_to_micros(5), Some(5_000_000));
    assert_eq!(seconds_to_micros(u64::MAX), None);
    assert_eq!(millis_to_micros(1_234), Some(1_234_000));
    assert_eq!(millis_to_micros(u64::MAX), None);
}

#[test]
fn ingestion_timestamp_conversions() {
    assert_eq!(ingestion_nanos_from_parts(1, 5), Some(1_000_000_005));
    assert_eq!(ingestion_nanos_from_parts(0, 0), Some(0));
    assert_eq!(ingestion_nanos_from_parts(-1, 0), None);
    assert_eq!(ingestion_nanos_from_parts(i64::MAX, 0), None);
    assert_eq!(ingestion_parts_from_nanos(1_000_000_005), (1, 5));
    let (s, n) = ingestion_parts_from_nanos(1_700_000_000_123_456_789);
    assert_eq!(ingestion_nanos_from_parts(s, n), Some(1_700_000_000_123_456_789));
}

#[test]
fn default_query_range() {
    let r = TimeRange::ending_at(1_000_000_000);
    assert_eq!(r.end, 1_000_000_000);
    assert_eq!(r.start, 700_000_000);
    assert!(r.contains(700_000_000));
    assert!(r.contains(1_000_000_000));
    assert!(!r.contains(699_999_999));
    let clipped = TimeRange::ending_at(10);
    assert_eq!(clipped.start, 0);
}

#[test]
fn timestamp_rendering() {
    assert_eq!(format_timestamp_us(0), "1970-01-01 00:00:00.000");
    assert_eq!(format_timestamp_us(1_700_000_000_000_000), "2023-11-14 22:13:20.000");
    assert_eq!(format_timestamp_us(1_700_000_000_123_456), "2023-11-14 22:13:20.123");
    let t = make_tick(b"btcusdt", 1, 1_700_000_000_000_000);
    assert_eq!(t.exchange_time_text(), "2023-11-14 22:13:20.000");
}

#[test]
fn range_query_filters_symbol_and_time() {
    let ticks = vec![
        make_tick(b"btcusdt", 1, 100),
        make_tick(b"ethusdt", 2, 150),
        make_tick(b"btcusdt", 3, 200),
        make_tick(b"btcusdt", 4, 300),
    ];
    let range = TimeRange { start: 100, end: 250 };
    let got = query_range(&ticks, &b"btcusdt".to_vec(), range);
    let prices: Vec<u64> = got.iter().map(|t| t.price).collect();
    assert_eq!(prices, vec![1, 3]);
    let none = query_range(&ticks, &b"solusdt".to_vec(), range);
    assert!(none.is_empty());
}

#[test]
fn flush_policy() {
    assert!(!should_flush(0, 10_000));
    assert!(should_flush(100, 0));
    assert!(should_flush(150, 0));
    assert!(should_flush(1, 5_000));
    assert!(!should_flush(1, 4_999));
    assert!(!should_flush(99, 4_999));
}

#[test]
fn source_names_and_subjects() {
    let b = BinanceSource;
    assert_eq!(b.name(), "Binance");
    assert_eq!(b.exchange(), Exchange::Binance);
    assert_eq!(b.subject(&b"BTCUSDT".to_vec()), b"trades.binance.btcusdt".to_vec());
    let c = CoinbaseSource;
    assert_eq!(c.name(), "Coinbase");
    assert_eq!(c.exchange(), Exchange::Coinbase);
    assert_eq!(c.subject(&b"BTC-USD".to_vec()), b"trades.coinbase.btcusd".to_vec());
}

#[test]
fn subscription_pattern_and_symbol_normalization() {
    assert_eq!(subscribe_subject(&b"BTCUSDT".to_vec()), b"trades.*.btcusdt".to_vec());
    assert_eq!(ascii_lowercase(&b"BtC-Usd9".to_vec()), b"btc-usd9".to_vec());
    assert_eq!(remove_dashes(&b"btc-usd".to_vec()), b"btcusd".to_vec());
    assert_eq!(remove_dashes(&b"--".to_vec()), Vec::<u8>::new());
}

#[test]
fn query_validation() {
    assert_eq!(AnalyticsService::validate_query(&b"btcusdt".to_vec()), Ok(()));
    assert_eq!(AnalyticsService::validate_query(&b"BTC-USD".to_vec()), Ok(()));
    assert_eq!(
        AnalyticsService::validate_query(&Vec::new()),
        Err(AnalyticsError::InvalidArgument)
    );
    assert_eq!(
        AnalyticsService::validate_query(&b"btc usdt".to_vec()),
        Err(AnalyticsError::InvalidArgument)
    );
    assert_eq!(
        AnalyticsService::validate_query(&b"btc.usdt".to_vec()),
        Err(AnalyticsError::InvalidArgument)
    );
}

#[test]
fn series_validation_helpers() {
    let sorted = vec![make_tick(b"a", 1, 1), make_tick(b"a", 2, 1), make_tick(b"a", 3, 5)];
    assert!(is_sorted_by_time(&sorted));
    let unsorted = vec![make_tick(b"a", 1, 5), make_tick(b"a", 2, 1)];
    assert!(!is_sorted_by_time(&unsorted));
    assert!(is_sorted_by_time(&Vec::new()));
    assert!(all_prices_in_range(&sorted));
    assert!(!all_prices_in_range(&vec![make_tick(b"a", PRICE_LIMIT + 1, 1)]));
    assert_eq!(extract_prices(&sorted), vec![1, 2, 3]);
    assert_eq!(extract_timestamps(&sorted), vec![1, 1, 5]);
}

#[test]
fn byte_helpers_and_duplicate() {
    let a = b"abc".to_vec();
    assert_eq!(clone_bytes(&a), a);
    assert!(bytes_equal(&a, &b"abc".to_vec()));
    assert!(!bytes_equal(&a, &b"abd".to_vec()));
    assert!(!bytes_equal(&a, &b"ab".to_vec()));
    let t = make_tick(b"btcusdt", 5, 9);
    let d = t.duplicate();
    assert_eq!(d.symbol, t.symbol);
    assert_eq!(d.price, t.price);
    assert_eq!(d.exchange_timestamp, t.exchange_timestamp);
}
