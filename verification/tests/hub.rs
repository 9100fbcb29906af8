use trade_analytics::codec::encode_tick;
use trade_analytics::errors::AnalyticsError;
use trade_analytics::hub::TradeHub;
use trade_analytics::service::AnalyticsService;
use trade_analytics::subject::subject_matches;
use trade_analytics::tick::{Exchange, Tick};

fn sample_tick(price: u64) -> Tick {
    Tick::new(b"btcusdt".to_vec(), price, 1, 1_000, Some(2_000), Exchange::Binance)
}

#[test]
fn matching_publication_delivers_exactly_once() {
    let mut hub = TradeHub::new();
    let id = hub.subscribe(&b"btcusdt".to_vec(), 8).unwrap();
    let payload = encode_tick(&sample_tick(42));
    let delivered = hub.publish(&b"trades.binance.btcusdt".to_vec(), &payload).unwrap();
    assert_eq!(delivered, 1);
    let got = hub.next_tick(id).unwrap();
    assert_eq!(got.price, 42);
    assert_eq!(got.symbol, b"btcusdt".to_vec());
    assert!(hub.next_tick(id).is_none());
}

#[test]
fn cancellation_stops_deliveries() {
    let mut hub = TradeHub::new();
    let id = hub.subscribe(&b"btcusdt".to_vec(), 8).unwrap();
    assert!(hub.cancel(id));
    let payload = encode_tick(&sample_tick(7));
    let delivered = hub.publish(&b"trades.binance.btcusdt".to_vec(), &payload).unwrap();
    assert_eq!(delivered, 0);
    assert!(hub.next_tick(id).is_none());
    assert!(!hub.cancel(id));
}

#[test]
fn non_matching_subject_is_not_delivered() {
    let mut hub = TradeHub::new();
    let id = hub.subscribe(&b"ethusdt".to_vec(), 8).unwrap();
    let payload = encode_tick(&sample_tick(7));
    let delivered = hub.publish(&b"trades.binance.btcusdt".to_vec(), &payload).unwrap();
    assert_eq!(delivered, 0);
    assert!(hub.next_tick(id).is_none());
}

#[test]
fn malformed_payload_is_skipped_and_subscription_survives() {
    let mut hub = TradeHub::new();
    let id = hub.subscribe(&b"btcusdt".to_vec(), 8).unwrap();
    let garbage = vec![0xffu8, 0xff, 0xff];
    assert_eq!(
        hub.publish(&b"trades.binance.btcusdt".to_vec(), &garbage),
        Err(AnalyticsError::Decode)
    );
    assert!(hub.next_tick(id).is_none());
    let payload = encode_tick(&sample_tick(9));
    assert_eq!(hub.publish(&b"trades.binance.btcusdt".to_vec(), &payload), Ok(1));
    assert_eq!(hub.next_tick(id).unwrap().price, 9);
}

#[test]
fn full_queue_drops_oldest() {
    let mut hub = TradeHub::new();
    let id = hub.subscribe(&b"btcusdt".to_vec(), 2).unwrap();
    let subject = b"trades.binance.btcusdt".to_vec();
    for price in [1u64, 2, 3] {
        let payload = encode_tick(&sample_tick(price));
        hub.publish(&subject, &payload).unwrap();
    }
    assert_eq!(hub.next_tick(id).unwrap().price, 2);
    assert_eq!(hub.next_tick(id).unwrap().price, 3);
    assert!(hub.next_tick(id).is_none());
}

#[test]
fn deliveries_preserve_arrival_order() {
    let mut hub = TradeHub::new();
    let id = hub.subscribe(&b"btcusdt".to_vec(), 16).unwrap();
    let subject = b"trades.coinbase.btcusdt".to_vec();
    for price in [5u64, 6, 7] {
        let payload = encode_tick(&sample_tick(price));
        hub.publish(&subject, &payload).unwrap();
    }
    assert_eq!(hub.next_tick(id).unwrap().price, 5);
    assert_eq!(hub.next_tick(id).unwrap().price, 6);
    assert_eq!(hub.next_tick(id).unwrap().price, 7);
}

#[test]
fn subscription_symbol_is_case_insensitive() {
    let mut hub = TradeHub::new();
    let id = AnalyticsService::subscribe_to_trades(&mut hub, &b"BTCUSDT".to_vec()).unwrap();
    let payload = encode_tick(&sample_tick(11));
    assert_eq!(hub.publish(&b"trades.coinbase.btcusdt".to_vec(), &payload), Ok(1));
    assert_eq!(hub.next_tick(id).unwrap().price, 11);
}

#[test]
fn two_subscribers_each_get_the_tick() {
    let mut hub = TradeHub::new();
    let a = hub.subscribe(&b"btcusdt".to_vec(), 8).unwrap();
    let b = hub.subscribe(&b"btcusdt".to_vec(), 8).unwrap();
    assert_ne!(a, b);
    let payload = encode_tick(&sample_tick(3));
    assert_eq!(hub.publish(&b"trades.binance.btcusdt".to_vec(), &payload), Ok(2));
    assert_eq!(hub.next_tick(a).unwrap().price, 3);
    assert_eq!(hub.next_tick(b).unwrap().price, 3);
}

#[test]
fn malformed_symbol_is_invalid_argument() {
    let mut hub = TradeHub::new();
    assert_eq!(
        hub.subscribe(&b"btc.usdt".to_vec(), 8),
        Err(AnalyticsError::InvalidArgument)
    );
    assert_eq!(hub.subscribe(&Vec::new(), 8), Err(AnalyticsError::InvalidArgument));
    assert_eq!(
        AnalyticsService::subscribe_to_trades(&mut hub, &b"btc*".to_vec()),
        Err(AnalyticsError::InvalidArgument)
    );
    assert_eq!(hub.subscribe(&b"btcusdt".to_vec(), 0), Err(AnalyticsError::InvalidArgument));
}

#[test]
fn wildcard_subject_matching() {
    let sym = b"btcusdt".to_vec();
    assert!(subject_matches(&b"trades.binance.btcusdt".to_vec(), &sym));
    assert!(subject_matches(&b"trades.x.btcusdt".to_vec(), &sym));
    assert!(!subject_matches(&b"trades..btcusdt".to_vec(), &sym));
    assert!(!subject_matches(&b"trades.a.b.btcusdt".to_vec(), &sym));
    assert!(!subject_matches(&b"trades.binance.ethusdt".to_vec(), &sym));
    assert!(!subject_matches(&b"ticks.binance.btcusdt".to_vec(), &sym));
    assert!(!subject_matches(&b"trades.binance-btcusdt".to_vec(), &sym));
}
