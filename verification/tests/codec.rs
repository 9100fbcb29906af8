use trade_analytics::codec::{
    decode_tick, encode_tick, encode_varint, frame_message, unframe_message,
};
use trade_analytics::errors::AnalyticsError;
use trade_analytics::tick::{Exchange, Tick};

fn assert_roundtrip(t: &Tick) {
    let bytes = encode_tick(t);
    let back = decode_tick(&bytes).unwrap();
    assert_eq!(back.symbol, t.symbol);
    assert_eq!(back.price, t.price);
    assert_eq!(back.quantity, t.quantity);
    assert_eq!(back.exchange_timestamp, t.exchange_timestamp);
    assert_eq!(back.ingestion_timestamp, t.ingestion_timestamp);
    assert_eq!(back.exchange, t.exchange);
}

#[test]
fn roundtrip_preserves_every_field() {
    let t = Tick::new(
        b"BTCUSDT".to_vec(),
        6_553_600_000_000,
        12_500_000,
        1_700_000_000_000_000,
        Some(1_700_000_000_123_456_789),
        Exchange::Coinbase,
    );
    assert_roundtrip(&t);
}

#[test]
fn roundtrip_without_ingestion_timestamp() {
    let t = Tick::new(b"ethusdt".to_vec(), 1, 2, 3, None, Exchange::Binance);
    assert_roundtrip(&t);
}

#[test]
fn roundtrip_empty_symbol_and_unknown_exchange() {
    let t = Tick::new(Vec::new(), 0, 0, 0, Some(0), Exchange::Unknown);
    assert_roundtrip(&t);
}

#[test]
fn roundtrip_extreme_values() {
    let t = Tick::new(
        b"x".to_vec(),
        u64::MAX,
        u64::MAX,
        u64::MAX,
        Some(u64::MAX),
        Exchange::Binance,
    );
    assert_roundtrip(&t);
}

#[test]
fn decode_empty_input_fails() {
    let bytes: Vec<u8> = Vec::new();
    assert!(matches!(decode_tick(&bytes), Err(AnalyticsError::Decode)));
}

#[test]
fn decode_truncated_input_fails() {
    let t = Tick::new(b"btcusdt".to_vec(), 100, 2, 30, Some(40), Exchange::Binance);
    let mut bytes = encode_tick(&t);
    while bytes.pop().is_some() {
        assert!(matches!(decode_tick(&bytes), Err(AnalyticsError::Decode)));
    }
}

#[test]
fn decode_trailing_bytes_fail() {
    let t = Tick::new(b"btcusdt".to_vec(), 100, 2, 30, None, Exchange::Binance);
    let mut bytes = encode_tick(&t);
    bytes.push(0);
    assert!(matches!(decode_tick(&bytes), Err(AnalyticsError::Decode)));
}

#[test]
fn decode_unassigned_exchange_code_fails() {
    let t = Tick::new(b"a".to_vec(), 1, 1, 1, None, Exchange::Unknown);
    let mut bytes = encode_tick(&t);
    let n = bytes.len();
    assert_eq!(bytes[n - 2], 0);
    bytes[n - 2] = 3;
    assert!(matches!(decode_tick(&bytes), Err(AnalyticsError::Decode)));
}

#[test]
fn decode_noncanonical_varint_fails() {
    let t = Tick::new(Vec::new(), 1, 1, 1, None, Exchange::Unknown);
    let bytes = encode_tick(&t);
    assert_eq!(bytes[0], 0);
    let mut padded: Vec<u8> = vec![0x80, 0x00];
    padded.extend_from_slice(&bytes[1..]);
    assert!(matches!(decode_tick(&padded), Err(AnalyticsError::Decode)));
}

#[test]
fn varint_encoding_shape() {
    let mut out: Vec<u8> = Vec::new();
    encode_varint(&mut out, 0);
    assert_eq!(out, vec![0x00]);
    out.clear();
    encode_varint(&mut out, 127);
    assert_eq!(out, vec![0x7f]);
    out.clear();
    encode_varint(&mut out, 300);
    assert_eq!(out, vec![0xac, 0x02]);
    out.clear();
    encode_varint(&mut out, u64::MAX);
    assert_eq!(out.len(), 10);
}

#[test]
fn frame_prefixes_flag_and_length() {
    let msg = vec![9u8, 8, 7];
    let framed = frame_message(&msg).unwrap();
    assert_eq!(framed, vec![0u8, 0, 0, 0, 3, 9, 8, 7]);
}

#[test]
fn unframe_strips_prefix() {
    let msg = vec![1u8, 2, 3, 4];
    let framed = frame_message(&msg).unwrap();
    assert_eq!(unframe_message(&framed).unwrap(), msg);
}

#[test]
fn unframe_short_body_fails() {
    let resp = vec![0u8, 0, 0, 0];
    assert_eq!(unframe_message(&resp), Err(AnalyticsError::Decode));
}
