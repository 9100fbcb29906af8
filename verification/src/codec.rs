//! Wire codec for ticks.
//!
//! A tick travels as one self-delimiting binary message: the symbol with a
//! length prefix, then price, quantity and exchange timestamp, the venue
//! code, and the optional ingestion timestamp behind a presence byte.
//! Unsigned numbers use the canonical base-128 varint form: seven value
//! bits per byte, least significant group first, the high bit marking
//! continuation, no redundant leading groups. The decoder accepts exactly
//! the encoder's output: any other input is a decode error.

use crate::errors::AnalyticsError;
use crate::tick::{Exchange, Tick, TickV};
use vstd::arithmetic::div_mod::{lemma_div_decreases, lemma_fundamental_div_mod};
use vstd::prelude::*;

verus! {

/// Canonical base-128 varint encoding of a number.
pub open spec fn varint_enc(v: nat) -> Seq<u8>
    decreases v,
{
    if v < 128 {
        seq![v as u8]
    } else {
        seq![(v % 128 + 128) as u8] + varint_enc(v / 128)
    }
}

/// The number and byte count a canonical varint at the front of `b`
/// denotes, or nothing when no `u64` is encoded there.
pub open spec fn varint_dec(b: Seq<u8>) -> Option<(u64, int)>
    decreases b.len(),
{
    if b.len() == 0 {
        None
    } else {
        let x = b[0];
        if x < 128 {
            Some(((x as u64), 1))
        } else {
            match varint_dec(b.skip(1)) {
                None => None,
                Some((hi, n)) => {
                    let v = (hi as int) * 128 + (x - 128);
                    if hi >= 1 && v <= u64::MAX {
                        Some(((v as u64), n + 1))
                    } else {
                        None
                    }
                },
            }
        }
    }
}

/// Law: decoding inverts encoding, whatever follows the varint.
pub proof fn lemma_varint_roundtrip(v: u64, rest: Seq<u8>)
    ensures
        varint_dec(varint_enc(v as nat) + rest) == Some((v, varint_enc(v as nat).len() as int)),
    decreases v,
{
    let enc = varint_enc(v as nat);
    if v < 128 {
        assert((enc + rest)[0] == v as u8);
        assert((enc + rest).len() >= 1);
    } else {
        let hi: u64 = v / 128;
        let low = v as int % 128;
        lemma_div_decreases(v as int, 128);
        lemma_varint_roundtrip(hi, rest);
        assert((enc + rest)[0] == (low + 128) as u8);
        assert((enc + rest).skip(1) =~= varint_enc(hi as nat) + rest);
        lemma_fundamental_div_mod(v as int, 128);
        assert((hi as int) * 128 + low == v);
        assert(hi >= 1);
    }
}

/// Appends the varint form of `v`.
pub fn encode_varint(out: &mut Vec<u8>, v: u64)
    ensures
        final(out)@ == old(out)@ + varint_enc(v as nat),
    decreases v,
{
    if v < 128 {
        out.push(v as u8);
        proof {
            assert(out@ =~= old(out)@ + varint_enc(v as nat));
        }
    } else {
        let low: u64 = v % 128;
        out.push((low + 128) as u8);
        proof {
            lemma_div_decreases(v as int, 128);
        }
        encode_varint(out, v / 128);
        proof {
            assert(out@ =~= old(out)@ + varint_enc(v as nat));
        }
    }
}

/// Reads the varint that starts at `pos`, returning its value and the
/// position just past it.
pub fn decode_varint(b: &Vec<u8>, pos: usize) -> (r: Option<(u64, usize)>)
    requires
        pos <= b.len(),
    ensures
        varint_dec(b@.skip(pos as int)) is None ==> r is None,
        r is None ==> varint_dec(b@.skip(pos as int)) is None,
        r matches Some((v, np)) ==> pos < np <= b.len() && varint_dec(b@.skip(pos as int))
            == Some((v, np - pos)),
    decreases b.len() - pos,
{
    if pos == b.len() {
        proof {
            assert(b@.skip(pos as int).len() == 0);
        }
        return None;
    }
    let x = b[pos];
    proof {
        assert(b@.skip(pos as int)[0] == x);
    }
    if x < 128 {
        Some((x as u64, pos + 1))
    } else {
        proof {
            assert(b@.skip(pos as int).skip(1) =~= b@.skip(pos as int + 1));
        }
        match decode_varint(b, pos + 1) {
            None => None,
            Some((hi, np)) => {
                let vtry: u128 = (hi as u128) * 128 + ((x - 128) as u128);
                if hi >= 1 && vtry <= u64::MAX as u128 {
                    Some((vtry as u64, np))
                } else {
                    None
                }
            },
        }
    }
}

/// Encoding of the optional ingestion timestamp: a presence byte, then
/// the value.
pub open spec fn opt_enc(o: Option<u64>) -> Seq<u8> {
    match o {
        None => seq![0u8],
        Some(v) => seq![1u8] + varint_enc(v as nat),
    }
}

/// The wire form of a tick.
pub open spec fn tick_enc(t: TickV) -> Seq<u8> {
    varint_enc(t.symbol.len()) + t.symbol + varint_enc(t.price as nat) + varint_enc(
        t.quantity as nat,
    ) + varint_enc(t.exchange_timestamp as nat) + seq![t.exchange.code_spec()] + opt_enc(
        t.ingestion_timestamp,
    )
}

/// The tick a byte string denotes, or nothing when it is not exactly the
/// wire form of one.
pub open spec fn tick_dec(b: Seq<u8>) -> Option<TickV> {
    match varint_dec(b) {
        None => None,
        Some((len, p1)) => {
            if b.len() - p1 < len {
                None
            } else {
                let symbol = b.subrange(p1, p1 + len);
                let b2 = b.skip(p1 + len);
                match varint_dec(b2) {
                    None => None,
                    Some((price, p2)) => {
                        let b3 = b2.skip(p2);
                        match varint_dec(b3) {
                            None => None,
                            Some((quantity, p3)) => {
                                let b4 = b3.skip(p3);
                                match varint_dec(b4) {
                                    None => None,
                                    Some((ts, p4)) => {
                                        let b5 = b4.skip(p4);
                                        tick_dec_tail(symbol, price, quantity, ts, b5)
                                    },
                                }
                            },
                        }
                    },
                }
            }
        },
    }
}

/// The venue and ingestion tail of the wire form, after the numeric
/// fields; `b5` starts at the venue code byte.
pub open spec fn tick_dec_tail(
    symbol: Seq<u8>,
    price: u64,
    quantity: u64,
    ts: u64,
    b5: Seq<u8>,
) -> Option<TickV> {
    if b5.len() < 2 {
        None
    } else if b5[0] > 2 {
        None
    } else {
        let exchange = Exchange::from_code_spec(b5[0]);
        if b5[1] == 0 {
            if b5.len() == 2 {
                Some(
                    TickV {
                        symbol,
                        price,
                        quantity,
                        exchange_timestamp: ts,
                        ingestion_timestamp: None,
                        exchange,
                    },
                )
            } else {
                None
            }
        } else if b5[1] == 1 {
            match varint_dec(b5.skip(2)) {
                None => None,
                Some((ing, p5)) => {
                    if b5.len() == 2 + p5 {
                        Some(
                            TickV {
                                symbol,
                                price,
                                quantity,
                                exchange_timestamp: ts,
                                ingestion_timestamp: Some(ing),
                                exchange,
                            },
                        )
                    } else {
                        None
                    }
                },
            }
        } else {
            None
        }
    }
}

/// Whether a tick value is representable on the wire: its symbol length
/// must fit the length prefix. Every tick held in a `Vec` satisfies this.
pub open spec fn wire_representable(t: TickV) -> bool {
    t.symbol.len() <= u64::MAX
}

/// Law: the venue-and-ingestion tail decodes back to its own encoding.
proof fn lemma_tail_roundtrip(t: TickV)
    ensures
        tick_dec_tail(
            t.symbol,
            t.price,
            t.quantity,
            t.exchange_timestamp,
            seq![t.exchange.code_spec()] + opt_enc(t.ingestion_timestamp),
        ) == Some(t),
{
    let b5 = seq![t.exchange.code_spec()] + opt_enc(t.ingestion_timestamp);
    assert(b5[0] == t.exchange.code_spec());
    assert(b5[0] <= 2);
    assert(Exchange::from_code_spec(t.exchange.code_spec()) == t.exchange);
    match t.ingestion_timestamp {
        None => {
            assert(b5.len() == 2);
            assert(b5[1] == 0);
        },
        Some(ing) => {
            assert(b5[1] == 1);
            lemma_varint_roundtrip(ing, Seq::empty());
            assert(b5.skip(2) =~= varint_enc(ing as nat) + Seq::empty());
            assert(b5.len() == 2 + varint_enc(ing as nat).len());
        },
    }
}

/// Law: decoding inverts encoding. Every field of the tick - symbol,
/// price, quantity, exchange timestamp, ingestion timestamp and venue -
/// comes back exactly.
#[verifier::rlimit(100)]
pub proof fn lemma_tick_roundtrip(t: TickV)
    requires
        wire_representable(t),
    ensures
        tick_dec(tick_enc(t)) == Some(t),
{
    let b = tick_enc(t);
    let e1 = varint_enc(t.symbol.len());
    let e2 = varint_enc(t.price as nat);
    let e3 = varint_enc(t.quantity as nat);
    let e4 = varint_enc(t.exchange_timestamp as nat);
    let code = seq![t.exchange.code_spec()];
    let tail = opt_enc(t.ingestion_timestamp);
    let r1 = t.symbol + e2 + e3 + e4 + code + tail;
    assert(b =~= e1 + r1);
    lemma_varint_roundtrip(t.symbol.len() as u64, r1);
    let p1 = e1.len() as int;
    assert(varint_dec(b) == Some((t.symbol.len() as u64, p1)));
    assert(b.len() - p1 >= t.symbol.len());
    assert(b.subrange(p1, p1 + t.symbol.len() as int) =~= t.symbol);
    let b2 = b.skip(p1 + t.symbol.len() as int);
    let r2 = e3 + e4 + code + tail;
    assert(b2 =~= e2 + r2);
    lemma_varint_roundtrip(t.price, r2);
    let p2 = e2.len() as int;
    let b3 = b2.skip(p2);
    let r3 = e4 + code + tail;
    assert(b3 =~= e3 + r3);
    lemma_varint_roundtrip(t.quantity, r3);
    let p3 = e3.len() as int;
    let b4 = b3.skip(p3);
    let r4 = code + tail;
    assert(b4 =~= e4 + r4);
    lemma_varint_roundtrip(t.exchange_timestamp, r4);
    let p4 = e4.len() as int;
    let b5 = b4.skip(p4);
    assert(b5 =~= code + tail);
    lemma_tail_roundtrip(t);
    assert(tick_dec(b) matches Some(tv) && tv.symbol =~= t.symbol);
}

/// The byte range `[lo, hi)` of `b`, as a fresh vector.
pub fn copy_range(b: &Vec<u8>, lo: usize, hi: usize) -> (out: Vec<u8>)
    requires
        lo <= hi <= b.len(),
    ensures
        out@ == b@.subrange(lo as int, hi as int),
{
    let mut out: Vec<u8> = Vec::new();
    let mut i: usize = lo;
    while i < hi
        invariant
            lo <= i <= hi <= b.len(),
            out@ == b@.subrange(lo as int, i as int),
        decreases hi - i,
    {
        out.push(b[i]);
        proof {
            assert(out@ =~= b@.subrange(lo as int, i + 1 as int));
        }
        i = i + 1;
    }
    out
}

/// A tick serialized for transport.
pub fn encode_tick(t: &Tick) -> (out: Vec<u8>)
    ensures
        out@ == tick_enc(t@),
{
    let mut out: Vec<u8> = Vec::new();
    encode_varint(&mut out, t.symbol.len() as u64);
    let mut sym = crate::tick::clone_bytes(&t.symbol);
    out.append(&mut sym);
    encode_varint(&mut out, t.price);
    encode_varint(&mut out, t.quantity);
    encode_varint(&mut out, t.exchange_timestamp);
    out.push(t.exchange.code());
    match t.ingestion_timestamp {
        None => {
            out.push(0);
        },
        Some(v) => {
            out.push(1);
            encode_varint(&mut out, v);
        },
    }
    proof {
        assert(out@ =~= tick_enc(t@));
    }
    out
}

/// A tick deserialized from transport bytes. Anything but the exact wire
/// form of a tick is a decode error.
pub fn decode_tick(b: &Vec<u8>) -> (r: Result<Tick, AnalyticsError>)
    ensures
        tick_dec(b@) is None ==> r == Err::<Tick, AnalyticsError>(AnalyticsError::Decode),
        tick_dec(b@) matches Some(tv) ==> (r matches Ok(t) && t@ == tv),
{
    proof {
        assert(b@.skip(0) =~= b@);
    }
    let s1 = decode_varint(b, 0);
    if s1.is_none() {
        return Err(AnalyticsError::Decode);
    }
    let (len, p1) = s1.unwrap();
    if len > ((b.len() - p1) as u64) {
        return Err(AnalyticsError::Decode);
    }
    let sym_len = len as usize;
    let symbol = copy_range(b, p1, p1 + sym_len);
    let p = p1 + sym_len;
    let s2 = decode_varint(b, p);
    proof {
        assert(b@.skip(p as int) == b@.skip(p1 + len as int));
    }
    if s2.is_none() {
        return Err(AnalyticsError::Decode);
    }
    let (price, p2) = s2.unwrap();
    proof {
        assert(b@.skip(p as int).skip(p2 - p) =~= b@.skip(p2 as int));
    }
    let s3 = decode_varint(b, p2);
    if s3.is_none() {
        return Err(AnalyticsError::Decode);
    }
    let (quantity, p3) = s3.unwrap();
    proof {
        assert(b@.skip(p2 as int).skip(p3 - p2) =~= b@.skip(p3 as int));
    }
    let s4 = decode_varint(b, p3);
    if s4.is_none() {
        return Err(AnalyticsError::Decode);
    }
    let (ts, p4) = s4.unwrap();
    proof {
        assert(b@.skip(p3 as int).skip(p4 - p3) =~= b@.skip(p4 as int));
    }
    let ghost b5 = b@.skip(p4 as int);
    if b.len() - p4 < 2 {
        return Err(AnalyticsError::Decode);
    }
    let code = b[p4];
    proof {
        assert(b5[0] == b@[p4 as int]);
        assert(b5[1] == b@[p4 + 1 as int]);
    }
    if code > 2 {
        return Err(AnalyticsError::Decode);
    }
    let exchange = Exchange::from_code(code);
    let flag = b[p4 + 1];
    if flag == 0 {
        if b.len() == p4 + 2 {
            return Ok(
                Tick {
                    symbol,
                    price,
                    quantity,
                    exchange_timestamp: ts,
                    ingestion_timestamp: None,
                    exchange,
                },
            );
        }
        return Err(AnalyticsError::Decode);
    }
    if flag != 1 {
        return Err(AnalyticsError::Decode);
    }
    proof {
        assert(b5.skip(2) =~= b@.skip(p4 + 2 as int));
    }
    let s5 = decode_varint(b, p4 + 2);
    if s5.is_none() {
        return Err(AnalyticsError::Decode);
    }
    let (ing, p6) = s5.unwrap();
    if p6 == b.len() {
        return Ok(
            Tick {
                symbol,
                price,
                quantity,
                exchange_timestamp: ts,
                ingestion_timestamp: Some(ing),
                exchange,
            },
        );
    }
    Err(AnalyticsError::Decode)
}

/// The four big-endian bytes of a message length.
pub open spec fn u32_be(v: u32) -> Seq<u8> {
    seq![
        (v / 0x1000000) as u8,
        ((v / 0x10000) % 256) as u8,
        ((v / 256) % 256) as u8,
        (v % 256) as u8,
    ]
}

/// Frames a message for a grpc-web call: a zero flag byte, the length in
/// four big-endian bytes, then the message itself. A message too long
/// for the length field is `Internal`.
pub fn frame_message(msg: &Vec<u8>) -> (r: Result<Vec<u8>, AnalyticsError>)
    ensures
        msg@.len() > u32::MAX ==> r == Err::<Vec<u8>, AnalyticsError>(AnalyticsError::Internal),
        msg@.len() <= u32::MAX ==> (r matches Ok(f) && f@ == seq![0u8] + u32_be(
            msg@.len() as u32,
        ) + msg@),
{
    if msg.len() > u32::MAX as usize {
        return Err(AnalyticsError::Internal);
    }
    let n = msg.len() as u32;
    let mut out: Vec<u8> = Vec::new();
    out.push(0);
    out.push((n / 0x1000000) as u8);
    out.push(((n / 0x10000) % 256) as u8);
    out.push(((n / 256) % 256) as u8);
    out.push((n % 256) as u8);
    let mut body = crate::tick::clone_bytes(msg);
    out.append(&mut body);
    proof {
        assert(out@ =~= seq![0u8] + u32_be(msg@.len() as u32) + msg@);
    }
    Ok(out)
}

/// Strips the five framing bytes off a grpc-web response body and hands
/// back the message. A body shorter than a frame is a decode error.
pub fn unframe_message(resp: &Vec<u8>) -> (r: Result<Vec<u8>, AnalyticsError>)
    ensures
        resp@.len() < 5 ==> r == Err::<Vec<u8>, AnalyticsError>(AnalyticsError::Decode),
        resp@.len() >= 5 ==> (r matches Ok(m) && m@ == resp@.skip(5)),
{
    if resp.len() < 5 {
        return Err(AnalyticsError::Decode);
    }
    let out = copy_range(resp, 5, resp.len());
    proof {
        assert(resp@.subrange(5, resp@.len() as int) =~= resp@.skip(5));
    }
    Ok(out)
}

/// Law: a byte string the decoder rejects is not the wire form of any
/// representable tick.
pub proof fn lemma_rejected_is_unencodable(b: Seq<u8>, t: TickV)
    requires
        tick_dec(b) is None,
        wire_representable(t),
    ensures
        tick_enc(t) != b,
{
    if tick_enc(t) == b {
        lemma_tick_roundtrip(t);
    }
}

} // verus!
