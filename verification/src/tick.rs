//! The trade tick: one observed trade event.
//!
//! A tick carries fixed-point integer price and quantity (the unit scale is
//! chosen by the ingestion side and never enters the arithmetic), a
//! microsecond exchange timestamp, an optional nanosecond ingestion
//! timestamp, and the venue that produced it.

use vstd::prelude::*;

verus! {

/// Venue that produced a trade.
#[derive(Debug, Clone, Copy, PartialEq, Eq, Structural)]
pub enum Exchange {
    Unknown,
    Binance,
    Coinbase,
}

impl Exchange {
    /// Numeric code of the venue, as carried on the wire.
    pub open spec fn code_spec(self) -> u8 {
        match self {
            Exchange::Unknown => 0,
            Exchange::Binance => 1,
            Exchange::Coinbase => 2,
        }
    }

    /// Venue decoded from a numeric code; every unassigned code reads as
    /// `Unknown`.
    pub open spec fn from_code_spec(code: u8) -> Exchange {
        if code == 1 {
            Exchange::Binance
        } else if code == 2 {
            Exchange::Coinbase
        } else {
            Exchange::Unknown
        }
    }

    pub fn code(&self) -> (c: u8)
        ensures
            c == self.code_spec(),
    {
        match self {
            Exchange::Unknown => 0,
            Exchange::Binance => 1,
            Exchange::Coinbase => 2,
        }
    }

    pub fn from_code(code: u8) -> (e: Exchange)
        ensures
            e == Exchange::from_code_spec(code),
    {
        if code == 1 {
            Exchange::Binance
        } else if code == 2 {
            Exchange::Coinbase
        } else {
            Exchange::Unknown
        }
    }

    /// Lower-case venue name as ASCII bytes, as used in transport subjects.
    pub fn name_bytes(&self) -> (n: Vec<u8>)
        ensures
            n@ == self.name_bytes_spec(),
    {
        let mut n: Vec<u8> = Vec::new();
        match self {
            Exchange::Unknown => {
                n.push(117u8);
                n.push(110u8);
                n.push(107u8);
                n.push(110u8);
                n.push(111u8);
                n.push(119u8);
                n.push(110u8);
            },
            Exchange::Binance => {
                n.push(98u8);
                n.push(105u8);
                n.push(110u8);
                n.push(97u8);
                n.push(110u8);
                n.push(99u8);
                n.push(101u8);
            },
            Exchange::Coinbase => {
                n.push(99u8);
                n.push(111u8);
                n.push(105u8);
                n.push(110u8);
                n.push(98u8);
                n.push(97u8);
                n.push(115u8);
                n.push(101u8);
            },
        }
        proof {
            assert(n@ =~= self.name_bytes_spec());
        }
        n
    }

    /// The bytes of "unknown", "binance" or "coinbase".
    pub open spec fn name_bytes_spec(self) -> Seq<u8> {
        match self {
            Exchange::Unknown => seq![117u8, 110u8, 107u8, 110u8, 111u8, 119u8, 110u8],
            Exchange::Binance => seq![98u8, 105u8, 110u8, 97u8, 110u8, 99u8, 101u8],
            Exchange::Coinbase => seq![99u8, 111u8, 105u8, 110u8, 98u8, 97u8, 115u8, 101u8],
        }
    }
}

/// One observed trade event. Immutable once created.
#[derive(Debug)]
pub struct Tick {
    /// Ticker symbol, as ASCII bytes.
    pub symbol: Vec<u8>,
    /// Trade price in fixed-point units; non-negative by construction.
    pub price: u64,
    /// Trade quantity in fixed-point units; non-negative by construction.
    pub quantity: u64,
    /// Origin-assigned time, microseconds since the epoch.
    pub exchange_timestamp: u64,
    /// Time the collaborator ingested the trade, nanoseconds since the epoch.
    pub ingestion_timestamp: Option<u64>,
    /// Venue that produced the trade.
    pub exchange: Exchange,
}

/// Mathematical image of a [`Tick`].
#[verifier::ext_equal]
pub struct TickV {
    pub symbol: Seq<u8>,
    pub price: u64,
    pub quantity: u64,
    pub exchange_timestamp: u64,
    pub ingestion_timestamp: Option<u64>,
    pub exchange: Exchange,
}

impl View for Tick {
    type V = TickV;

    open spec fn view(&self) -> TickV {
        TickV {
            symbol: self.symbol@,
            price: self.price,
            quantity: self.quantity,
            exchange_timestamp: self.exchange_timestamp,
            ingestion_timestamp: self.ingestion_timestamp,
            exchange: self.exchange,
        }
    }
}

impl Tick {
    /// Builds a tick from the plain values an ingestion adapter extracted
    /// from a feed message.
    pub fn new(
        symbol: Vec<u8>,
        price: u64,
        quantity: u64,
        exchange_timestamp: u64,
        ingestion_timestamp: Option<u64>,
        exchange: Exchange,
    ) -> (t: Tick)
        ensures
            t@ == (TickV {
                symbol: symbol@,
                price,
                quantity,
                exchange_timestamp,
                ingestion_timestamp,
                exchange,
            }),
    {
        Tick { symbol, price, quantity, exchange_timestamp, ingestion_timestamp, exchange }
    }

    /// A copy of the tick, equal to it field for field.
    pub fn duplicate(&self) -> (t: Tick)
        ensures
            t@ == self@,
    {
        let symbol = clone_bytes(&self.symbol);
        Tick {
            symbol,
            price: self.price,
            quantity: self.quantity,
            exchange_timestamp: self.exchange_timestamp,
            ingestion_timestamp: self.ingestion_timestamp,
            exchange: self.exchange,
        }
    }
}

/// Whether two byte strings hold the same bytes.
pub fn bytes_equal(a: &Vec<u8>, b: &Vec<u8>) -> (r: bool)
    ensures
        r == (a@ == b@),
{
    if a.len() != b.len() {
        return false;
    }
    let mut i: usize = 0;
    while i < a.len()
        invariant
            a@.len() == b@.len(),
            i <= a@.len(),
            forall|x: int| 0 <= x < i ==> a@[x] == b@[x],
        decreases a@.len() - i,
    {
        if a[i] != b[i] {
            return false;
        }
        i = i + 1;
    }
    proof {
        assert(a@ =~= b@);
    }
    true
}

/// A copy of a byte vector, equal to it element for element.
pub fn clone_bytes(src: &Vec<u8>) -> (out: Vec<u8>)
    ensures
        out@ == src@,
{
    let mut out: Vec<u8> = Vec::new();
    let mut i: usize = 0;
    while i < src.len()
        invariant
            i <= src.len(),
            out@ == src@.take(i as int),
        decreases src.len() - i,
    {
        out.push(src[i]);
        proof {
            assert(out@ =~= src@.take(i + 1 as int));
        }
        i = i + 1;
    }
    proof {
        assert(out@ =~= src@);
    }
    out
}

} // verus!
