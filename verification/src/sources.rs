//! Exchange feed sources: the pure side of the ingestion adapters.
//!
//! Each source knows its venue and the subject it publishes a symbol's
//! trades under. Connecting to the venue's feed, parsing its messages
//! into plain fields and publishing are the runtime shell's work; the
//! shell assembles ticks from those fields with [`crate::tick::Tick::new`]
//! and the conversions of [`crate::time`].

use crate::subject::{publish_subject, publish_subject_spec};
use crate::tick::Exchange;
use vstd::prelude::*;

verus! {

/// The Binance trade feed.
pub struct BinanceSource;

/// The Coinbase match feed.
pub struct CoinbaseSource;

impl BinanceSource {
    /// Venue name, as shown in logs.
    pub fn name(&self) -> (s: &'static str)
        ensures
            s@ == "Binance"@,
    {
        "Binance"
    }

    /// The venue this source stamps on its ticks.
    pub fn exchange(&self) -> (e: Exchange)
        ensures
            e == Exchange::Binance,
    {
        Exchange::Binance
    }

    /// The subject this source publishes a symbol's trades under.
    pub fn subject(&self, symbol: &Vec<u8>) -> (out: Vec<u8>)
        ensures
            out@ == publish_subject_spec(Exchange::Binance, symbol@),
    {
        publish_subject(&Exchange::Binance, symbol)
    }
}

impl CoinbaseSource {
    /// Venue name, as shown in logs.
    pub fn name(&self) -> (s: &'static str)
        ensures
            s@ == "Coinbase"@,
    {
        "Coinbase"
    }

    /// The venue this source stamps on its ticks.
    pub fn exchange(&self) -> (e: Exchange)
        ensures
            e == Exchange::Coinbase,
    {
        Exchange::Coinbase
    }

    /// The subject this source publishes a symbol's trades under; a
    /// dashed product name such as a currency pair flattens into one
    /// token.
    pub fn subject(&self, symbol: &Vec<u8>) -> (out: Vec<u8>)
        ensures
            out@ == publish_subject_spec(Exchange::Coinbase, symbol@),
    {
        publish_subject(&Exchange::Coinbase, symbol)
    }
}

} // verus!
