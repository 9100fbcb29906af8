//! Verified time-series analytics over cryptocurrency trade ticks.
//!
//! The library turns an ordered series of price/quantity ticks into
//! volume-weighted average price, simple and exponential moving averages and
//! MACD series, distributes live ticks to subscribers, and encodes ticks for
//! transport. Prices and quantities are fixed-point integers; the unit scale
//! is the caller's choice and never enters the arithmetic.

pub mod arith;
pub mod codec;
pub mod ema;
pub mod errors;
pub mod hub;
pub mod macd;
pub mod service;
pub mod sma;
pub mod sources;
pub mod store;
pub mod subject;
pub mod tick;
pub mod time;
pub mod vwap;

use vstd::prelude::*;

verus! {

/// Kind of analytics a client can ask for.
#[derive(Debug, Clone, Copy, PartialEq, Eq, Structural)]
pub enum AnalyticsType {
    Vwap,
    Sma,
    Macd,
}

impl AnalyticsType {
    /// Display label of the analytics kind.
    pub fn as_str(&self) -> (s: &'static str)
        ensures
            *self is Vwap ==> s@ == "VWAP"@,
            *self is Sma ==> s@ == "SMA"@,
            *self is Macd ==> s@ == "MACD"@,
    {
        match self {
            AnalyticsType::Vwap => "VWAP",
            AnalyticsType::Sma => "SMA",
            AnalyticsType::Macd => "MACD",
        }
    }
}

} // verus!
