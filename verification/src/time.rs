//! Time units and conversions.
//!
//! The canonical internal unit is the microsecond since the epoch.
//! Request bounds arrive as whole seconds, venue feeds report
//! milliseconds, and ingestion timestamps travel as second/nanosecond
//! pairs; every conversion normalizes explicitly and reports a value that
//! does not fit instead of wrapping.

use crate::tick::Tick;
use vstd::arithmetic::div_mod::{
    lemma_div_is_ordered, lemma_fundamental_div_mod, lemma_mod_division_less_than_divisor,
};
use vstd::arithmetic::mul::lemma_mul_inequality;
use vstd::prelude::*;

verus! {

/// Microseconds in one second.
pub const MICROS_PER_SECOND: u64 = 1_000_000;

/// Microseconds in one millisecond.
pub const MICROS_PER_MILLI: u64 = 1_000;

/// Nanoseconds in one second.
pub const NANOS_PER_SECOND: u64 = 1_000_000_000;

/// Span of the default dashboard query: the last five minutes, in
/// microseconds.
pub const DEFAULT_RANGE_MICROS: u64 = 300_000_000;

/// A query time range in microseconds, inclusive at both ends.
#[derive(Debug, Clone, Copy, PartialEq, Eq, Structural)]
pub struct TimeRange {
    pub start: u64,
    pub end: u64,
}

impl TimeRange {
    /// Whether a timestamp falls inside the range.
    pub open spec fn contains_spec(self, ts: u64) -> bool {
        self.start <= ts <= self.end
    }

    /// Runtime test of [`TimeRange::contains_spec`].
    pub fn contains(&self, ts: u64) -> (r: bool)
        ensures
            r == self.contains_spec(ts),
    {
        self.start <= ts && ts <= self.end
    }

    /// The default query range: the five minutes that end at the given
    /// moment, clipped at the epoch.
    pub fn ending_at(now_us: u64) -> (r: TimeRange)
        ensures
            r.end == now_us,
            now_us >= DEFAULT_RANGE_MICROS ==> r.start == now_us - DEFAULT_RANGE_MICROS,
            now_us < DEFAULT_RANGE_MICROS ==> r.start == 0,
            r.start <= r.end,
    {
        let start = if now_us >= DEFAULT_RANGE_MICROS {
            now_us - DEFAULT_RANGE_MICROS
        } else {
            0
        };
        TimeRange { start, end: now_us }
    }
}

/// A whole-second request bound as microseconds; nothing when the moment
/// does not fit the microsecond clock.
pub fn seconds_to_micros(s: u64) -> (r: Option<u64>)
    ensures
        s * MICROS_PER_SECOND <= u64::MAX ==> r == Some((s * MICROS_PER_SECOND) as u64),
        s * MICROS_PER_SECOND > u64::MAX ==> r is None,
{
    proof {
        lemma_fundamental_div_mod(u64::MAX as int, MICROS_PER_SECOND as int);
        lemma_mod_division_less_than_divisor(u64::MAX as int, MICROS_PER_SECOND as int);
        if s <= u64::MAX / MICROS_PER_SECOND {
            lemma_mul_inequality(
                s as int,
                (u64::MAX / MICROS_PER_SECOND) as int,
                MICROS_PER_SECOND as int,
            );
        } else {
            lemma_mul_inequality(
                (u64::MAX / MICROS_PER_SECOND) as int + 1,
                s as int,
                MICROS_PER_SECOND as int,
            );
        }
    }
    if s <= u64::MAX / MICROS_PER_SECOND {
        Some(s * MICROS_PER_SECOND)
    } else {
        None
    }
}

/// A venue's millisecond timestamp as microseconds; nothing when the
/// moment does not fit the microsecond clock.
pub fn millis_to_micros(ms: u64) -> (r: Option<u64>)
    ensures
        ms * MICROS_PER_MILLI <= u64::MAX ==> r == Some((ms * MICROS_PER_MILLI) as u64),
        ms * MICROS_PER_MILLI > u64::MAX ==> r is None,
{
    proof {
        lemma_fundamental_div_mod(u64::MAX as int, MICROS_PER_MILLI as int);
        lemma_mod_division_less_than_divisor(u64::MAX as int, MICROS_PER_MILLI as int);
        if ms <= u64::MAX / MICROS_PER_MILLI {
            lemma_mul_inequality(
                ms as int,
                (u64::MAX / MICROS_PER_MILLI) as int,
                MICROS_PER_MILLI as int,
            );
        } else {
            lemma_mul_inequality(
                (u64::MAX / MICROS_PER_MILLI) as int + 1,
                ms as int,
                MICROS_PER_MILLI as int,
            );
        }
    }
    if ms <= u64::MAX / MICROS_PER_MILLI {
        Some(ms * MICROS_PER_MILLI)
    } else {
        None
    }
}

/// The ingestion moment from its transport parts, as nanoseconds since
/// the epoch; nothing for a moment before the epoch or beyond the clock.
pub fn ingestion_nanos_from_parts(seconds: i64, nanos: u32) -> (r: Option<u64>)
    ensures
        seconds >= 0 && seconds * NANOS_PER_SECOND + nanos <= u64::MAX ==> r == Some(
            (seconds * NANOS_PER_SECOND + nanos) as u64,
        ),
        seconds < 0 || seconds * NANOS_PER_SECOND + nanos > u64::MAX ==> r is None,
{
    if seconds < 0 {
        return None;
    }
    let s = seconds as u64;
    let cap: u64 = (u64::MAX - (nanos as u64)) / NANOS_PER_SECOND;
    proof {
        lemma_fundamental_div_mod((u64::MAX - nanos) as int, NANOS_PER_SECOND as int);
        lemma_mod_division_less_than_divisor((u64::MAX - nanos) as int, NANOS_PER_SECOND as int);
        if s <= cap {
            lemma_mul_inequality(s as int, cap as int, NANOS_PER_SECOND as int);
        } else {
            lemma_mul_inequality(cap as int + 1, s as int, NANOS_PER_SECOND as int);
        }
    }
    if s <= cap {
        Some(s * NANOS_PER_SECOND + (nanos as u64))
    } else {
        None
    }
}

/// The transport parts of an ingestion moment: whole seconds and the
/// nanoseconds into the second.
pub fn ingestion_parts_from_nanos(ns: u64) -> (r: (i64, u32))
    ensures
        r.0 == ns / NANOS_PER_SECOND,
        r.1 == ns % NANOS_PER_SECOND,
{
    proof {
        lemma_div_is_ordered(ns as int, u64::MAX as int, NANOS_PER_SECOND as int);
        lemma_mod_division_less_than_divisor(ns as int, NANOS_PER_SECOND as int);
    }
    ((ns / NANOS_PER_SECOND) as i64, (ns % NANOS_PER_SECOND) as u32)
}

/// What the clock's formatter renders for a moment given as whole
/// seconds and nanoseconds into the second: year to millisecond, UTC,
/// fixed format.
pub uninterp spec fn timestamp_text(seconds: i64, nanoseconds: u32) -> Seq<char>;

/// Relies on chrono's `DateTime::<Utc>::from_timestamp` and `format` with
/// the fixed pattern `%Y-%m-%d %H:%M:%S.%3f`: UTC only and no locale, so
/// the text is a function of the two arguments alone. A moment outside
/// chrono's range, or an invalid nanosecond count, renders as the epoch,
/// which `unwrap_or_default` picks.
#[verifier::external_body]
fn render_timestamp(seconds: i64, nanoseconds: u32) -> (r: String)
    ensures
        r@ == timestamp_text(seconds, nanoseconds),
{
    let dt = chrono::DateTime::from_timestamp(seconds, nanoseconds).unwrap_or_default();
    dt.format("%Y-%m-%d %H:%M:%S.%3f").to_string()
}

/// A microsecond moment as display text: split into whole seconds and
/// nanoseconds, then rendered.
pub fn format_timestamp_us(us: u64) -> (r: String)
    ensures
        r@ == timestamp_text(
            (us / MICROS_PER_SECOND) as i64,
            ((us % MICROS_PER_SECOND) * 1000) as u32,
        ),
{
    proof {
        lemma_div_is_ordered(us as int, u64::MAX as int, MICROS_PER_SECOND as int);
        lemma_mod_division_less_than_divisor(us as int, MICROS_PER_SECOND as int);
    }
    let seconds = (us / MICROS_PER_SECOND) as i64;
    let nanoseconds = ((us % MICROS_PER_SECOND) * 1000) as u32;
    render_timestamp(seconds, nanoseconds)
}

impl Tick {
    /// The tick's exchange time as display text, for live trade rows.
    pub fn exchange_time_text(&self) -> (r: String)
        ensures
            r@ == timestamp_text(
                (self.exchange_timestamp / MICROS_PER_SECOND) as i64,
                ((self.exchange_timestamp % MICROS_PER_SECOND) * 1000) as u32,
            ),
    {
        format_timestamp_us(self.exchange_timestamp)
    }
}

} // verus!
