//! The tick store boundary.
//!
//! The store adapter answers `(symbol, start, end)` with the matching
//! ticks in ascending timestamp order. The query itself runs in the
//! store; this module states that contract as an executable filter over
//! an in-memory series, and holds the batch sink's flush policy.

use crate::service::sorted_by_time;
use crate::tick::{Tick, TickV};
use crate::time::TimeRange;
use vstd::prelude::*;

verus! {

/// Whether a stored tick answers a query for a symbol and range.
pub open spec fn row_matches(t: Tick, symbol: Seq<u8>, range: TimeRange) -> bool {
    t.symbol@ == symbol && range.contains_spec(t.exchange_timestamp)
}

/// The ticks of a series that answer a query, in series order.
pub open spec fn range_query_spec(ticks: Seq<Tick>, symbol: Seq<u8>, range: TimeRange) -> Seq<
    TickV,
>
    decreases ticks.len(),
{
    if ticks.len() == 0 {
        Seq::empty()
    } else {
        let rest = range_query_spec(ticks.drop_last(), symbol, range);
        if row_matches(ticks.last(), symbol, range) {
            rest.push(ticks.last()@)
        } else {
            rest
        }
    }
}

/// Answers a range query over an in-memory series: exactly the ticks of
/// the symbol whose exchange timestamp falls in the range, in series
/// order. A store that keeps its rows in ascending timestamp order
/// answers in ascending order too, as the adapter contract asks. An
/// empty answer is valid here; the service layer turns it into its
/// error.
pub fn query_range(ticks: &Vec<Tick>, symbol: &Vec<u8>, range: TimeRange) -> (out: Vec<Tick>)
    ensures
        Seq::new(out@.len(), |i: int| out@[i]@) == range_query_spec(ticks@, symbol@, range),
        sorted_by_time(ticks@) ==> sorted_by_time(out@),
{
    let mut out: Vec<Tick> = Vec::new();
    let mut i: usize = 0;
    while i < ticks.len()
        invariant
            i <= ticks.len(),
            Seq::new(out@.len(), |k: int| out@[k]@) == range_query_spec(
                ticks@.take(i as int),
                symbol@,
                range,
            ),
            sorted_by_time(ticks@) ==> sorted_by_time(out@),
            sorted_by_time(ticks@) ==> forall|k: int, m: int|
                0 <= k < out@.len() && i <= m < ticks@.len()
                    ==> (#[trigger] out@[k]).exchange_timestamp
                    <= (#[trigger] ticks@[m]).exchange_timestamp,
        decreases ticks.len() - i,
    {
        proof {
            assert(ticks@.take(i + 1 as int).drop_last() =~= ticks@.take(i as int));
            assert(ticks@.take(i + 1 as int).last() == ticks@[i as int]);
        }
        let t = &ticks[i];
        let same = crate::tick::bytes_equal(&t.symbol, symbol);
        if same && range.contains(t.exchange_timestamp) {
            out.push(t.duplicate());
            proof {
                assert(Seq::new(out@.len(), |k: int| out@[k]@) =~= range_query_spec(
                    ticks@.take(i + 1 as int),
                    symbol@,
                    range,
                ));
            }
        } else {
            proof {
                assert(!row_matches(ticks@[i as int], symbol@, range));
                assert(Seq::new(out@.len(), |k: int| out@[k]@) =~= range_query_spec(
                    ticks@.take(i + 1 as int),
                    symbol@,
                    range,
                ));
            }
        }
        i = i + 1;
    }
    proof {
        assert(ticks@.take(ticks@.len() as int) =~= ticks@);
    }
    out
}

/// How many buffered rows fill the sink's batch.
pub const FLUSH_BATCH_ROWS: usize = 100;

/// How long, in milliseconds, the sink lets a partial batch sit.
pub const FLUSH_INTERVAL_MILLIS: u64 = 5_000;

/// The batch sink's flush decision: flush when anything is buffered and
/// either the batch is full or the interval has passed.
pub fn should_flush(buffered: usize, elapsed_millis: u64) -> (r: bool)
    ensures
        r == (buffered > 0 && (buffered >= FLUSH_BATCH_ROWS || elapsed_millis
            >= FLUSH_INTERVAL_MILLIS)),
{
    buffered > 0 && (buffered >= FLUSH_BATCH_ROWS || elapsed_millis >= FLUSH_INTERVAL_MILLIS)
}

} // verus!
