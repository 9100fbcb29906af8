//! Live trade distribution: fan-out of published ticks to subscribers.
//!
//! The hub maps each published subject to the active subscriptions whose
//! symbol it matches and appends the decoded tick to their queues,
//! preserving arrival order within a subscription. A malformed payload is
//! reported and skipped; it never changes a queue and never ends a
//! subscription. Every queue is bounded; when one is full the oldest
//! undelivered tick is dropped in favour of the newest - the explicit
//! backpressure policy of this hub, chosen so that a slow subscriber can
//! never stall the publisher or grow memory without bound. Cancelling
//! removes the subscription and releases its queue at once.

use crate::codec::{decode_tick, tick_dec};
use crate::errors::AnalyticsError;
use crate::subject::{
    ascii_lowercase, is_valid_symbol, lower_bytes, subject_matches, subject_matches_spec,
    valid_symbol,
};
use crate::tick::{Tick, TickV};
use vstd::prelude::*;

verus! {

/// Default bound of a subscription's delivery queue.
pub const DEFAULT_QUEUE_CAPACITY: usize = 1024;

/// One live subscription.
pub struct Subscription {
    /// Identifier handed to the subscriber.
    pub id: u64,
    /// Lower-cased symbol the subscription follows.
    pub symbol: Vec<u8>,
    /// Undelivered ticks, oldest first.
    pub queue: Vec<Tick>,
    /// Bound of the queue.
    pub capacity: usize,
}

/// Mathematical image of a [`Subscription`].
#[verifier::ext_equal]
pub struct SubscriptionV {
    pub id: u64,
    pub symbol: Seq<u8>,
    pub queue: Seq<TickV>,
    pub capacity: nat,
}

impl View for Subscription {
    type V = SubscriptionV;

    open spec fn view(&self) -> SubscriptionV {
        SubscriptionV {
            id: self.id,
            symbol: self.symbol@,
            queue: Seq::new(self.queue@.len(), |i: int| self.queue@[i]@),
            capacity: self.capacity as nat,
        }
    }
}

/// The fan-out hub: every live subscription, and the next free
/// identifier.
pub struct TradeHub {
    pub subs: Vec<Subscription>,
    pub next_id: u64,
}

/// Mathematical image of a [`TradeHub`].
#[verifier::ext_equal]
pub struct TradeHubV {
    pub subs: Seq<SubscriptionV>,
    pub next_id: u64,
}

impl View for TradeHub {
    type V = TradeHubV;

    open spec fn view(&self) -> TradeHubV {
        TradeHubV {
            subs: Seq::new(self.subs@.len(), |i: int| self.subs@[i]@),
            next_id: self.next_id,
        }
    }
}

/// Well-formedness of the hub: identifiers are unique and below the next
/// free one, and every queue respects its positive bound.
pub open spec fn hub_wf(h: TradeHubV) -> bool {
    &&& forall|i: int, j: int|
        0 <= i < j < h.subs.len() ==> #[trigger] h.subs[i].id != #[trigger] h.subs[j].id
    &&& forall|i: int| 0 <= i < h.subs.len() ==> (#[trigger] h.subs[i]).id < h.next_id
    &&& forall|i: int|
        0 <= i < h.subs.len() ==> (#[trigger] h.subs[i]).queue.len() <= h.subs[i].capacity
    &&& forall|i: int| 0 <= i < h.subs.len() ==> (#[trigger] h.subs[i]).capacity >= 1
}

/// A queue after a tick arrives: the tick joins at the back, and when the
/// queue is full the oldest entry leaves - the drop-oldest policy.
pub open spec fn enqueue_bounded(q: Seq<TickV>, t: TickV, cap: nat) -> Seq<TickV> {
    if q.len() < cap {
        q.push(t)
    } else {
        q.skip(1).push(t)
    }
}

/// One subscription after a publication: it receives the tick exactly
/// when the subject matches its symbol.
pub open spec fn deliver_spec(s: SubscriptionV, subject: Seq<u8>, t: TickV) -> SubscriptionV {
    if subject_matches_spec(subject, s.symbol) {
        SubscriptionV {
            id: s.id,
            symbol: s.symbol,
            queue: enqueue_bounded(s.queue, t, s.capacity),
            capacity: s.capacity,
        }
    } else {
        s
    }
}

/// The hub after a publication: an undecodable payload changes nothing;
/// a tick is delivered to every matching subscription.
pub open spec fn publish_spec(h: TradeHubV, subject: Seq<u8>, payload: Seq<u8>) -> TradeHubV {
    match tick_dec(payload) {
        None => h,
        Some(t) => TradeHubV {
            subs: Seq::new(h.subs.len(), |i: int| deliver_spec(h.subs[i], subject, t)),
            next_id: h.next_id,
        },
    }
}

/// A subscription after its oldest queued tick was handed out.
pub open spec fn popped_spec(s: SubscriptionV) -> SubscriptionV {
    SubscriptionV { id: s.id, symbol: s.symbol, queue: s.queue.skip(1), capacity: s.capacity }
}

/// How many subscriptions a subject reaches.
pub open spec fn matching_count(subs: Seq<SubscriptionV>, subject: Seq<u8>) -> int
    decreases subs.len(),
{
    if subs.len() == 0 {
        0
    } else {
        matching_count(subs.drop_last(), subject) + if subject_matches_spec(
            subject,
            subs.last().symbol,
        ) {
            1int
        } else {
            0int
        }
    }
}

/// The count never exceeds the number of subscriptions.
pub proof fn lemma_matching_count_bound(subs: Seq<SubscriptionV>, subject: Seq<u8>)
    ensures
        0 <= matching_count(subs, subject) <= subs.len(),
    decreases subs.len(),
{
    if subs.len() > 0 {
        lemma_matching_count_bound(subs.drop_last(), subject);
    }
}

/// Law: a publication whose subject matches a subscription's symbol, and
/// whose payload decodes, delivers exactly one message to it: the decoded
/// tick joins the back of its queue, and nothing else changes in it.
/// With room in the queue nothing is lost either; at the bound the oldest
/// undelivered tick makes way.
pub proof fn lemma_matching_publish_delivers_once(
    h: TradeHubV,
    i: int,
    subject: Seq<u8>,
    payload: Seq<u8>,
    t: TickV,
)
    requires
        hub_wf(h),
        0 <= i < h.subs.len(),
        subject_matches_spec(subject, h.subs[i].symbol),
        tick_dec(payload) == Some(t),
    ensures
        publish_spec(h, subject, payload).subs[i].queue.last() == t,
        h.subs[i].queue.len() < h.subs[i].capacity ==> publish_spec(
            h,
            subject,
            payload,
        ).subs[i].queue == h.subs[i].queue.push(t),
        h.subs[i].queue.len() >= h.subs[i].capacity ==> publish_spec(
            h,
            subject,
            payload,
        ).subs[i].queue == h.subs[i].queue.skip(1).push(t),
        publish_spec(h, subject, payload).subs[i].id == h.subs[i].id,
        publish_spec(h, subject, payload).subs[i].symbol == h.subs[i].symbol,
{
    assert(publish_spec(h, subject, payload).subs[i] == deliver_spec(h.subs[i], subject, t));
}

/// Law: a publication leaves every subscription whose symbol the subject
/// does not match untouched.
pub proof fn lemma_publish_skips_others(
    h: TradeHubV,
    i: int,
    subject: Seq<u8>,
    payload: Seq<u8>,
)
    requires
        hub_wf(h),
        0 <= i < h.subs.len(),
        !subject_matches_spec(subject, h.subs[i].symbol),
    ensures
        publish_spec(h, subject, payload).subs[i] == h.subs[i],
{
    match tick_dec(payload) {
        None => {},
        Some(t) => {
            assert(publish_spec(h, subject, payload).subs[i] == deliver_spec(
                h.subs[i],
                subject,
                t,
            ));
        },
    }
}

/// Law: after a subscription is cancelled, later publications deliver
/// nothing under its identifier, whatever their subject and payload: the
/// hub holds no queue for that identifier at all.
pub proof fn lemma_cancelled_receives_nothing(
    h: TradeHubV,
    i: int,
    subject: Seq<u8>,
    payload: Seq<u8>,
)
    requires
        hub_wf(h),
        0 <= i < h.subs.len(),
    ensures
        forall|j: int|
            0 <= j < publish_spec(
                (TradeHubV { subs: h.subs.remove(i), next_id: h.next_id }),
                subject,
                payload,
            ).subs.len() ==> (#[trigger] publish_spec(
                (TradeHubV { subs: h.subs.remove(i), next_id: h.next_id }),
                subject,
                payload,
            ).subs[j]).id != h.subs[i].id,
{
    let h2 = TradeHubV { subs: h.subs.remove(i), next_id: h.next_id };
    let after = publish_spec(h2, subject, payload);
    assert forall|j: int| 0 <= j < after.subs.len() implies (#[trigger] after.subs[j]).id
        != h.subs[i].id by {
        if j < i {
            assert(h2.subs[j] == h.subs[j]);
            assert(h.subs[j].id != h.subs[i].id);
        } else {
            assert(h2.subs[j] == h.subs[j + 1]);
            assert(h.subs[i].id != h.subs[j + 1].id);
        }
        match tick_dec(payload) {
            None => {},
            Some(t) => {
                assert(after.subs[j] == deliver_spec(h2.subs[j], subject, t));
            },
        }
    }
}

impl TradeHub {
    /// A hub with no subscriptions.
    pub fn new() -> (h: TradeHub)
        ensures
            h@.subs.len() == 0,
            h@.next_id == 0,
            hub_wf(h@),
    {
        TradeHub { subs: Vec::new(), next_id: 0 }
    }

    /// Opens a subscription for one symbol across every exchange and
    /// returns its identifier. A malformed symbol or a zero capacity is
    /// `InvalidArgument`; an exhausted identifier space is `Internal`;
    /// in both cases the hub is unchanged.
    pub fn subscribe(&mut self, symbol: &Vec<u8>, capacity: usize) -> (r: Result<
        u64,
        AnalyticsError,
    >)
        requires
            hub_wf(old(self)@),
        ensures
            hub_wf(final(self)@),
            !valid_symbol(symbol@) || capacity == 0 ==> r == Err::<u64, AnalyticsError>(
                AnalyticsError::InvalidArgument,
            ) && final(self)@ == old(self)@,
            valid_symbol(symbol@) && capacity >= 1 && old(self)@.next_id == u64::MAX ==> r
                == Err::<u64, AnalyticsError>(AnalyticsError::Internal) && final(self)@ == old(
                self,
            )@,
            valid_symbol(symbol@) && capacity >= 1 && old(self)@.next_id < u64::MAX ==> (r
                == Ok::<u64, AnalyticsError>(old(self)@.next_id) && final(self)@.next_id == old(
                self,
            )@.next_id + 1 && final(self)@.subs == old(self)@.subs.push(
                (SubscriptionV {
                    id: old(self)@.next_id,
                    symbol: lower_bytes(symbol@),
                    queue: Seq::empty(),
                    capacity: capacity as nat,
                }),
            )),
    {
        if !is_valid_symbol(symbol) || capacity == 0 {
            return Err(AnalyticsError::InvalidArgument);
        }
        if self.next_id == u64::MAX {
            return Err(AnalyticsError::Internal);
        }
        let id = self.next_id;
        let low = ascii_lowercase(symbol);
        self.subs.push(Subscription { id, symbol: low, queue: Vec::new(), capacity });
        self.next_id = id + 1;
        proof {
            assert(self@.subs =~~= old(self)@.subs.push(
                (SubscriptionV {
                    id,
                    symbol: lower_bytes(symbol@),
                    queue: Seq::empty(),
                    capacity: capacity as nat,
                }),
            ));
            assert forall|i: int| 0 <= i < self@.subs.len() implies (#[trigger] self@.subs[i]).id
                < self@.next_id by {
                if i < old(self)@.subs.len() {
                    assert(old(self)@.subs[i].id < old(self)@.next_id);
                }
            }
        }
        Ok(id)
    }

    /// Ends the subscription with the given identifier, dropping its
    /// queue at once, and reports whether one existed.
    pub fn cancel(&mut self, id: u64) -> (found: bool)
        requires
            hub_wf(old(self)@),
        ensures
            hub_wf(final(self)@),
            final(self)@.next_id == old(self)@.next_id,
            found == exists|i: int|
                0 <= i < old(self)@.subs.len() && (#[trigger] old(self)@.subs[i]).id == id,
            found ==> (exists|i: int|
                0 <= i < old(self)@.subs.len() && (#[trigger] old(self)@.subs[i]).id == id
                    && final(self)@.subs == old(self)@.subs.remove(i)),
            !found ==> final(self)@ == old(self)@,
            forall|j: int|
                0 <= j < final(self)@.subs.len() ==> (#[trigger] final(self)@.subs[j]).id != id,
    {
        let mut i: usize = 0;
        while i < self.subs.len()
            invariant
                hub_wf(self@),
                self@ == old(self)@,
                i <= self@.subs.len(),
                forall|x: int| 0 <= x < i ==> (#[trigger] self@.subs[x]).id != id,
            decreases self@.subs.len() - i,
        {
            if self.subs[i].id == id {
                proof {
                    assert((i as int) < old(self)@.subs.len() && old(self)@.subs[i as int].id
                        == id);
                }
                self.subs.remove(i);
                proof {
                    assert(self@.subs =~~= old(self)@.subs.remove(i as int));
                    assert forall|j: int| 0 <= j < self@.subs.len() implies (
                    #[trigger] self@.subs[j]).id != id by {
                        if j < i {
                            assert(old(self)@.subs[j].id != id);
                        } else {
                            assert(self@.subs[j] == old(self)@.subs[j + 1]);
                            assert(old(self)@.subs[i as int].id != old(self)@.subs[j + 1].id);
                        }
                    }
                }
                return true;
            }
            i = i + 1;
        }
        false
    }

    /// Fans one published message out to every matching subscription.
    ///
    /// An undecodable payload is `Decode` and changes nothing - the
    /// subscription survives. Otherwise the answer counts the
    /// subscriptions reached.
    pub fn publish(&mut self, subject: &Vec<u8>, payload: &Vec<u8>) -> (r: Result<
        usize,
        AnalyticsError,
    >)
        requires
            hub_wf(old(self)@),
        ensures
            hub_wf(final(self)@),
            final(self)@ == publish_spec(old(self)@, subject@, payload@),
            tick_dec(payload@) is None ==> r == Err::<usize, AnalyticsError>(
                AnalyticsError::Decode,
            ),
            tick_dec(payload@) is Some ==> r == Ok::<usize, AnalyticsError>(
                matching_count(old(self)@.subs, subject@) as usize,
            ),
    {
        let decoded = match decode_tick(payload) {
            Ok(t) => t,
            Err(_) => {
                return Err(AnalyticsError::Decode);
            },
        };
        let ghost t = decoded@;
        let mut delivered: usize = 0;
        let mut i: usize = 0;
        while i < self.subs.len()
            invariant
                hub_wf(old(self)@),
                self@.next_id == old(self)@.next_id,
                self@.subs.len() == old(self)@.subs.len(),
                i <= self@.subs.len(),
                decoded@ == t,
                forall|x: int|
                    0 <= x < i ==> self@.subs[x] == deliver_spec(
                        #[trigger] old(self)@.subs[x],
                        subject@,
                        t,
                    ),
                forall|x: int| i <= x < self@.subs.len() ==> self@.subs[x] == old(self)@.subs[x],
                delivered == matching_count(old(self)@.subs.take(i as int), subject@),
            decreases self@.subs.len() - i,
        {
            proof {
                lemma_matching_count_bound(old(self)@.subs.take(i as int), subject@);
                assert(old(self)@.subs.take(i + 1 as int).drop_last() =~= old(self)@.subs.take(
                    i as int,
                ));
            }
            if subject_matches(subject, &self.subs[i].symbol) {
                let cap = self.subs[i].capacity;
                proof {
                    assert(self@.subs[i as int] == old(self)@.subs[i as int]);
                    assert(old(self)@.subs[i as int].capacity >= 1);
                }
                if self.subs[i].queue.len() >= cap {
                    self.subs[i].queue.remove(0);
                    proof {
                        assert(self@.subs[i as int].queue =~= old(self)@.subs[i as int].queue.skip(
                            1,
                        ));
                    }
                }
                self.subs[i].queue.push(decoded.duplicate());
                delivered = delivered + 1;
                proof {
                    assert(self@.subs[i as int].queue =~= enqueue_bounded(
                        old(self)@.subs[i as int].queue,
                        t,
                        old(self)@.subs[i as int].capacity,
                    ));
                    assert(self@.subs[i as int] == deliver_spec(
                        old(self)@.subs[i as int],
                        subject@,
                        t,
                    ));
                }
            }
            i = i + 1;
        }
        proof {
            assert(old(self)@.subs.take(self@.subs.len() as int) =~= old(self)@.subs);
            assert(self@.subs =~= publish_spec(old(self)@, subject@, payload@).subs);
        }
        Ok(delivered)
    }

    /// Hands out the oldest undelivered tick of a subscription, in
    /// arrival order; nothing when the queue is empty or the identifier
    /// is unknown.
    pub fn next_tick(&mut self, id: u64) -> (r: Option<Tick>)
        requires
            hub_wf(old(self)@),
        ensures
            hub_wf(final(self)@),
            final(self)@.next_id == old(self)@.next_id,
            final(self)@.subs.len() == old(self)@.subs.len(),
            (forall|i: int|
                0 <= i < old(self)@.subs.len() ==> (#[trigger] old(self)@.subs[i]).id != id) ==> (
            final(self)@ == old(self)@ && r is None),
            forall|i: int|
                (0 <= i < old(self)@.subs.len() && (#[trigger] old(self)@.subs[i]).id == id && old(
                    self,
                )@.subs[i].queue.len() == 0) ==> (final(self)@ == old(self)@ && r is None),
            forall|i: int|
                (0 <= i < old(self)@.subs.len() && (#[trigger] old(self)@.subs[i]).id == id && old(
                    self,
                )@.subs[i].queue.len() > 0) ==> ((r matches Some(tk) && tk@
                    == old(self)@.subs[i].queue[0]) && final(self)@.subs == old(self)@.subs.update(
                    i,
                    popped_spec(old(self)@.subs[i]),
                )),
    {
        let mut i: usize = 0;
        while i < self.subs.len()
            invariant
                hub_wf(self@),
                self@ == old(self)@,
                i <= self@.subs.len(),
                forall|x: int| 0 <= x < i ==> (#[trigger] self@.subs[x]).id != id,
            decreases self@.subs.len() - i,
        {
            if self.subs[i].id == id {
                proof {
                    assert forall|x: int|
                        0 <= x < old(self)@.subs.len() && (#[trigger] old(self)@.subs[x]).id
                            == id implies x == i as int by {
                        if x < i as int {
                            assert(old(self)@.subs[x].id != old(self)@.subs[i as int].id);
                        } else if x > i as int {
                            assert(old(self)@.subs[i as int].id != old(self)@.subs[x].id);
                        }
                    }
                }
                if self.subs[i].queue.len() == 0 {
                    return None;
                }
                let tk = self.subs[i].queue.remove(0);
                proof {
                    assert(self@.subs[i as int].queue =~~= old(self)@.subs[i as int].queue.skip(
                        1,
                    ));
                    assert(self@.subs =~~= old(self)@.subs.update(
                        i as int,
                        popped_spec(old(self)@.subs[i as int]),
                    ));
                }
                return Some(tk);
            }
            i = i + 1;
        }
        None
    }
}

impl crate::service::AnalyticsService {
    /// `SubscribeToTrades`: opens a live subscription for one symbol
    /// across every exchange, with the default bounded queue, and hands
    /// back its identifier. A malformed symbol is `InvalidArgument` and
    /// leaves the hub unchanged.
    pub fn subscribe_to_trades(hub: &mut TradeHub, symbol: &Vec<u8>) -> (r: Result<
        u64,
        AnalyticsError,
    >)
        requires
            hub_wf(old(hub)@),
        ensures
            hub_wf(final(hub)@),
            !valid_symbol(symbol@) ==> r == Err::<u64, AnalyticsError>(
                AnalyticsError::InvalidArgument,
            ) && final(hub)@ == old(hub)@,
            valid_symbol(symbol@) && old(hub)@.next_id == u64::MAX ==> r == Err::<
                u64,
                AnalyticsError,
            >(AnalyticsError::Internal) && final(hub)@ == old(hub)@,
            valid_symbol(symbol@) && old(hub)@.next_id < u64::MAX ==> (r == Ok::<u64, AnalyticsError>(old(hub)@.next_id)
                && final(hub)@.next_id == old(hub)@.next_id + 1
                && final(hub)@.subs == old(hub)@.subs.push(
                (SubscriptionV {
                    id: old(hub)@.next_id,
                    symbol: lower_bytes(symbol@),
                    queue: Seq::empty(),
                    capacity: DEFAULT_QUEUE_CAPACITY as nat,
                }),
            )),
    {
        hub.subscribe(symbol, DEFAULT_QUEUE_CAPACITY)
    }
}

} // verus!
