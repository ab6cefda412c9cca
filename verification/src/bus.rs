//! The broadcast bus for lifecycle events. Every subscriber owns a cursor
//! into the emission log and receives, from its subscription point on,
//! every event in emission order; a subscriber that falls further behind
//! than the bus capacity is told how much it missed instead of blocking
//! emission.

use vstd::prelude::*;
use crate::addr::BDAddr;
use vstd::pervasive::VecAdditionalExecFns;

verus! {

/// A lifecycle event. It carries only the address: by the time a consumer
/// observes the event the peripheral handle may already hold newer data, so
/// consumers re-query the registry instead of trusting a payload.
#[derive(Debug, Clone, Copy, PartialEq, Eq, Structural)]
pub enum CentralEvent {
    DeviceDiscovered(BDAddr),
    DeviceUpdated(BDAddr),
    DeviceLost(BDAddr),
    DeviceDisconnected(BDAddr),
}

/// What one receive attempt yields.
#[derive(Debug, Clone, Copy, PartialEq, Eq, Structural)]
pub enum RecvOutcome {
    /// Nothing is pending; the stream stays open.
    Empty,
    /// The subscriber fell further behind than the bus capacity; it was
    /// moved forward and the payload counts the events it missed.
    Lagged(usize),
    /// The next pending event, in emission order.
    Event(CentralEvent),
}

/// The broadcast bus: the log of every event emitted so far and one cursor
/// per subscriber into that log.
pub struct EventBus {
    pub log: Vec<CentralEvent>,
    pub cursors: Vec<usize>,
    pub capacity: usize,
}

impl EventBus {
    /// Well-formed: a positive capacity, and no cursor past the log end.
    pub open spec fn wf(self) -> bool {
        &&& self.capacity >= 1
        &&& forall|i: int|
            0 <= i < self.cursors@.len() ==> #[trigger] self.cursors@[i] <= self.log@.len()
    }

    /// The events subscriber `id` has not yet received, in emission order.
    pub open spec fn pending(self, id: int) -> Seq<CentralEvent>
        recommends
            0 <= id < self.cursors@.len(),
    {
        self.log@.skip(self.cursors@[id] as int)
    }

    /// A bus with no events and no subscribers. Each subscriber may fall at
    /// most `capacity` events behind before it starts missing events.
    pub fn new(capacity: usize) -> (r: EventBus)
        requires
            capacity >= 1,
        ensures
            r.wf(),
            r.log@ == Seq::<CentralEvent>::empty(),
            r.cursors@ == Seq::<usize>::empty(),
            r.capacity == capacity,
    {
        EventBus { log: Vec::new(), cursors: Vec::new(), capacity }
    }

    /// Registers a new subscriber. Its delivery position starts at "now":
    /// nothing already emitted is pending for it.
    pub fn subscribe(&mut self) -> (id: usize)
        requires
            old(self).wf(),
        ensures
            final(self).wf(),
            final(self).log == old(self).log,
            final(self).capacity == old(self).capacity,
            final(self).cursors@ == old(self).cursors@.push(old(self).log.len()),
            id == old(self).cursors@.len(),
            final(self).pending(id as int) == Seq::<CentralEvent>::empty(),
    {
        let id = self.cursors.len();
        let at = self.log.len();
        self.cursors.push(at);
        proof {
            assert(self.pending(id as int) =~= Seq::<CentralEvent>::empty());
        }
        id
    }

    /// Publishes one event to all current subscribers: it is appended to
    /// the log and becomes the last pending event of every subscriber.
    /// Emission never waits for slow subscribers.
    pub fn emit(&mut self, event: CentralEvent)
        requires
            old(self).wf(),
        ensures
            final(self).wf(),
            final(self).log@ == old(self).log@.push(event),
            final(self).cursors == old(self).cursors,
            final(self).capacity == old(self).capacity,
            forall|j: int|
                0 <= j < old(self).cursors@.len() ==> final(self).pending(j) == old(self).pending(
                    j,
                ).push(event),
    {
        self.log.push(event);
        proof {
            assert forall|j: int| 0 <= j < self.cursors@.len() implies self.pending(j) == old(
                self,
            ).pending(j).push(event) by {
                assert(self.pending(j) =~= old(self).pending(j).push(event));
            }
        }
    }

    /// One receive attempt for subscriber `id`. With events pending and the
    /// backlog within capacity, hands over the first pending event and
    /// steps the cursor: repeated calls thus deliver the pending events in
    /// emission order, each exactly once. With no backlog it reports
    /// `Empty`; with a backlog beyond capacity it reports how many events
    /// were missed and resumes at the oldest retained position. Other
    /// subscribers are untouched.
    pub fn try_recv(&mut self, id: usize) -> (r: RecvOutcome)
        requires
            old(self).wf(),
            id < old(self).cursors@.len(),
        ensures
            final(self).wf(),
            final(self).log == old(self).log,
            final(self).capacity == old(self).capacity,
            final(self).cursors@.len() == old(self).cursors@.len(),
            forall|j: int|
                0 <= j < old(self).cursors@.len() && j != id ==> final(self).cursors@[j] == old(
                    self,
                ).cursors@[j],
            ({
                let c = old(self).cursors@[id as int] as int;
                let n = old(self).log@.len() as int;
                let cap = old(self).capacity as int;
                if c == n {
                    &&& r is Empty
                    &&& final(self).cursors@[id as int] as int == c
                } else if n - c > cap {
                    &&& r == RecvOutcome::Lagged(((n - cap) - c) as usize)
                    &&& final(self).cursors@[id as int] as int == n - cap
                } else {
                    &&& r == RecvOutcome::Event(old(self).log@[c])
                    &&& r == RecvOutcome::Event(old(self).pending(id as int)[0])
                    &&& final(self).pending(id as int) == old(self).pending(id as int).skip(1)
                    &&& final(self).cursors@[id as int] as int == c + 1
                }
            }),
    {
        let c = self.cursors[id];
        let n = self.log.len();
        if c == n {
            RecvOutcome::Empty
        } else if n - c > self.capacity {
            let resume = n - self.capacity;
            self.cursors.set(id, resume);
            RecvOutcome::Lagged(resume - c)
        } else {
            let event = self.log[c];
            self.cursors.set(id, c + 1);
            proof {
                assert(self.pending(id as int) =~= old(self).pending(id as int).skip(1));
            }
            RecvOutcome::Event(event)
        }
    }
}

/// Law: a subscriber registered before a burst of events is emitted has,
/// once the burst is in the log, exactly that burst pending — those events,
/// in emission order, nothing else.
pub proof fn lemma_subscriber_sees_burst(log0: Seq<CentralEvent>, burst: Seq<CentralEvent>)
    ensures
        (log0 + burst).skip(log0.len() as int) == burst,
{
    assert((log0 + burst).skip(log0.len() as int) =~= burst);
}

/// The events handed over by `n` successive receive attempts from cursor
/// `c` over a fixed log: each attempt delivers the event at the cursor and
/// moves one past it, exactly as the `try_recv` contract says of every
/// call whose backlog is within capacity.
pub open spec fn received(log: Seq<CentralEvent>, c: int, n: int) -> Seq<CentralEvent>
    decreases n,
{
    if n <= 0 {
        Seq::empty()
    } else {
        seq![log[c]] + received(log, c + 1, n - 1)
    }
}

/// Successive receives walk a contiguous stretch of the log.
proof fn lemma_received_is_subrange(log: Seq<CentralEvent>, c: int, n: int)
    requires
        0 <= c,
        0 <= n,
        c + n <= log.len(),
    ensures
        received(log, c, n) == log.subrange(c, c + n),
    decreases n,
{
    if n == 0 {
        assert(received(log, c, 0) =~= log.subrange(c, c));
    } else {
        lemma_received_is_subrange(log, c + 1, n - 1);
        assert(received(log, c, n) =~= log.subrange(c, c + n));
    }
}

/// Law: a subscriber registered before a burst of events is emitted
/// receives, over one receive attempt per event, exactly that burst — in
/// emission order, each event once, none skipped and none repeated. (The
/// cursor starts at the log end of subscription time; each attempt
/// delivers the event at the cursor and steps past it.)
pub proof fn lemma_subscriber_receives_burst(log0: Seq<CentralEvent>, burst: Seq<CentralEvent>)
    ensures
        received(log0 + burst, log0.len() as int, burst.len() as int) == burst,
{
    let log = log0 + burst;
    lemma_received_is_subrange(log, log0.len() as int, burst.len() as int);
    assert(log.subrange(log0.len() as int, log.len() as int) =~= burst);
}

} // verus!
