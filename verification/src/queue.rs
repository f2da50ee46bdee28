//! The rules of the bounded webhook queue.
//!
//! Payloads are handed over without waiting for the network. One worker posts
//! them; a payload that finds the queue full is dropped, and counted.

use crate::client::WebhookPayload;
use vstd::prelude::*;

verus! {

/// Outcome counters shown in the status.
#[derive(Debug, Clone, Copy, PartialEq, Eq, Structural)]
pub struct QueueStats {
    pub enqueued: u64,
    pub delivered: u64,
    pub failed: u64,
    pub dropped_full: u64,
}

impl Default for QueueStats {
    fn default() -> (r: QueueStats)
        ensures
            r == (QueueStats { enqueued: 0, delivered: 0, failed: 0, dropped_full: 0 }),
    {
        QueueStats { enqueued: 0, delivered: 0, failed: 0, dropped_full: 0 }
    }
}

/// How many payloads may wait: what was asked for, but at least eight.
pub open spec fn places(asked: nat) -> nat {
    if asked < 8 {
        8
    } else {
        asked
    }
}

/// How many payloads may wait: what was asked for, but at least eight.
pub fn queue_capacity(asked: usize) -> (r: usize)
    ensures
        r == places(asked as nat),
{
    if asked < 8 {
        8
    } else {
        asked
    }
}

/// The counters after a payload was offered to the queue.
pub open spec fn after_offer(stats: QueueStats, accepted: bool) -> QueueStats {
    if accepted {
        QueueStats { enqueued: (stats.enqueued + 1) as u64, ..stats }
    } else {
        QueueStats { dropped_full: (stats.dropped_full + 1) as u64, ..stats }
    }
}

/// The counters after the worker is done with a payload.
pub open spec fn after_sending(stats: QueueStats, delivered: bool) -> QueueStats {
    if delivered {
        QueueStats { delivered: (stats.delivered + 1) as u64, ..stats }
    } else {
        QueueStats { failed: (stats.failed + 1) as u64, ..stats }
    }
}

impl QueueStats {
    /// Counts a payload that was offered to the queue.
    pub fn record_enqueue(&mut self, accepted: bool)
        requires
            accepted ==> old(self).enqueued < u64::MAX,
            !accepted ==> old(self).dropped_full < u64::MAX,
        ensures
            *final(self) == after_offer(*old(self), accepted),
    {
        if accepted {
            self.enqueued = self.enqueued + 1;
        } else {
            self.dropped_full = self.dropped_full + 1;
        }
    }

    /// Counts a payload that the worker is done with.
    pub fn record_sent(&mut self, delivered: bool)
        requires
            delivered ==> old(self).delivered < u64::MAX,
            !delivered ==> old(self).failed < u64::MAX,
        ensures
            *final(self) == after_sending(*old(self), delivered),
    {
        if delivered {
            self.delivered = self.delivered + 1;
        } else {
            self.failed = self.failed + 1;
        }
    }
}

/// Decides which payloads the queue takes, and counts what becomes of them. The
/// payloads wait elsewhere: how many there are, and whether the worker is still
/// there, is told with each offer.
#[derive(Debug)]
pub struct QueueGate {
    capacity: usize,
    stats: QueueStats,
}

impl QueueGate {
    /// How many payloads may wait.
    pub closed spec fn places(&self) -> nat {
        self.capacity as nat
    }

    /// The counters.
    pub closed spec fn counters(&self) -> QueueStats {
        self.stats
    }

    /// Whether a payload is taken while this many wait: there must be a place,
    /// and a worker.
    pub open spec fn admits(&self, waiting: nat, worker: bool) -> bool {
        worker && waiting < self.places()
    }

    /// A gate that has seen nothing yet.
    pub fn new(asked: usize) -> (r: QueueGate)
        ensures
            r.places() == places(asked as nat),
            r.counters() == (QueueStats { enqueued: 0, delivered: 0, failed: 0, dropped_full: 0 }),
    {
        QueueGate { capacity: queue_capacity(asked), stats: QueueStats::default() }
    }

    /// How many payloads may wait.
    pub fn capacity(&self) -> (r: usize)
        ensures
            r == self.places(),
    {
        self.capacity
    }

    /// The counters.
    pub fn stats(&self) -> (r: QueueStats)
        ensures
            r == self.counters(),
    {
        self.stats
    }

    /// Takes a payload in, or drops it. What is taken in comes back, to be put
    /// behind those that wait.
    pub fn offer(&mut self, payload: WebhookPayload, waiting: usize, worker: bool) -> (r: Option<
        WebhookPayload,
    >)
        requires
            old(self).admits(waiting as nat, worker) ==> old(self).counters().enqueued < u64::MAX,
            !old(self).admits(waiting as nat, worker) ==> old(self).counters().dropped_full
                < u64::MAX,
        ensures
            r == (if old(self).admits(waiting as nat, worker) {
                Some(payload)
            } else {
                None
            }),
            final(self).places() == old(self).places(),
            final(self).counters() == after_offer(
                old(self).counters(),
                old(self).admits(waiting as nat, worker),
            ),
    {
        let accepted: bool = worker && waiting < self.capacity;
        self.stats.record_enqueue(accepted);
        if accepted {
            Some(payload)
        } else {
            None
        }
    }

    /// Counts a payload that the worker is done with.
    pub fn sent(&mut self, delivered: bool)
        requires
            delivered ==> old(self).counters().delivered < u64::MAX,
            !delivered ==> old(self).counters().failed < u64::MAX,
        ensures
            final(self).places() == old(self).places(),
            final(self).counters() == after_sending(old(self).counters(), delivered),
    {
        self.stats.record_sent(delivered);
    }
}

/// Drops are counted, not silent: each offer raises exactly one of the two
/// counters by one. A payload is dropped exactly where as many wait as the queue
/// has places for, at least eight, or where the worker is gone.
pub proof fn law_every_offer_is_counted_once(
    gate: QueueGate,
    asked: nat,
    waiting: nat,
    worker: bool,
)
    requires
        gate.places() == places(asked),
        gate.admits(waiting, worker) ==> gate.counters().enqueued < u64::MAX,
        !gate.admits(waiting, worker) ==> gate.counters().dropped_full < u64::MAX,
    ensures
        ({
            let pre = gate.counters();
            let post = after_offer(pre, gate.admits(waiting, worker));
            let dropped = waiting >= places(asked) || !worker;
            &&& post.enqueued == pre.enqueued + (if dropped {
                0int
            } else {
                1
            })
            &&& post.dropped_full == pre.dropped_full + (if dropped {
                1int
            } else {
                0
            })
            &&& post.delivered == pre.delivered
            &&& post.failed == pre.failed
        }),
{
}

/// A payload that the worker is done with raises exactly one counter by one: it
/// was delivered, or it failed.
pub proof fn law_every_delivery_is_counted_once(stats: QueueStats, delivered: bool)
    requires
        delivered ==> stats.delivered < u64::MAX,
        !delivered ==> stats.failed < u64::MAX,
    ensures
        ({
            let after = after_sending(stats, delivered);
            &&& after.delivered - stats.delivered == (if delivered {
                1int
            } else {
                0
            })
            &&& after.failed - stats.failed == (if delivered {
                0int
            } else {
                1
            })
            &&& after.enqueued == stats.enqueued
            &&& after.dropped_full == stats.dropped_full
        }),
{
}

/// There are as many places as were asked for, and never fewer than eight.
pub proof fn law_queue_has_room(asked: nat, more: nat)
    ensures
        places(asked) >= 8,
        places(asked) >= asked,
        places(asked) == asked || places(asked) == 8,
        places(asked) <= places(asked + more),
{
}

/// A place less or a worker gone never lets a payload in: what is taken while
/// many wait would be taken while fewer do.
pub proof fn law_emptier_queues_admit_more(gate: QueueGate, waiting: nat, fewer: nat, worker: bool)
    requires
        fewer <= waiting,
    ensures
        gate.admits(waiting, worker) ==> gate.admits(fewer, worker),
        gate.admits(waiting, worker) <==> worker && waiting < gate.places(),
        !gate.admits(waiting, false),
{
}

} // verus!
