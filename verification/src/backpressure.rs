//! Bounded tick buffer with an explicit overflow policy.
//!
//! - `DropOldest`: on full, the oldest queued item is discarded to make room.
//! - `DropNewest`: on full, the incoming item is discarded.
//! - `Block`: on full, the sender waits for a free slot.
//!
//! The buffer here is the channel's state; waiting and waking are done by
//! the caller around it.

use std::collections::VecDeque;
use vstd::prelude::*;

verus! {

/// How a send on a full buffer is handled.
#[derive(Debug, Clone, Copy, PartialEq, Eq, Structural)]
pub enum BackpressurePolicy {
    /// Drop the oldest queued item to make room for the incoming one.
    DropOldest,
    /// Drop the incoming item; the queue stays unchanged.
    DropNewest,
    /// Wait for a free slot.
    Block,
}

/// The receiver is gone.
#[derive(Debug, Clone, Copy, PartialEq, Eq, Structural)]
pub struct ChannelClosed;

impl ChannelClosed {
    /// Human-readable text.
    pub fn describe(&self) -> (r: &'static str)
        ensures
            r@ == "channel closed: receiver dropped"@,
    {
        "channel closed: receiver dropped"
    }
}

/// Why a non-blocking receive gave nothing.
#[derive(Debug, Clone, Copy, PartialEq, Eq, Structural)]
pub enum TryRecvError {
    Empty,
}

/// Result of offering an item to the buffer.
#[derive(Debug)]
pub enum Offer<T> {
    /// The item was queued.
    Enqueued,
    /// The item was discarded by the policy.
    Dropped,
    /// The buffer is full under `Block`: the item comes back to wait with.
    Full(T),
}

/// Bounded FIFO buffer with drop counters.
#[derive(Debug)]
pub struct TickBuffer<T> {
    buf: VecDeque<T>,
    capacity: usize,
    policy: BackpressurePolicy,
    dropped_oldest: u64,
    dropped_newest: u64,
    blocked_sends: u64,
}

/// Counter increment on overflow, wrapping at 2^64.
pub open spec fn bump(c: u64) -> u64 {
    if c == u64::MAX {
        0
    } else {
        (c + 1) as u64
    }
}

impl<T> TickBuffer<T> {
    #[verifier::type_invariant]
    spec fn bounded(self) -> bool {
        &&& self.capacity > 0
        &&& self.buf@.len() <= self.capacity
    }

    /// Items queued, oldest first.
    pub closed spec fn items(&self) -> Seq<T> {
        self.buf@
    }

    /// Capacity.
    pub closed spec fn cap(&self) -> nat {
        self.capacity as nat
    }

    /// Overflow policy.
    pub closed spec fn pol(&self) -> BackpressurePolicy {
        self.policy
    }

    /// Items discarded from the head.
    pub closed spec fn oldest_drops(&self) -> u64 {
        self.dropped_oldest
    }

    /// Incoming items discarded.
    pub closed spec fn newest_drops(&self) -> u64 {
        self.dropped_newest
    }

    /// Sends made under `Block`.
    pub closed spec fn block_sends(&self) -> u64 {
        self.blocked_sends
    }

    /// An empty buffer of positive `capacity`.
    pub fn new(capacity: usize, policy: BackpressurePolicy) -> (r: Self)
        requires
            capacity > 0,
        ensures
            r.items().len() == 0,
            r.cap() == capacity,
            r.pol() == policy,
            r.oldest_drops() == 0,
            r.newest_drops() == 0,
            r.block_sends() == 0,
    {
        TickBuffer {
            buf: VecDeque::with_capacity(capacity),
            capacity,
            policy,
            dropped_oldest: 0,
            dropped_newest: 0,
            blocked_sends: 0,
        }
    }

    /// Offer `item` under the buffer's policy.
    ///
    /// - `DropNewest`: full → dropped (counted); otherwise queued.
    /// - `DropOldest`: full → the head is discarded (counted); then queued.
    /// - `Block`: full → handed back to wait with; otherwise queued.
    pub fn offer(&mut self, item: T) -> (r: Offer<T>)
        ensures
            final(self).cap() == old(self).cap(),
            final(self).pol() == old(self).pol(),
            final(self).block_sends() == old(self).block_sends(),
            final(self).items().len() <= final(self).cap(),
            old(self).items().len() < old(self).cap() ==> {
                &&& r is Enqueued
                &&& final(self).items() == old(self).items().push(item)
                &&& final(self).oldest_drops() == old(self).oldest_drops()
                &&& final(self).newest_drops() == old(self).newest_drops()
            },
            old(self).items().len() >= old(self).cap() ==> match old(self).pol() {
                BackpressurePolicy::DropNewest => {
                    &&& r is Dropped
                    &&& final(self).items() == old(self).items()
                    &&& final(self).newest_drops() == bump(old(self).newest_drops())
                    &&& final(self).oldest_drops() == old(self).oldest_drops()
                },
                BackpressurePolicy::DropOldest => {
                    &&& r is Enqueued
                    &&& final(self).items() == old(self).items().drop_first().push(item)
                    &&& final(self).oldest_drops() == bump(old(self).oldest_drops())
                    &&& final(self).newest_drops() == old(self).newest_drops()
                },
                BackpressurePolicy::Block => {
                    &&& r matches Offer::Full(x) && x == item
                    &&& final(self).items() == old(self).items()
                    &&& final(self).oldest_drops() == old(self).oldest_drops()
                    &&& final(self).newest_drops() == old(self).newest_drops()
                },
            },
    {
        proof {
            use_type_invariant(&*self);
        }
        let full = self.buf.len() >= self.capacity;
        match self.policy {
            BackpressurePolicy::DropNewest => {
                if full {
                    self.dropped_newest = self.dropped_newest.wrapping_add(1);
                    Offer::Dropped
                } else {
                    let mut buf = VecDeque::new();
                    std::mem::swap(&mut buf, &mut self.buf);
                    buf.push_back(item);
                    self.buf = buf;
                    Offer::Enqueued
                }
            },
            BackpressurePolicy::DropOldest => {
                let mut buf = VecDeque::new();
                std::mem::swap(&mut buf, &mut self.buf);
                if full {
                    let ghost before = buf@;
                    buf.pop_front();
                    assert(buf@ =~= before.drop_first());
                    self.dropped_oldest = self.dropped_oldest.wrapping_add(1);
                }
                buf.push_back(item);
                self.buf = buf;
                Offer::Enqueued
            },
            BackpressurePolicy::Block => {
                if full {
                    Offer::Full(item)
                } else {
                    let mut buf = VecDeque::new();
                    std::mem::swap(&mut buf, &mut self.buf);
                    buf.push_back(item);
                    self.buf = buf;
                    Offer::Enqueued
                }
            },
        }
    }

    /// Count one send under the `Block` policy.
    pub fn count_blocked_send(&mut self)
        ensures
            final(self).block_sends() == bump(old(self).block_sends()),
            final(self).items() == old(self).items(),
            final(self).cap() == old(self).cap(),
            final(self).pol() == old(self).pol(),
            final(self).oldest_drops() == old(self).oldest_drops(),
            final(self).newest_drops() == old(self).newest_drops(),
    {
        proof {
            use_type_invariant(&*self);
        }
        self.blocked_sends = self.blocked_sends.wrapping_add(1);
    }

    /// Take the oldest item, if any.
    pub fn pop(&mut self) -> (r: Option<T>)
        ensures
            old(self).items().len() > 0 ==> r == Some(old(self).items()[0])
                && final(self).items() == old(self).items().drop_first(),
            old(self).items().len() == 0 ==> r is None && final(self).items() == old(self).items(),
            final(self).cap() == old(self).cap(),
            final(self).pol() == old(self).pol(),
            final(self).oldest_drops() == old(self).oldest_drops(),
            final(self).newest_drops() == old(self).newest_drops(),
            final(self).block_sends() == old(self).block_sends(),
    {
        proof {
            use_type_invariant(&*self);
        }
        let mut buf = VecDeque::new();
        std::mem::swap(&mut buf, &mut self.buf);
        let ghost before = buf@;
        let r = buf.pop_front();
        proof {
            if before.len() > 0 {
                assert(buf@ =~= before.drop_first());
            }
        }
        self.buf = buf;
        r
    }

    /// Non-blocking receive: the oldest item, or `Empty`.
    pub fn try_pop(&mut self) -> (r: Result<T, TryRecvError>)
        ensures
            old(self).items().len() > 0 ==> r == Ok::<T, TryRecvError>(old(self).items()[0])
                && final(self).items() == old(self).items().drop_first(),
            old(self).items().len() == 0 ==> r == Err::<T, TryRecvError>(TryRecvError::Empty)
                && final(self).items() == old(self).items(),
            final(self).cap() == old(self).cap(),
            final(self).pol() == old(self).pol(),
            final(self).oldest_drops() == old(self).oldest_drops(),
            final(self).newest_drops() == old(self).newest_drops(),
            final(self).block_sends() == old(self).block_sends(),
    {
        match self.pop() {
            Some(v) => Ok(v),
            None => Err(TryRecvError::Empty),
        }
    }

    /// Number of items queued.
    pub fn len(&self) -> (r: usize)
        ensures
            r == self.items().len(),
    {
        self.buf.len()
    }

    /// Overflow policy.
    pub fn policy(&self) -> (r: BackpressurePolicy)
        ensures
            r == self.pol(),
    {
        self.policy
    }

    /// Items discarded from the head under `DropOldest`.
    pub fn dropped_oldest(&self) -> (r: u64)
        ensures
            r == self.oldest_drops(),
    {
        self.dropped_oldest
    }

    /// Incoming items discarded under `DropNewest`.
    pub fn dropped_newest(&self) -> (r: u64)
        ensures
            r == self.newest_drops(),
    {
        self.dropped_newest
    }

    /// Sends made under `Block`.
    pub fn blocked_sends(&self) -> (r: u64)
        ensures
            r == self.block_sends(),
    {
        self.blocked_sends
    }
}

/// Under `DropOldest` the buffer always ends with the newest item, and
/// keeps the most recent items in arrival order.
pub proof fn lemma_drop_oldest_keeps_newest<T>(before: Seq<T>, item: T, cap: nat)
    requires
        0 < cap,
        before.len() <= cap,
    ensures
        ({
            let after = if before.len() >= cap {
                before.drop_first().push(item)
            } else {
                before.push(item)
            };
            &&& after.len() <= cap
            &&& after.last() == item
            &&& after.drop_last() == before.subrange(before.len() - after.len() + 1, before.len() as int)
        }),
{
    if before.len() >= cap {
        assert(before.drop_first().push(item).drop_last() =~= before.subrange(1, before.len() as int));
    } else {
        assert(before.push(item).drop_last() =~= before.subrange(0, before.len() as int));
    }
}

} // verus!
