//! Hand-off of controller snapshots between the decoding thread and
//! the control loop.
//!
//! The bridge is a small bounded queue under the drop-on-full policy:
//! a send on a full queue drops the new snapshot and returns at once,
//! so the producer never waits on the consumer; a receive drains the
//! queue and hands back the most recent snapshot, so the consumer
//! never waits on the producer. The callers wrap one bridge in their
//! mutual-exclusion primitive; every operation here is a plain
//! function of the queue's value.

use vstd::prelude::*;

use crate::controller::ControllerState;

verus! {

/// Smallest capacity a bridge may be built with.
pub const MIN_CAPACITY: usize = 2;

/// Bounded queue of controller snapshots, oldest first.
pub struct StateBridge {
    queue: Vec<ControllerState>,
    capacity: usize,
}

impl StateBridge {
    /// The queued snapshots, oldest first.
    pub closed spec fn contents(&self) -> Seq<ControllerState> {
        self.queue@
    }

    /// The bound the bridge was built with.
    pub closed spec fn cap(&self) -> usize {
        self.capacity
    }

    /// The queue never outgrows its bound, and the bound is at least
    /// the minimum capacity.
    pub closed spec fn wf(&self) -> bool {
        MIN_CAPACITY <= self.capacity && self.queue@.len() <= self.capacity
    }

    /// An empty bridge with the given bound.
    pub fn new(capacity: usize) -> (b: StateBridge)
        requires
            capacity >= MIN_CAPACITY,
        ensures
            b.wf(),
            b.cap() == capacity,
            b.contents() == Seq::<ControllerState>::empty(),
    {
        StateBridge { queue: Vec::new(), capacity }
    }

    /// Offers one snapshot without ever waiting: a full queue drops
    /// the new snapshot and reports it, anything else appends it.
    pub fn try_send(&mut self, s: ControllerState) -> (accepted: bool)
        requires
            old(self).wf(),
        ensures
            final(self).wf(),
            final(self).cap() == old(self).cap(),
            accepted == (old(self).contents().len() < old(self).cap()),
            accepted ==> final(self).contents() == old(self).contents().push(s),
            !accepted ==> final(self).contents() == old(self).contents(),
    {
        if self.queue.len() < self.capacity {
            self.queue.push(s);
            true
        } else {
            false
        }
    }

    /// Takes the most recent queued snapshot, if any, and empties the
    /// queue; an empty queue means no new input this cycle, never a
    /// wait.
    pub fn recv_latest(&mut self) -> (r: Option<ControllerState>)
        requires
            old(self).wf(),
        ensures
            final(self).wf(),
            final(self).cap() == old(self).cap(),
            final(self).contents() == Seq::<ControllerState>::empty(),
            old(self).contents().len() == 0 ==> r is None,
            old(self).contents().len() > 0 ==> r == Some(old(self).contents().last()),
    {
        if self.queue.len() == 0 {
            None
        } else {
            let s = self.queue[self.queue.len() - 1];
            self.queue = Vec::new();
            Some(s)
        }
    }

    /// How many snapshots are queued.
    pub fn len(&self) -> (n: usize)
        ensures
            n == self.contents().len(),
    {
        self.queue.len()
    }
}

/// No indefinite staleness: once a send is accepted, a receive with no
/// later accepted send hands back exactly that snapshot — the consumer
/// observes the most recent state the producer got through.
pub proof fn lemma_latest_observed(q: Seq<ControllerState>, s: ControllerState)
    ensures
        q.push(s).len() > 0,
        q.push(s).last() == s,
{
}

} // verus!
