//! Bounded FIFO queue between a producer (the router) and one consumer (an
//! application's message source). The capacity bound provides backpressure:
//! a full queue either refuses the push (the producer suspends and retries)
//! or drops its oldest message, per the configured policy.

use vstd::prelude::*;
use crate::ids::NetworkId;
use crate::ids::PeerId;
use crate::protocol::ProtocolId;

verus! {

/// An inbound message as the transport hands it over: already framed and
/// tagged with the protocol it belongs to.
#[derive(Clone, Debug, PartialEq, Eq)]
pub struct ReceivedMessage {
    pub sender: PeerId,
    pub network_id: NetworkId,
    pub protocol_id: ProtocolId,
    pub data: Vec<u8>,
}

/// What a producer does when the queue is full. The policy is configured by
/// the caller; this layer only enforces the bound.
#[derive(Clone, Copy, Debug, PartialEq, Eq, Structural)]
pub enum QueuePolicy {
    /// A full queue refuses the push; the producer suspends and retries.
    Blocking,
    /// A full queue drops its oldest message to admit the new one.
    DropOldest,
}

/// Outcome of a push, mirroring the policy cases.
#[derive(Clone, Copy, Debug, PartialEq, Eq, Structural)]
pub enum PushOutcome {
    /// The message was appended.
    Delivered,
    /// The queue is full under the blocking policy; nothing changed, the
    /// producer should retry once the consumer has drained.
    WouldBlock,
    /// The queue was full under the drop-oldest policy; the oldest message
    /// was discarded and the new one appended.
    DroppedOldest,
    /// The queue is closed; nothing is accepted any more.
    Closed,
}

/// Outcome of a poll on the consumer side.
#[derive(Clone, Debug, PartialEq, Eq)]
pub enum PollOutcome<M> {
    /// The oldest queued message.
    Message(M),
    /// Nothing queued yet, but producers may still push: the consumer
    /// suspends until data arrives or the queue closes.
    Pending,
    /// The queue is closed and drained: end of stream.
    EndOfStream,
}

/// A fixed-capacity FIFO buffer. The view is the sequence of queued
/// messages, oldest first.
pub struct BoundedQueue<M> {
    items: Vec<M>,
    capacity: usize,
    policy: QueuePolicy,
    closed: bool,
}

impl<M> BoundedQueue<M> {
    /// The queued messages, oldest first.
    pub closed spec fn view(&self) -> Seq<M> {
        self.items@
    }

    pub closed spec fn spec_capacity(&self) -> usize {
        self.capacity
    }

    pub closed spec fn spec_policy(&self) -> QueuePolicy {
        self.policy
    }

    pub closed spec fn spec_closed(&self) -> bool {
        self.closed
    }

    /// The bound is positive and always respected.
    pub open spec fn wf(&self) -> bool {
        &&& self.spec_capacity() >= 1
        &&& self@.len() <= self.spec_capacity()
    }

    /// An empty open queue with the given bound and policy.
    pub fn new(capacity: usize, policy: QueuePolicy) -> (q: Self)
        requires
            capacity >= 1,
        ensures
            q.wf(),
            q@ == Seq::<M>::empty(),
            q.spec_capacity() == capacity,
            q.spec_policy() == policy,
            !q.spec_closed(),
    {
        BoundedQueue { items: Vec::new(), capacity, policy, closed: false }
    }

    pub fn len(&self) -> (n: usize)
        ensures
            n == self@.len(),
    {
        self.items.len()
    }

    pub fn is_closed(&self) -> (b: bool)
        ensures
            b == self.spec_closed(),
    {
        self.closed
    }

    /// Append a message, subject to the bound and the policy.
    pub fn push(&mut self, m: M) -> (r: PushOutcome)
        requires
            old(self).wf(),
        ensures
            final(self).wf(),
            final(self).spec_capacity() == old(self).spec_capacity(),
            final(self).spec_policy() == old(self).spec_policy(),
            final(self).spec_closed() == old(self).spec_closed(),
            match r {
                PushOutcome::Closed => {
                    &&& old(self).spec_closed()
                    &&& final(self)@ == old(self)@
                },
                PushOutcome::Delivered => {
                    &&& !old(self).spec_closed()
                    &&& old(self)@.len() < old(self).spec_capacity()
                    &&& final(self)@ == old(self)@.push(m)
                },
                PushOutcome::WouldBlock => {
                    &&& !old(self).spec_closed()
                    &&& old(self)@.len() == old(self).spec_capacity()
                    &&& old(self).spec_policy() == QueuePolicy::Blocking
                    &&& final(self)@ == old(self)@
                },
                PushOutcome::DroppedOldest => {
                    &&& !old(self).spec_closed()
                    &&& old(self)@.len() == old(self).spec_capacity()
                    &&& old(self).spec_policy() == QueuePolicy::DropOldest
                    &&& final(self)@ == old(self)@.drop_first().push(m)
                },
            },
    {
        if self.closed {
            return PushOutcome::Closed;
        }
        if self.items.len() < self.capacity {
            self.items.push(m);
            PushOutcome::Delivered
        } else {
            match self.policy {
                QueuePolicy::Blocking => PushOutcome::WouldBlock,
                QueuePolicy::DropOldest => {
                    let _oldest = self.items.remove(0);
                    self.items.push(m);
                    PushOutcome::DroppedOldest
                },
            }
        }
    }

    /// Take the oldest message, or report why none is available.
    pub fn poll(&mut self) -> (r: PollOutcome<M>)
        requires
            old(self).wf(),
        ensures
            final(self).wf(),
            final(self).spec_capacity() == old(self).spec_capacity(),
            final(self).spec_policy() == old(self).spec_policy(),
            final(self).spec_closed() == old(self).spec_closed(),
            match r {
                PollOutcome::Message(m) => {
                    &&& old(self)@.len() > 0
                    &&& m == old(self)@[0]
                    &&& final(self)@ == old(self)@.drop_first()
                },
                PollOutcome::Pending => {
                    &&& old(self)@.len() == 0
                    &&& !old(self).spec_closed()
                    &&& final(self)@ == old(self)@
                },
                PollOutcome::EndOfStream => {
                    &&& old(self)@.len() == 0
                    &&& old(self).spec_closed()
                    &&& final(self)@ == old(self)@
                },
            },
    {
        if self.items.len() > 0 {
            let m = self.items.remove(0);
            PollOutcome::Message(m)
        } else if self.closed {
            PollOutcome::EndOfStream
        } else {
            PollOutcome::Pending
        }
    }

    /// Close the queue: producers are refused from now on; the consumer may
    /// still drain what is queued. Nothing else about the queue changes.
    pub fn close(&mut self)
        requires
            old(self).wf(),
        ensures
            final(self).wf(),
            final(self).spec_closed(),
            final(self)@ == old(self)@,
            final(self).spec_capacity() == old(self).spec_capacity(),
            final(self).spec_policy() == old(self).spec_policy(),
    {
        self.closed = true;
    }
}

/// FIFO law: three messages pushed in order into an empty queue are observed
/// in that same order, whatever happens to any other queue meanwhile (queues
/// are disjoint values; only these push and poll steps touch this one).
pub proof fn lemma_queue_fifo<M>(m1: M, m2: M, m3: M)
    ensures
        ({
            let q = Seq::<M>::empty().push(m1).push(m2).push(m3);
            &&& q[0] == m1
            &&& q.drop_first()[0] == m2
            &&& q.drop_first().drop_first()[0] == m3
            &&& q.drop_first().drop_first().drop_first() == Seq::<M>::empty()
        }),
{
    let q = Seq::<M>::empty().push(m1).push(m2).push(m3);
    assert(q.drop_first() =~= Seq::<M>::empty().push(m2).push(m3));
    assert(q.drop_first().drop_first() =~= Seq::<M>::empty().push(m3));
    assert(q.drop_first().drop_first().drop_first() =~= Seq::<M>::empty());
}

} // verus!
