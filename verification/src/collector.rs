//! Per-protocol application connections and the router that delivers inbound
//! traffic into them. Each protocol owns exactly one bounded queue; the
//! router looks the queue up by the protocol tag of the incoming message, so
//! a message under one protocol can never land in another protocol's queue.

use vstd::prelude::*;
use crate::error::FatalError;
use crate::protocol::ProtocolId;
use crate::queue::BoundedQueue;
use crate::queue::PushOutcome;
use crate::queue::QueuePolicy;
use crate::queue::ReceivedMessage;

verus! {

/// The registered inbound endpoint of one (application, protocol) pair: the
/// bounded queue for that protocol plus a human-readable counter label.
/// Created once at startup and never reconfigured afterwards.
pub struct ApplicationConnections {
    pub protocol_id: ProtocolId,
    pub label: String,
    pub queue: BoundedQueue<ReceivedMessage>,
}

/// The consumer half handed to the fan-in stage: it names the protocol whose
/// queue it drains.
#[derive(Clone, Copy, Debug, PartialEq, Eq, Structural)]
pub struct ReceiverHandle {
    pub protocol_id: ProtocolId,
}

impl ApplicationConnections {
    /// The queue is well formed and holds only messages of its own protocol.
    pub open spec fn wf(&self) -> bool {
        &&& self.queue.wf()
        &&& forall|i: int|
            0 <= i < self.queue@.len() ==> (#[trigger] self.queue@[i]).protocol_id
                == self.protocol_id
    }

    /// Create the queue for one protocol, returning the registration record
    /// and the consumer half.
    pub fn build(protocol_id: ProtocolId, queue_size: usize, counter_label: &str) -> (r: (
        ApplicationConnections,
        ReceiverHandle,
    ))
        requires
            queue_size >= 1,
        ensures
            r.0.wf(),
            r.0.protocol_id == protocol_id,
            r.0.label@ == counter_label@,
            r.0.queue@ == Seq::<ReceivedMessage>::empty(),
            r.0.queue.spec_capacity() == queue_size,
            r.0.queue.spec_policy() == QueuePolicy::Blocking,
            !r.0.queue.spec_closed(),
            r.1.protocol_id == protocol_id,
    {
        let conn = ApplicationConnections {
            protocol_id,
            label: counter_label.to_owned(),
            queue: BoundedQueue::new(queue_size, QueuePolicy::Blocking),
        };
        (conn, ReceiverHandle { protocol_id })
    }
}

/// Outcome of routing one inbound message.
#[derive(Clone, Copy, Debug, PartialEq, Eq, Structural)]
pub enum RouteOutcome {
    /// The push outcome of the owning protocol's queue.
    Queued(PushOutcome),
    /// No queue is registered for the message's protocol; the message is
    /// discarded.
    NoSuchProtocol,
}

/// The shared router: every registered `ApplicationConnections` of one
/// physical network, keyed by protocol. Protocol ownership is unique
/// process-wide, so registering a protocol twice is a fatal error.
pub struct ApplicationCollector {
    connections: Vec<ApplicationConnections>,
}

impl ApplicationCollector {
    /// Index of the connection registered for `p`, if any.
    pub closed spec fn spec_index_of(&self, p: ProtocolId) -> int {
        choose|i: int| 0 <= i < self.connections@.len() && self.connections@[i].protocol_id == p
    }

    /// Whether a queue is registered for `p`.
    pub closed spec fn spec_has(&self, p: ProtocolId) -> bool {
        exists|i: int| 0 <= i < self.connections@.len() && (#[trigger] self.connections@[i]).protocol_id == p
    }

    /// The queued messages of protocol `p`, oldest first (empty if `p` is
    /// not registered).
    pub closed spec fn spec_queue(&self, p: ProtocolId) -> Seq<ReceivedMessage> {
        if self.spec_has(p) {
            self.connections@[self.spec_index_of(p)].queue@
        } else {
            Seq::empty()
        }
    }

    /// Whether the queue of `p` is closed (an unregistered protocol counts
    /// as closed: there is nothing to wait for).
    pub closed spec fn spec_queue_closed(&self, p: ProtocolId) -> bool {
        if self.spec_has(p) {
            self.connections@[self.spec_index_of(p)].queue.spec_closed()
        } else {
            true
        }
    }

    /// The capacity of the queue registered for `p` (0 if `p` is not
    /// registered).
    pub closed spec fn spec_queue_capacity(&self, p: ProtocolId) -> usize {
        if self.spec_has(p) {
            self.connections@[self.spec_index_of(p)].queue.spec_capacity()
        } else {
            0
        }
    }

    /// The full-queue policy of the queue registered for `p` (blocking if
    /// `p` is not registered; no push can reach such a queue anyway).
    pub closed spec fn spec_queue_policy(&self, p: ProtocolId) -> QueuePolicy {
        if self.spec_has(p) {
            self.connections@[self.spec_index_of(p)].queue.spec_policy()
        } else {
            QueuePolicy::Blocking
        }
    }

    /// The counter label of the queue registered for `p` (empty if `p` is
    /// not registered).
    pub closed spec fn spec_queue_label(&self, p: ProtocolId) -> Seq<char> {
        if self.spec_has(p) {
            self.connections@[self.spec_index_of(p)].label@
        } else {
            Seq::empty()
        }
    }

    /// Every connection is well formed and protocols are unique.
    pub closed spec fn wf(&self) -> bool {
        &&& forall|i: int| 0 <= i < self.connections@.len() ==> (#[trigger] self.connections@[i]).wf()
        &&& forall|i: int, j: int|
            0 <= i < j < self.connections@.len() ==> (#[trigger] self.connections@[i]).protocol_id
                != (#[trigger] self.connections@[j]).protocol_id
    }

    /// An empty router.
    pub fn new() -> (r: Self)
        ensures
            r.wf(),
            forall|p: ProtocolId| !r.spec_has(p),
    {
        ApplicationCollector { connections: Vec::new() }
    }

    pub fn has(&self, p: ProtocolId) -> (b: bool)
        ensures
            b == self.spec_has(p),
    {
        let mut i: usize = 0;
        while i < self.connections.len()
            invariant
                i <= self.connections@.len(),
                forall|k: int| 0 <= k < i ==> (#[trigger] self.connections@[k]).protocol_id != p,
            decreases self.connections@.len() - i,
        {
            if self.connections[i].protocol_id == p {
                return true;
            }
            i = i + 1;
        }
        false
    }

    /// Register one protocol's connections. Fatal if the protocol already
    /// has an owner; on that error the router is left unchanged.
    pub fn add(&mut self, conn: ApplicationConnections) -> (r: Result<(), FatalError>)
        requires
            old(self).wf(),
            conn.wf(),
        ensures
            final(self).wf(),
            match r {
                Ok(()) => {
                    &&& !old(self).spec_has(conn.protocol_id)
                    &&& final(self).spec_has(conn.protocol_id)
                    &&& final(self).spec_queue(conn.protocol_id) == conn.queue@
                    &&& final(self).spec_queue_closed(conn.protocol_id) == conn.queue.spec_closed()
                    &&& final(self).spec_queue_capacity(conn.protocol_id)
                        == conn.queue.spec_capacity()
                    &&& final(self).spec_queue_policy(conn.protocol_id) == conn.queue.spec_policy()
                    &&& final(self).spec_queue_label(conn.protocol_id) == conn.label@
                    &&& forall|q: ProtocolId|
                        q != conn.protocol_id ==> #[trigger] final(self).spec_has(q) == old(self).spec_has(q)
                    &&& forall|q: ProtocolId|
                        q != conn.protocol_id ==> #[trigger] final(self).spec_queue(q) == old(self).spec_queue(q)
                    &&& forall|q: ProtocolId|
                        q != conn.protocol_id ==> #[trigger] final(self).spec_queue_closed(q)
                            == old(self).spec_queue_closed(q)
                    &&& forall|q: ProtocolId|
                        q != conn.protocol_id ==> #[trigger] final(self).spec_queue_capacity(q)
                            == old(self).spec_queue_capacity(q)
                    &&& forall|q: ProtocolId|
                        q != conn.protocol_id ==> #[trigger] final(self).spec_queue_policy(q)
                            == old(self).spec_queue_policy(q)
                    &&& forall|q: ProtocolId|
                        q != conn.protocol_id ==> #[trigger] final(self).spec_queue_label(q)
                            == old(self).spec_queue_label(q)
                },
                Err(e) => {
                    &&& e == FatalError::DuplicateProtocol(conn.protocol_id)
                    &&& old(self).spec_has(conn.protocol_id)
                    &&& *final(self) == *old(self)
                },
            },
    {
        if self.has(conn.protocol_id) {
            return Err(FatalError::DuplicateProtocol(conn.protocol_id));
        }
        let ghost pre = self.connections@;
        let ghost pid = conn.protocol_id;
        self.connections.push(conn);
        proof {
            assert forall|q: ProtocolId| q != pid implies #[trigger] self.spec_has(q) == old(self).spec_has(q) by {
                if old(self).spec_has(q) {
                    let i = choose|i: int| 0 <= i < pre.len() && pre[i].protocol_id == q;
                    assert(self.connections@[i].protocol_id == q);
                }
                if self.spec_has(q) {
                    let i = choose|i: int|
                        0 <= i < self.connections@.len() && self.connections@[i].protocol_id == q;
                    assert(i < pre.len());
                    assert(pre[i].protocol_id == q);
                }
            }
            assert forall|q: ProtocolId| q != pid implies #[trigger] self.spec_queue_closed(q)
                == old(self).spec_queue_closed(q) by {
                assert(self.spec_has(q) == old(self).spec_has(q));
                if old(self).spec_has(q) {
                    let i = old(self).spec_index_of(q);
                    assert(0 <= i < pre.len() && pre[i].protocol_id == q);
                    let j = self.spec_index_of(q);
                    assert(0 <= j < self.connections@.len() && self.connections@[j].protocol_id
                        == q);
                    assert(j < pre.len());
                    assert(i == j);
                }
            }
            assert forall|q: ProtocolId| q != pid implies #[trigger] self.spec_queue_capacity(q)
                == old(self).spec_queue_capacity(q) by {
                assert(self.spec_has(q) == old(self).spec_has(q));
                if old(self).spec_has(q) {
                    let i = old(self).spec_index_of(q);
                    assert(0 <= i < pre.len() && pre[i].protocol_id == q);
                    let j = self.spec_index_of(q);
                    assert(0 <= j < self.connections@.len() && self.connections@[j].protocol_id
                        == q);
                    assert(j < pre.len());
                    assert(i == j);
                }
            }
            assert forall|q: ProtocolId| q != pid implies #[trigger] self.spec_queue_policy(q)
                == old(self).spec_queue_policy(q) by {
                assert(self.spec_has(q) == old(self).spec_has(q));
                if old(self).spec_has(q) {
                    let i = old(self).spec_index_of(q);
                    assert(0 <= i < pre.len() && pre[i].protocol_id == q);
                    let j = self.spec_index_of(q);
                    assert(0 <= j < self.connections@.len() && self.connections@[j].protocol_id
                        == q);
                    assert(j < pre.len());
                    assert(i == j);
                }
            }
            assert forall|q: ProtocolId| q != pid implies #[trigger] self.spec_queue_label(q)
                == old(self).spec_queue_label(q) by {
                assert(self.spec_has(q) == old(self).spec_has(q));
                if old(self).spec_has(q) {
                    let i = old(self).spec_index_of(q);
                    assert(0 <= i < pre.len() && pre[i].protocol_id == q);
                    let j = self.spec_index_of(q);
                    assert(0 <= j < self.connections@.len() && self.connections@[j].protocol_id
                        == q);
                    assert(j < pre.len());
                    assert(i == j);
                }
            }
            assert forall|q: ProtocolId| q != pid && self.spec_has(q) implies #[trigger] self
                .spec_queue(q) == old(self).spec_queue(q) by {
                let i = self.spec_index_of(q);
                assert(0 <= i < self.connections@.len() && self.connections@[i].protocol_id == q);
                assert(i < pre.len());
                let j = old(self).spec_index_of(q);
                assert(0 <= j < pre.len() && pre[j].protocol_id == q);
                assert(self.connections@[j].protocol_id == q);
                // protocols are unique, so the chosen indices agree
                assert(i == j);
            }
            assert(self.spec_has(pid)) by {
                assert(self.connections@[pre.len() as int].protocol_id == pid);
            }
            assert(self.spec_index_of(pid) == pre.len() as int) by {
                let i = self.spec_index_of(pid);
                assert(0 <= i < self.connections@.len() && self.connections@[i].protocol_id == pid);
                if i < pre.len() {
                    assert(pre[i].protocol_id == pid);
                    assert(old(self).spec_has(pid));
                }
            }
        }
        Ok(())
    }

    /// The messages currently queued for `p` (how many).
    pub fn queue_len(&self, p: ProtocolId) -> (n: usize)
        requires
            self.wf(),
        ensures
            n == self.spec_queue(p).len(),
    {
        match self.find(p) {
            Some(i) => self.connections[i].queue.len(),
            None => 0,
        }
    }

    /// Whether the queue of `p` is closed (true if `p` is unregistered).
    pub fn queue_closed(&self, p: ProtocolId) -> (b: bool)
        requires
            self.wf(),
        ensures
            b == self.spec_queue_closed(p),
    {
        match self.find(p) {
            Some(i) => self.connections[i].queue.is_closed(),
            None => true,
        }
    }

    /// Index of the connection for `p`, when registered.
    fn find(&self, p: ProtocolId) -> (r: Option<usize>)
        requires
            self.wf(),
        ensures
            match r {
                Some(i) => {
                    &&& self.spec_has(p)
                    &&& i == self.spec_index_of(p)
                    &&& i < self.connections@.len()
                    &&& self.connections@[i as int].protocol_id == p
                },
                None => !self.spec_has(p),
            },
    {
        let mut i: usize = 0;
        while i < self.connections.len()
            invariant
                self.wf(),
                i <= self.connections@.len(),
                forall|k: int| 0 <= k < i ==> (#[trigger] self.connections@[k]).protocol_id != p,
            decreases self.connections@.len() - i,
        {
            if self.connections[i].protocol_id == p {
                proof {
                    let j = self.spec_index_of(p);
                    assert(0 <= j < self.connections@.len() && self.connections@[j].protocol_id
                        == p);
                    assert(j == i as int);
                }
                return Some(i);
            }
            i = i + 1;
        }
        None
    }

    /// Deliver one inbound message into the queue of its own protocol,
    /// exactly as that queue's bound and policy dictate: delivered while
    /// below capacity, refused or dropping the oldest at capacity, refused
    /// outright once closed. Every other protocol's queue is untouched.
    pub fn route(&mut self, m: ReceivedMessage) -> (r: RouteOutcome)
        requires
            old(self).wf(),
        ensures
            final(self).wf(),
            forall|q: ProtocolId| #[trigger]
                final(self).spec_has(q) == old(self).spec_has(q),
            forall|q: ProtocolId|
                q != m.protocol_id ==> #[trigger] final(self).spec_queue(q) == old(self).spec_queue(
                    q,
                ),
            forall|q: ProtocolId| #[trigger]
                final(self).spec_queue_closed(q) == old(self).spec_queue_closed(q),
            forall|q: ProtocolId| #[trigger]
                final(self).spec_queue_capacity(q) == old(self).spec_queue_capacity(q),
            forall|q: ProtocolId| #[trigger]
                final(self).spec_queue_policy(q) == old(self).spec_queue_policy(q),
            forall|q: ProtocolId| #[trigger]
                final(self).spec_queue_label(q) == old(self).spec_queue_label(q),
            match r {
                RouteOutcome::NoSuchProtocol => {
                    &&& !old(self).spec_has(m.protocol_id)
                    &&& *final(self) == *old(self)
                },
                RouteOutcome::Queued(o) => {
                    &&& old(self).spec_has(m.protocol_id)
                    &&& match o {
                        PushOutcome::Delivered => {
                            &&& !old(self).spec_queue_closed(m.protocol_id)
                            &&& old(self).spec_queue(m.protocol_id).len() < old(
                                self,
                            ).spec_queue_capacity(m.protocol_id)
                            &&& final(self).spec_queue(m.protocol_id) == old(self).spec_queue(
                                m.protocol_id,
                            ).push(m)
                        },
                        PushOutcome::DroppedOldest => {
                            &&& !old(self).spec_queue_closed(m.protocol_id)
                            &&& old(self).spec_queue(m.protocol_id).len() == old(
                                self,
                            ).spec_queue_capacity(m.protocol_id)
                            &&& old(self).spec_queue_policy(m.protocol_id)
                                == QueuePolicy::DropOldest
                            &&& final(self).spec_queue(m.protocol_id) == old(self).spec_queue(
                                m.protocol_id,
                            ).drop_first().push(m)
                        },
                        PushOutcome::WouldBlock => {
                            &&& !old(self).spec_queue_closed(m.protocol_id)
                            &&& old(self).spec_queue(m.protocol_id).len() == old(
                                self,
                            ).spec_queue_capacity(m.protocol_id)
                            &&& old(self).spec_queue_policy(m.protocol_id) == QueuePolicy::Blocking
                            &&& final(self).spec_queue(m.protocol_id) == old(self).spec_queue(
                                m.protocol_id,
                            )
                        },
                        PushOutcome::Closed => {
                            &&& old(self).spec_queue_closed(m.protocol_id)
                            &&& final(self).spec_queue(m.protocol_id) == old(self).spec_queue(
                                m.protocol_id,
                            )
                        },
                    }
                },
            },
    {
        let pid = m.protocol_id;
        match self.find(pid) {
            None => RouteOutcome::NoSuchProtocol,
            Some(i) => {
                let outcome = self.with_queue_push(i, m);
                RouteOutcome::Queued(outcome)
            },
        }
    }

    /// Poll the queue of `p` for its oldest message. Every other protocol's
    /// queue is untouched; an unregistered protocol yields nothing.
    pub fn poll_protocol(&mut self, p: ProtocolId) -> (r: Option<ReceivedMessage>)
        requires
            old(self).wf(),
        ensures
            final(self).wf(),
            forall|q: ProtocolId| #[trigger]
                final(self).spec_has(q) == old(self).spec_has(q),
            forall|q: ProtocolId|
                q != p ==> #[trigger] final(self).spec_queue(q) == old(self).spec_queue(q),
            forall|q: ProtocolId| #[trigger]
                final(self).spec_queue_closed(q) == old(self).spec_queue_closed(q),
            forall|q: ProtocolId| #[trigger]
                final(self).spec_queue_capacity(q) == old(self).spec_queue_capacity(q),
            forall|q: ProtocolId| #[trigger]
                final(self).spec_queue_policy(q) == old(self).spec_queue_policy(q),
            forall|q: ProtocolId| #[trigger]
                final(self).spec_queue_label(q) == old(self).spec_queue_label(q),
            match r {
                Some(m) => {
                    &&& old(self).spec_queue(p).len() > 0
                    &&& m == old(self).spec_queue(p)[0]
                    &&& m.protocol_id == p
                    &&& final(self).spec_queue(p) == old(self).spec_queue(p).drop_first()
                },
                None => {
                    &&& old(self).spec_queue(p).len() == 0
                    &&& *final(self) == *old(self)
                },
            },
    {
        match self.find(p) {
            None => None,
            Some(i) => self.with_queue_poll(i),
        }
    }

    /// Close the queue of `p`. Every other queue, and everything queued in
    /// `p` itself, is untouched.
    pub fn close_protocol(&mut self, p: ProtocolId)
        requires
            old(self).wf(),
        ensures
            final(self).wf(),
            forall|q: ProtocolId| #[trigger]
                final(self).spec_has(q) == old(self).spec_has(q),
            forall|q: ProtocolId| #[trigger]
                final(self).spec_queue(q) == old(self).spec_queue(q),
            forall|q: ProtocolId| #[trigger]
                final(self).spec_queue_capacity(q) == old(self).spec_queue_capacity(q),
            forall|q: ProtocolId| #[trigger]
                final(self).spec_queue_policy(q) == old(self).spec_queue_policy(q),
            forall|q: ProtocolId| #[trigger]
                final(self).spec_queue_label(q) == old(self).spec_queue_label(q),
            forall|q: ProtocolId|
                q != p ==> #[trigger] final(self).spec_queue_closed(q) == old(self).spec_queue_closed(q),
            old(self).spec_has(p) ==> final(self).spec_queue_closed(p),
            !old(self).spec_has(p) ==> *final(self) == *old(self),
    {
        match self.find(p) {
            None => {},
            Some(i) => {
                self.with_queue_close(i);
            },
        }
    }

    /// Push into the queue at index `i`, leaving every other entry in place.
    fn with_queue_push(&mut self, i: usize, m: ReceivedMessage) -> (r: PushOutcome)
        requires
            old(self).wf(),
            i < old(self).connections@.len(),
            old(self).connections@[i as int].protocol_id == m.protocol_id,
        ensures
            final(self).wf(),
            final(self).connections@.len() == old(self).connections@.len(),
            forall|k: int|
                0 <= k < old(self).connections@.len() && k != i ==> final(self).connections@[k]
                    == old(self).connections@[k],
            final(self).connections@[i as int].protocol_id == old(self).connections@[
                i as int
            ].protocol_id,
            final(self).connections@[i as int].label == old(self).connections@[i as int].label,
            final(self).connections@[i as int].queue.spec_closed() == old(self).connections@[
                i as int
            ].queue.spec_closed(),
            forall|q: ProtocolId| #[trigger]
                final(self).spec_has(q) == old(self).spec_has(q),
            forall|q: ProtocolId|
                q != m.protocol_id ==> #[trigger] final(self).spec_queue(q) == old(self).spec_queue(
                    q,
                ),
            forall|q: ProtocolId| #[trigger]
                final(self).spec_queue_closed(q) == old(self).spec_queue_closed(q),
            forall|q: ProtocolId| #[trigger]
                final(self).spec_queue_capacity(q) == old(self).spec_queue_capacity(q),
            forall|q: ProtocolId| #[trigger]
                final(self).spec_queue_policy(q) == old(self).spec_queue_policy(q),
            forall|q: ProtocolId| #[trigger]
                final(self).spec_queue_label(q) == old(self).spec_queue_label(q),
            old(self).spec_has(m.protocol_id),
            ({
                let p = m.protocol_id;
                match r {
                    PushOutcome::Delivered => {
                        &&& !old(self).spec_queue_closed(p)
                        &&& old(self).spec_queue(p).len() < old(self).spec_queue_capacity(p)
                        &&& final(self).spec_queue(p) == old(self).spec_queue(p).push(m)
                    },
                    PushOutcome::DroppedOldest => {
                        &&& !old(self).spec_queue_closed(p)
                        &&& old(self).spec_queue(p).len() == old(self).spec_queue_capacity(p)
                        &&& old(self).spec_queue_policy(p) == QueuePolicy::DropOldest
                        &&& final(self).spec_queue(p) == old(self).spec_queue(
                            p,
                        ).drop_first().push(m)
                    },
                    PushOutcome::WouldBlock => {
                        &&& !old(self).spec_queue_closed(p)
                        &&& old(self).spec_queue(p).len() == old(self).spec_queue_capacity(p)
                        &&& old(self).spec_queue_policy(p) == QueuePolicy::Blocking
                        &&& final(self).spec_queue(p) == old(self).spec_queue(p)
                    },
                    PushOutcome::Closed => {
                        &&& old(self).spec_queue_closed(p)
                        &&& final(self).spec_queue(p) == old(self).spec_queue(p)
                    },
                }
            }),
    {
        let ghost pre = *old(self);
        let ghost pid = old(self).connections@[i as int].protocol_id;
        let mut conn = self.connections.remove(i);
        let outcome = conn.queue.push(m);
        self.connections.insert(i, conn);
        proof {
            assert(self.connections@ =~= pre.connections@.update(
                i as int,
                self.connections@[i as int],
            ));
            assert(pre.connections@[i as int].wf());
            assert(self.connections@[i as int].wf()) by {
                let qv = self.connections@[i as int].queue@;
                let pq = pre.connections@[i as int].queue@;
                assert forall|k: int| 0 <= k < qv.len() implies (#[trigger] qv[k]).protocol_id
                    == pid by {
                    assert(forall|l: int|
                        0 <= l < pq.len() ==> (#[trigger] pq[l]).protocol_id == pid);
                }
            }
            self.lemma_update_frame(pre, i as int);
            assert(pre.spec_queue(pid) == pre.connections@[i as int].queue@);
            assert(pre.spec_queue_closed(pid) == pre.connections@[i as int].queue.spec_closed());
            assert(pre.spec_queue_capacity(pid) == pre.connections@[
                i as int
            ].queue.spec_capacity());
            assert(pre.spec_queue_policy(pid) == pre.connections@[i as int].queue.spec_policy());
            assert(pre.spec_queue_label(pid) == pre.connections@[i as int].label@);
            assert forall|q: ProtocolId| #[trigger] self.spec_queue_capacity(q)
                == pre.spec_queue_capacity(q) by {
                if q == pid {
                }
            }
            assert forall|q: ProtocolId| #[trigger] self.spec_queue_policy(q)
                == pre.spec_queue_policy(q) by {
                if q == pid {
                }
            }
            assert forall|q: ProtocolId| #[trigger] self.spec_queue_label(q)
                == pre.spec_queue_label(q) by {
                if q == pid {
                }
            }
        }
        outcome
    }

    /// Poll the queue at index `i`, leaving every other entry in place.
    fn with_queue_poll(&mut self, i: usize) -> (r: Option<ReceivedMessage>)
        requires
            old(self).wf(),
            i < old(self).connections@.len(),
        ensures
            final(self).wf(),
            forall|q: ProtocolId| #[trigger]
                final(self).spec_has(q) == old(self).spec_has(q),
            forall|q: ProtocolId|
                q != old(self).connections@[i as int].protocol_id ==> #[trigger] final(self).spec_queue(q) == old(self).spec_queue(q),
            forall|q: ProtocolId| #[trigger]
                final(self).spec_queue_closed(q) == old(self).spec_queue_closed(q),
            forall|q: ProtocolId| #[trigger]
                final(self).spec_queue_capacity(q) == old(self).spec_queue_capacity(q),
            forall|q: ProtocolId| #[trigger]
                final(self).spec_queue_policy(q) == old(self).spec_queue_policy(q),
            forall|q: ProtocolId| #[trigger]
                final(self).spec_queue_label(q) == old(self).spec_queue_label(q),
            ({
                let p = old(self).connections@[i as int].protocol_id;
                match r {
                    Some(m) => {
                        &&& old(self).spec_queue(p).len() > 0
                        &&& m == old(self).spec_queue(p)[0]
                        &&& m.protocol_id == p
                        &&& final(self).spec_queue(p) == old(self).spec_queue(p).drop_first()
                    },
                    None => {
                        &&& old(self).spec_queue(p).len() == 0
                        &&& *final(self) == *old(self)
                    },
                }
            }),
    {
        let ghost pre = *old(self);
        let ghost pid = old(self).connections@[i as int].protocol_id;
        proof {
            assert(pre.spec_has(pid)) by {
                assert(pre.connections@[i as int].protocol_id == pid);
            }
            assert(pre.spec_index_of(pid) == i as int) by {
                let j = pre.spec_index_of(pid);
                assert(0 <= j < pre.connections@.len() && pre.connections@[j].protocol_id == pid);
                if j != i as int {
                    assert(false);
                }
            }
        }
        if self.connections[i].queue.len() == 0 {
            return None;
        }
        let mut conn = self.connections.remove(i);
        let m = match conn.queue.poll() {
            crate::queue::PollOutcome::Message(m) => m,
            _ => vstd::pervasive::unreached(),
        };
        self.connections.insert(i, conn);
        proof {
            assert(self.connections@ =~= pre.connections@.update(
                i as int,
                self.connections@[i as int],
            ));
            assert(pre.connections@[i as int].wf());
            assert(self.connections@[i as int].wf()) by {
                let qv = self.connections@[i as int].queue@;
                let pq = pre.connections@[i as int].queue@;
                assert forall|k: int| 0 <= k < qv.len() implies (#[trigger] qv[k]).protocol_id
                    == pid by {
                    assert(forall|l: int|
                        0 <= l < pq.len() ==> (#[trigger] pq[l]).protocol_id == pid);
                }
            }
            self.lemma_update_frame(pre, i as int);
            assert(pre.spec_queue_capacity(pid) == pre.connections@[
                i as int
            ].queue.spec_capacity());
            assert(pre.spec_queue_policy(pid) == pre.connections@[i as int].queue.spec_policy());
            assert(pre.spec_queue_label(pid) == pre.connections@[i as int].label@);
            assert forall|q: ProtocolId| #[trigger] self.spec_queue_capacity(q)
                == pre.spec_queue_capacity(q) by {
                if q == pid {
                }
            }
            assert forall|q: ProtocolId| #[trigger] self.spec_queue_policy(q)
                == pre.spec_queue_policy(q) by {
                if q == pid {
                }
            }
            assert forall|q: ProtocolId| #[trigger] self.spec_queue_label(q)
                == pre.spec_queue_label(q) by {
                if q == pid {
                }
            }
        }
        Some(m)
    }

    /// Close the queue at index `i`, leaving every other entry in place.
    fn with_queue_close(&mut self, i: usize)
        requires
            old(self).wf(),
            i < old(self).connections@.len(),
        ensures
            final(self).wf(),
            forall|q: ProtocolId| #[trigger]
                final(self).spec_has(q) == old(self).spec_has(q),
            forall|q: ProtocolId| #[trigger]
                final(self).spec_queue(q) == old(self).spec_queue(q),
            forall|q: ProtocolId| #[trigger]
                final(self).spec_queue_capacity(q) == old(self).spec_queue_capacity(q),
            forall|q: ProtocolId| #[trigger]
                final(self).spec_queue_policy(q) == old(self).spec_queue_policy(q),
            forall|q: ProtocolId| #[trigger]
                final(self).spec_queue_label(q) == old(self).spec_queue_label(q),
            forall|q: ProtocolId|
                q != old(self).connections@[i as int].protocol_id ==> #[trigger] final(self).spec_queue_closed(q) == old(self).spec_queue_closed(q),
            final(self).spec_queue_closed(old(self).connections@[i as int].protocol_id),
    {
        let ghost pre = *old(self);
        let mut conn = self.connections.remove(i);
        conn.queue.close();
        self.connections.insert(i, conn);
        proof {
            assert(self.connections@ =~= pre.connections@.update(
                i as int,
                self.connections@[i as int],
            ));
            assert(pre.connections@[i as int].wf());
            assert(self.connections@[i as int].wf());
            self.lemma_update_frame(pre, i as int);
            let ghost pid = pre.connections@[i as int].protocol_id;
            assert(pre.spec_queue_capacity(pid) == pre.connections@[
                i as int
            ].queue.spec_capacity());
            assert(pre.spec_queue_policy(pid) == pre.connections@[i as int].queue.spec_policy());
            assert(pre.spec_queue_label(pid) == pre.connections@[i as int].label@);
            assert forall|q: ProtocolId| #[trigger] self.spec_queue_capacity(q)
                == pre.spec_queue_capacity(q) by {
                if q == pid {
                }
            }
            assert forall|q: ProtocolId| #[trigger] self.spec_queue_policy(q)
                == pre.spec_queue_policy(q) by {
                if q == pid {
                }
            }
            assert forall|q: ProtocolId| #[trigger] self.spec_queue_label(q)
                == pre.spec_queue_label(q) by {
                if q == pid {
                }
            }
        }
    }

    /// After updating the entry at `i` without changing its protocol, every
    /// lookup for another protocol is unchanged, and lookups for the entry's
    /// protocol land on `i` in both states.
    proof fn lemma_update_frame(&self, pre: Self, i: int)
        requires
            pre.wf(),
            0 <= i < pre.connections@.len(),
            self.connections@.len() == pre.connections@.len(),
            forall|k: int|
                0 <= k < pre.connections@.len() && k != i ==> self.connections@[k]
                    == pre.connections@[k],
            self.connections@[i].protocol_id == pre.connections@[i].protocol_id,
            self.connections@[i].wf(),
        ensures
            self.wf(),
            forall|q: ProtocolId| #[trigger] self.spec_has(q) == pre.spec_has(q),
            pre.spec_index_of(pre.connections@[i].protocol_id) == i,
            self.spec_index_of(pre.connections@[i].protocol_id) == i,
            forall|q: ProtocolId|
                q != pre.connections@[i].protocol_id ==> #[trigger] self.spec_queue(q)
                    == pre.spec_queue(q),
            forall|q: ProtocolId|
                q != pre.connections@[i].protocol_id ==> #[trigger] self.spec_queue_closed(q)
                    == pre.spec_queue_closed(q),
            self.spec_queue(pre.connections@[i].protocol_id) == self.connections@[i].queue@,
            self.spec_queue_closed(pre.connections@[i].protocol_id) == self.connections@[
                i
            ].queue.spec_closed(),
            forall|q: ProtocolId|
                q != pre.connections@[i].protocol_id ==> #[trigger] self.spec_queue_capacity(q)
                    == pre.spec_queue_capacity(q),
            forall|q: ProtocolId|
                q != pre.connections@[i].protocol_id ==> #[trigger] self.spec_queue_policy(q)
                    == pre.spec_queue_policy(q),
            forall|q: ProtocolId|
                q != pre.connections@[i].protocol_id ==> #[trigger] self.spec_queue_label(q)
                    == pre.spec_queue_label(q),
            self.spec_queue_capacity(pre.connections@[i].protocol_id) == self.connections@[
                i
            ].queue.spec_capacity(),
            self.spec_queue_policy(pre.connections@[i].protocol_id) == self.connections@[
                i
            ].queue.spec_policy(),
            self.spec_queue_label(pre.connections@[i].protocol_id) == self.connections@[i].label@,
    {
        let pid = pre.connections@[i].protocol_id;
        assert forall|q: ProtocolId| #[trigger] self.spec_has(q) == pre.spec_has(q) by {
            if pre.spec_has(q) {
                let k = choose|k: int|
                    0 <= k < pre.connections@.len() && pre.connections@[k].protocol_id == q;
                assert(self.connections@[k].protocol_id == q);
            }
            if self.spec_has(q) {
                let k = choose|k: int|
                    0 <= k < self.connections@.len() && self.connections@[k].protocol_id == q;
                assert(pre.connections@[k].protocol_id == q);
            }
        }
        assert(self.wf()) by {
            assert forall|k: int| 0 <= k < self.connections@.len() implies (#[trigger] self.connections@[k]).wf() by {
                if k != i {
                    assert(self.connections@[k] == pre.connections@[k]);
                    assert(pre.connections@[k].wf());
                }
            }
            assert forall|k: int, l: int|
                0 <= k < l < self.connections@.len() implies (#[trigger] self.connections@[k]).protocol_id
                != (#[trigger] self.connections@[l]).protocol_id by {
                assert(self.connections@[k].protocol_id == pre.connections@[k].protocol_id);
                assert(self.connections@[l].protocol_id == pre.connections@[l].protocol_id);
            }
        }
        assert(pre.spec_index_of(pid) == i) by {
            assert(pre.spec_has(pid)) by {
                assert(pre.connections@[i].protocol_id == pid);
            }
            let j = pre.spec_index_of(pid);
            assert(0 <= j < pre.connections@.len() && pre.connections@[j].protocol_id == pid);
        }
        assert(self.spec_index_of(pid) == i) by {
            assert(self.spec_has(pid)) by {
                assert(self.connections@[i].protocol_id == pid);
            }
            let j = self.spec_index_of(pid);
            assert(0 <= j < self.connections@.len() && self.connections@[j].protocol_id == pid);
            assert(self.connections@[j].protocol_id == pre.connections@[j].protocol_id);
        }
        assert forall|q: ProtocolId| q != pid && pre.spec_has(q) implies #[trigger] self.spec_queue(
            q,
        ) == pre.spec_queue(q) && self.spec_queue_closed(q) == pre.spec_queue_closed(q) by {
            let j = pre.spec_index_of(q);
            assert(0 <= j < pre.connections@.len() && pre.connections@[j].protocol_id == q);
            let k = self.spec_index_of(q);
            assert(0 <= k < self.connections@.len() && self.connections@[k].protocol_id == q);
            assert(self.connections@[k].protocol_id == pre.connections@[k].protocol_id);
            assert(k == j);
            assert(j != i);
        }
        assert forall|q: ProtocolId| q != pid implies #[trigger] self.spec_queue_capacity(q) == pre.spec_queue_capacity(
            q,
        ) by {
            assert(self.spec_has(q) == pre.spec_has(q));
            if pre.spec_has(q) {
                let j = pre.spec_index_of(q);
                assert(0 <= j < pre.connections@.len() && pre.connections@[j].protocol_id == q);
                let k = self.spec_index_of(q);
                assert(0 <= k < self.connections@.len() && self.connections@[k].protocol_id == q);
                assert(self.connections@[k].protocol_id == pre.connections@[k].protocol_id);
                assert(k == j);
                assert(j != i);
            }
        }
        assert forall|q: ProtocolId| q != pid implies #[trigger] self.spec_queue_policy(q) == pre.spec_queue_policy(
            q,
        ) by {
            assert(self.spec_has(q) == pre.spec_has(q));
            if pre.spec_has(q) {
                let j = pre.spec_index_of(q);
                assert(0 <= j < pre.connections@.len() && pre.connections@[j].protocol_id == q);
                let k = self.spec_index_of(q);
                assert(0 <= k < self.connections@.len() && self.connections@[k].protocol_id == q);
                assert(self.connections@[k].protocol_id == pre.connections@[k].protocol_id);
                assert(k == j);
                assert(j != i);
            }
        }
        assert forall|q: ProtocolId| q != pid implies #[trigger] self.spec_queue_label(q) == pre.spec_queue_label(
            q,
        ) by {
            assert(self.spec_has(q) == pre.spec_has(q));
            if pre.spec_has(q) {
                let j = pre.spec_index_of(q);
                assert(0 <= j < pre.connections@.len() && pre.connections@[j].protocol_id == q);
                let k = self.spec_index_of(q);
                assert(0 <= k < self.connections@.len() && self.connections@[k].protocol_id == q);
                assert(self.connections@[k].protocol_id == pre.connections@[k].protocol_id);
                assert(k == j);
                assert(j != i);
            }
        }
    }
}

/// No-cross-talk law, router side: in a well-formed router, every message
/// queued under protocol `p` bears `p` itself, so a consumer that drains only
/// other protocols' queues can never observe it.
pub proof fn lemma_no_cross_talk(c: &ApplicationCollector, p: ProtocolId, i: int)
    requires
        c.wf(),
        0 <= i < c.spec_queue(p).len(),
    ensures
        c.spec_queue(p)[i].protocol_id == p,
{
    let j = c.spec_index_of(p);
    assert(0 <= j < c.connections_view().len() && c.connections_view()[j].protocol_id == p);
}

impl ApplicationCollector {
    /// The registered connections, for stating facts about the router as a
    /// whole.
    pub closed spec fn connections_view(&self) -> Seq<ApplicationConnections> {
        self.connections@
    }
}

} // verus!
