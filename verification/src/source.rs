//! Inbound fan-in: one or many per-protocol receivers merged into a single
//! pollable stream. The merge is round-robin across the receivers (any fair
//! strategy would do; round-robin is what this implementation picks and
//! documents), strictly FIFO within each protocol's own queue, and signals
//! end-of-stream once every underlying queue is closed and drained.

use vstd::prelude::*;
use crate::collector::ApplicationCollector;
use crate::collector::ReceiverHandle;
use crate::error::FatalError;
use crate::protocol::ProtocolId;
use crate::queue::PollOutcome;
use crate::queue::ReceivedMessage;

verus! {

/// A single consumable stream over one application's receivers. The queues
/// themselves live in the shared router; the source carries the handles and
/// the round-robin cursor, and each poll names the router explicitly.
pub struct NetworkSource {
    receivers: Vec<ReceiverHandle>,
    cursor: usize,
}

impl NetworkSource {
    /// The protocols this source drains, in receiver order.
    pub closed spec fn spec_protocols(&self) -> Seq<ProtocolId> {
        self.receivers@.map(|_i: int, r: ReceiverHandle| r.protocol_id)
    }

    /// Whether `p` is one of this source's protocols.
    pub open spec fn spec_listens_to(&self, p: ProtocolId) -> bool {
        self.spec_protocols().contains(p)
    }

    /// Constructed with at least one receiver; the cursor stays in range.
    pub closed spec fn wf(&self) -> bool {
        &&& self.receivers@.len() >= 1
        &&& self.cursor < self.receivers@.len()
    }

    /// Wrap exactly one receiver.
    pub fn new_single_source(receiver: ReceiverHandle) -> (s: Self)
        ensures
            s.wf(),
            s.spec_protocols() == seq![receiver.protocol_id],
    {
        let receivers = vec![receiver];
        let s = NetworkSource { receivers, cursor: 0 };
        proof {
            assert(s.spec_protocols() =~= seq![receiver.protocol_id]);
        }
        s
    }

    /// Merge one or more receivers. An empty list is a fatal configuration
    /// error: an application with no inbound protocol cannot usefully exist.
    pub fn new_multi_source(receivers: Vec<ReceiverHandle>) -> (r: Result<Self, FatalError>)
        ensures
            match r {
                Ok(s) => {
                    &&& receivers@.len() >= 1
                    &&& s.wf()
                    &&& s.spec_protocols() == receivers@.map(
                        |_i: int, h: ReceiverHandle| h.protocol_id,
                    )
                },
                Err(e) => {
                    &&& e == FatalError::EmptyMessageSource
                    &&& receivers@.len() == 0
                },
            },
    {
        if receivers.len() == 0 {
            return Err(FatalError::EmptyMessageSource);
        }
        Ok(NetworkSource { receivers, cursor: 0 })
    }

    /// Every receiver's queue in `c` is empty.
    pub open spec fn spec_all_empty(&self, c: &ApplicationCollector) -> bool {
        forall|k: int|
            0 <= k < self.spec_protocols().len() ==> c.spec_queue(
                #[trigger] self.spec_protocols()[k],
            ).len() == 0
    }

    /// Every receiver's queue in `c` is closed.
    pub open spec fn spec_all_closed(&self, c: &ApplicationCollector) -> bool {
        forall|k: int|
            0 <= k < self.spec_protocols().len() ==> c.spec_queue_closed(
                #[trigger] self.spec_protocols()[k],
            )
    }

    /// Poll the next received message, scanning the receivers round-robin
    /// from the cursor. A yielded message is the oldest of its own queue;
    /// every other protocol's queue is untouched, so per-protocol FIFO order
    /// is preserved and no message ever crosses to a source that does not
    /// listen to its protocol.
    pub fn next(&mut self, c: &mut ApplicationCollector) -> (r: PollOutcome<ReceivedMessage>)
        requires
            old(self).wf(),
            old(c).wf(),
        ensures
            final(self).wf(),
            final(c).wf(),
            final(self).spec_protocols() == old(self).spec_protocols(),
            forall|q: ProtocolId| #[trigger] final(c).spec_has(q) == old(c).spec_has(q),
            forall|q: ProtocolId| #[trigger]
                final(c).spec_queue_closed(q) == old(c).spec_queue_closed(q),
            forall|q: ProtocolId| #[trigger]
                final(c).spec_queue_capacity(q) == old(c).spec_queue_capacity(q),
            forall|q: ProtocolId| #[trigger]
                final(c).spec_queue_policy(q) == old(c).spec_queue_policy(q),
            forall|q: ProtocolId| #[trigger]
                final(c).spec_queue_label(q) == old(c).spec_queue_label(q),
            match r {
                PollOutcome::Message(m) => {
                    &&& old(self).spec_listens_to(m.protocol_id)
                    &&& old(c).spec_queue(m.protocol_id).len() > 0
                    &&& m == old(c).spec_queue(m.protocol_id)[0]
                    &&& final(c).spec_queue(m.protocol_id) == old(c).spec_queue(
                        m.protocol_id,
                    ).drop_first()
                    &&& forall|q: ProtocolId|
                        q != m.protocol_id ==> #[trigger] final(c).spec_queue(q) == old(
                            c,
                        ).spec_queue(q)
                },
                PollOutcome::Pending => {
                    &&& old(self).spec_all_empty(old(c))
                    &&& !old(self).spec_all_closed(old(c))
                    &&& *final(c) == *old(c)
                },
                PollOutcome::EndOfStream => {
                    &&& old(self).spec_all_empty(old(c))
                    &&& old(self).spec_all_closed(old(c))
                    &&& *final(c) == *old(c)
                },
            },
    {
        let ghost c0 = *old(c);
        let n = self.receivers.len();
        let mut i: usize = 0;
        let mut all_closed = true;
        while i < n
            invariant
                self.wf(),
                c.wf(),
                n == self.receivers@.len(),
                i <= n,
                c0 == *old(c),
                *c == c0,
                *self == *old(self),
                forall|k: int|
                    0 <= k < i ==> c0.spec_queue(
                        #[trigger] self.spec_protocols()[add_mod(self.cursor as int, k, n as int)],
                    ).len() == 0,
                all_closed <==> forall|k: int|
                    0 <= k < i ==> c0.spec_queue_closed(
                        #[trigger] self.spec_protocols()[add_mod(self.cursor as int, k, n as int)],
                    ),
            decreases n - i,
        {
            let idx = if i < n - self.cursor {
                self.cursor + i
            } else {
                i - (n - self.cursor)
            };
            proof {
                assert(idx as int == add_mod(self.cursor as int, i as int, n as int));
                assert(self.spec_protocols()[idx as int] == self.receivers@[idx as int].protocol_id);
            }
            let p = self.receivers[idx].protocol_id;
            match c.poll_protocol(p) {
                Some(m) => {
                    self.cursor = if idx + 1 < n {
                        idx + 1
                    } else {
                        0
                    };
                    proof {
                        assert(old(self).spec_protocols().contains(p)) by {
                            assert(old(self).spec_protocols()[idx as int] == p);
                        }
                    }
                    return PollOutcome::Message(m);
                },
                None => {
                    let closed = c.queue_closed(p);
                    all_closed = all_closed && closed;
                    proof {
                        assert forall|k: int|
                            0 <= k < i + 1 implies c0.spec_queue(
                            #[trigger] self.spec_protocols()[add_mod(
                                self.cursor as int,
                                k,
                                n as int,
                            )],
                        ).len() == 0 by {
                            if k == i as int {
                                assert(add_mod(self.cursor as int, k, n as int) == idx as int);
                            }
                        }
                    }
                },
            }
            i = i + 1;
        }
        proof {
            let cur = self.cursor as int;
            assert forall|k: int| 0 <= k < self.spec_protocols().len() implies c0.spec_queue(
                #[trigger] self.spec_protocols()[k],
            ).len() == 0 by {
                let j = wrap_offset(cur, k, n as int);
                assert(add_mod(cur, j, n as int) == k);
                assert(c0.spec_queue(self.spec_protocols()[add_mod(cur, j, n as int)]).len() == 0);
            }
            if all_closed {
                assert forall|k: int|
                    0 <= k < self.spec_protocols().len() implies c0.spec_queue_closed(
                    #[trigger] self.spec_protocols()[k],
                ) by {
                    let j = wrap_offset(cur, k, n as int);
                    assert(add_mod(cur, j, n as int) == k);
                    assert(c0.spec_queue_closed(self.spec_protocols()[add_mod(cur, j, n as int)]));
                }
            } else {
                assert(!(forall|k: int|
                    0 <= k < n ==> c0.spec_queue_closed(
                        #[trigger] self.spec_protocols()[add_mod(cur, k, n as int)],
                    )));
                let k0 = choose|k: int|
                    0 <= k < n && !c0.spec_queue_closed(
                        #[trigger] self.spec_protocols()[add_mod(cur, k, n as int)],
                    );
                assert(!self.spec_all_closed(&c0)) by {
                    let idx = add_mod(cur, k0, n as int);
                    assert(0 <= idx < n);
                    assert(!c0.spec_queue_closed(self.spec_protocols()[idx]));
                }
            }
        }
        if all_closed {
            PollOutcome::EndOfStream
        } else {
            PollOutcome::Pending
        }
    }
}

/// The scan offset that reaches absolute index `k` from `cursor` in a ring
/// of `n` positions.
spec fn wrap_offset(cursor: int, k: int, n: int) -> int {
    if k >= cursor {
        k - cursor
    } else {
        k + n - cursor
    }
}

/// Wrap-around index of the round-robin scan: position `cursor + k`, reduced
/// into `[0, n)`.
spec fn add_mod(cursor: int, k: int, n: int) -> int {
    if cursor + k < n {
        cursor + k
    } else {
        cursor + k - n
    }
}

} // verus!
