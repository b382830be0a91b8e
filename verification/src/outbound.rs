//! Registry of live outbound sender handles, keyed by peer per logical
//! network. Shared by every application on a network; mutated on connection
//! open and close, read on every outbound dispatch. Each handle carries the
//! queue of messages handed to the transport for that peer.

use vstd::prelude::*;
use crate::error::SendError;
use crate::ids::NetworkId;
use crate::ids::PeerId;
use crate::protocol::ProtocolId;

verus! {

/// An outbound message as handed to the transport: destination, logical
/// network, protocol tag, and the serialized payload.
#[derive(Clone, Debug, PartialEq, Eq)]
pub struct OutboundMessage {
    pub to: PeerId,
    pub network_id: NetworkId,
    pub protocol_id: ProtocolId,
    pub data: Vec<u8>,
}

struct OutboundEntry {
    network_id: NetworkId,
    peer_id: PeerId,
    outbox: Vec<OutboundMessage>,
}

/// Live outbound connections: peer identity → pending outbound queue, one
/// entry per (logical network, peer) while the connection is open.
pub struct OutboundPeerConnections {
    entries: Vec<OutboundEntry>,
}

impl OutboundPeerConnections {
    pub closed spec fn spec_connected(&self, n: NetworkId, p: PeerId) -> bool {
        exists|i: int|
            0 <= i < self.entries@.len() && (#[trigger] self.entries@[i]).network_id == n
                && self.entries@[i].peer_id == p
    }

    pub closed spec fn spec_index_of(&self, n: NetworkId, p: PeerId) -> int {
        choose|i: int|
            0 <= i < self.entries@.len() && (#[trigger] self.entries@[i]).network_id == n
                && self.entries@[i].peer_id == p
    }

    /// Messages pending for the transport towards `p` on `n`, oldest first
    /// (empty if no connection is tracked).
    pub closed spec fn spec_outbox(&self, n: NetworkId, p: PeerId) -> Seq<OutboundMessage> {
        if self.spec_connected(n, p) {
            self.entries@[self.spec_index_of(n, p)].outbox@
        } else {
            Seq::empty()
        }
    }

    /// Keys are unique.
    pub closed spec fn wf(&self) -> bool {
        forall|i: int, j: int|
            0 <= i < j < self.entries@.len() ==> !((#[trigger] self.entries@[i]).network_id
                == (#[trigger] self.entries@[j]).network_id && self.entries@[i].peer_id
                == self.entries@[j].peer_id)
    }

    /// No connections yet.
    pub fn new() -> (r: Self)
        ensures
            r.wf(),
            forall|n: NetworkId, p: PeerId| !r.spec_connected(n, p),
    {
        OutboundPeerConnections { entries: Vec::new() }
    }

    fn find(&self, n: NetworkId, p: PeerId) -> (r: Option<usize>)
        requires
            self.wf(),
        ensures
            match r {
                Some(i) => {
                    &&& self.spec_connected(n, p)
                    &&& i == self.spec_index_of(n, p)
                    &&& i < self.entries@.len()
                    &&& self.entries@[i as int].network_id == n
                    &&& self.entries@[i as int].peer_id == p
                },
                None => !self.spec_connected(n, p),
            },
    {
        let mut i: usize = 0;
        while i < self.entries.len()
            invariant
                self.wf(),
                i <= self.entries@.len(),
                forall|k: int|
                    0 <= k < i ==> !((#[trigger] self.entries@[k]).network_id == n
                        && self.entries@[k].peer_id == p),
            decreases self.entries@.len() - i,
        {
            if self.entries[i].network_id == n && self.entries[i].peer_id == p {
                proof {
                    let j = self.spec_index_of(n, p);
                    assert(0 <= j < self.entries@.len() && self.entries@[j].network_id == n
                        && self.entries@[j].peer_id == p);
                    assert(j == i as int);
                }
                return Some(i);
            }
            i = i + 1;
        }
        None
    }

    pub fn is_connected(&self, n: NetworkId, p: PeerId) -> (b: bool)
        requires
            self.wf(),
        ensures
            b == self.spec_connected(n, p),
    {
        self.find(n, p).is_some()
    }

    /// Track a newly opened connection with an empty outbox. Opening a
    /// connection that is already tracked leaves everything unchanged.
    /// Returns whether the connection is new.
    pub fn insert_connection(&mut self, n: NetworkId, p: PeerId) -> (r: bool)
        requires
            old(self).wf(),
        ensures
            final(self).wf(),
            r == !old(self).spec_connected(n, p),
            final(self).spec_connected(n, p),
            r ==> final(self).spec_outbox(n, p) == Seq::<OutboundMessage>::empty(),
            !r ==> *final(self) == *old(self),
            forall|n2: NetworkId, p2: PeerId|
                !(n2 == n && p2 == p) ==> #[trigger] final(self).spec_connected(n2, p2) == old(
                    self,
                ).spec_connected(n2, p2),
            forall|n2: NetworkId, p2: PeerId|
                !(n2 == n && p2 == p) ==> #[trigger] final(self).spec_outbox(n2, p2) == old(
                    self,
                ).spec_outbox(n2, p2),
    {
        let ghost pre = *old(self);
        match self.find(n, p) {
            Some(_i) => false,
            None => {
                self.entries.push(OutboundEntry { network_id: n, peer_id: p, outbox: Vec::new() });
                proof {
                    self.lemma_push_frame(pre, n, p);
                }
                true
            },
        }
    }

    /// Stop tracking a connection on close. Every other connection and its
    /// outbox is untouched; whatever was pending for the closed peer is
    /// discarded (the transport can no longer deliver it anyway). Returns
    /// whether a connection was tracked.
    pub fn remove_connection(&mut self, n: NetworkId, p: PeerId) -> (r: bool)
        requires
            old(self).wf(),
        ensures
            final(self).wf(),
            r == old(self).spec_connected(n, p),
            !final(self).spec_connected(n, p),
            !old(self).spec_connected(n, p) ==> *final(self) == *old(self),
            forall|n2: NetworkId, p2: PeerId|
                !(n2 == n && p2 == p) ==> #[trigger] final(self).spec_connected(n2, p2) == old(
                    self,
                ).spec_connected(n2, p2),
            forall|n2: NetworkId, p2: PeerId|
                !(n2 == n && p2 == p) ==> #[trigger] final(self).spec_outbox(n2, p2) == old(
                    self,
                ).spec_outbox(n2, p2),
    {
        let ghost pre = *old(self);
        match self.find(n, p) {
            None => false,
            Some(i) => {
                let _removed = self.entries.remove(i);
                proof {
                    self.lemma_remove_frame(pre, i as int);
                }
                true
            },
        }
    }

    /// Hand one message to the connection's outbox. Fails with a
    /// "no longer reachable" condition when no live connection is tracked
    /// (for example during teardown); nothing changes then.
    pub fn enqueue(&mut self, n: NetworkId, p: PeerId, m: OutboundMessage) -> (r: Result<
        (),
        SendError,
    >)
        requires
            old(self).wf(),
        ensures
            final(self).wf(),
            match r {
                Ok(()) => {
                    &&& old(self).spec_connected(n, p)
                    &&& final(self).spec_outbox(n, p) == old(self).spec_outbox(n, p).push(m)
                    &&& forall|n2: NetworkId, p2: PeerId| #[trigger]
                        final(self).spec_connected(n2, p2) == old(self).spec_connected(n2, p2)
                    &&& forall|n2: NetworkId, p2: PeerId|
                        !(n2 == n && p2 == p) ==> #[trigger] final(self).spec_outbox(n2, p2)
                            == old(self).spec_outbox(n2, p2)
                },
                Err(e) => {
                    &&& e == SendError::PeerNotConnected(p)
                    &&& !old(self).spec_connected(n, p)
                    &&& *final(self) == *old(self)
                },
            },
    {
        let ghost pre = *old(self);
        match self.find(n, p) {
            None => Err(SendError::PeerNotConnected(p)),
            Some(i) => {
                let mut e = self.entries.remove(i);
                e.outbox.push(m);
                self.entries.insert(i, e);
                proof {
                    assert(self.entries@ =~= pre.entries@.update(i as int, self.entries@[i as int]));
                    self.lemma_update_frame(pre, i as int);
                }
                Ok(())
            },
        }
    }

    /// Take everything pending for the transport towards `p` on `n`,
    /// leaving the outbox empty. `None` when no connection is tracked.
    pub fn drain(&mut self, n: NetworkId, p: PeerId) -> (r: Option<Vec<OutboundMessage>>)
        requires
            old(self).wf(),
        ensures
            final(self).wf(),
            forall|n2: NetworkId, p2: PeerId| #[trigger]
                final(self).spec_connected(n2, p2) == old(self).spec_connected(n2, p2),
            match r {
                Some(v) => {
                    &&& old(self).spec_connected(n, p)
                    &&& v@ == old(self).spec_outbox(n, p)
                    &&& final(self).spec_outbox(n, p) == Seq::<OutboundMessage>::empty()
                    &&& forall|n2: NetworkId, p2: PeerId|
                        !(n2 == n && p2 == p) ==> #[trigger] final(self).spec_outbox(n2, p2)
                            == old(self).spec_outbox(n2, p2)
                },
                None => {
                    &&& !old(self).spec_connected(n, p)
                    &&& *final(self) == *old(self)
                },
            },
    {
        let ghost pre = *old(self);
        match self.find(n, p) {
            None => None,
            Some(i) => {
                let mut e = self.entries.remove(i);
                let taken = e.outbox;
                e.outbox = Vec::new();
                self.entries.insert(i, e);
                proof {
                    assert(self.entries@ =~= pre.entries@.update(i as int, self.entries@[i as int]));
                    self.lemma_update_frame(pre, i as int);
                }
                Some(taken)
            },
        }
    }

    /// After replacing the entry at `i` by one with the same key, every
    /// other key reads as before and `wf` is preserved.
    proof fn lemma_update_frame(&self, pre: Self, i: int)
        requires
            pre.wf(),
            0 <= i < pre.entries@.len(),
            self.entries@.len() == pre.entries@.len(),
            forall|k: int|
                0 <= k < pre.entries@.len() && k != i ==> self.entries@[k] == pre.entries@[k],
            self.entries@[i].network_id == pre.entries@[i].network_id,
            self.entries@[i].peer_id == pre.entries@[i].peer_id,
        ensures
            self.wf(),
            forall|n2: NetworkId, p2: PeerId| #[trigger]
                self.spec_connected(n2, p2) == pre.spec_connected(n2, p2),
            self.spec_outbox(pre.entries@[i].network_id, pre.entries@[i].peer_id)
                == self.entries@[i].outbox@,
            forall|n2: NetworkId, p2: PeerId|
                !(n2 == pre.entries@[i].network_id && p2 == pre.entries@[i].peer_id)
                    ==> #[trigger] self.spec_outbox(n2, p2) == pre.spec_outbox(n2, p2),
    {
        let n = pre.entries@[i].network_id;
        let p = pre.entries@[i].peer_id;
        assert forall|n2: NetworkId, p2: PeerId| #[trigger] self.spec_connected(n2, p2)
            == pre.spec_connected(n2, p2) by {
            if pre.spec_connected(n2, p2) {
                let k = pre.spec_index_of(n2, p2);
                assert(0 <= k < pre.entries@.len() && pre.entries@[k].network_id == n2
                    && pre.entries@[k].peer_id == p2);
                assert(self.entries@[k].network_id == n2 && self.entries@[k].peer_id == p2);
            }
            if self.spec_connected(n2, p2) {
                let k = self.spec_index_of(n2, p2);
                assert(0 <= k < self.entries@.len() && self.entries@[k].network_id == n2
                    && self.entries@[k].peer_id == p2);
                assert(pre.entries@[k].network_id == n2 && pre.entries@[k].peer_id == p2);
            }
        }
        assert(self.wf()) by {
            assert forall|k: int, l: int| 0 <= k < l < self.entries@.len() implies !((
            #[trigger] self.entries@[k]).network_id == (#[trigger] self.entries@[l]).network_id
                && self.entries@[k].peer_id == self.entries@[l].peer_id) by {
                assert(self.entries@[k].network_id == pre.entries@[k].network_id
                    && self.entries@[k].peer_id == pre.entries@[k].peer_id);
                assert(self.entries@[l].network_id == pre.entries@[l].network_id
                    && self.entries@[l].peer_id == pre.entries@[l].peer_id);
            }
        }
        assert(self.spec_index_of(n, p) == i) by {
            assert(self.spec_connected(n, p)) by {
                assert(self.entries@[i].network_id == n && self.entries@[i].peer_id == p);
            }
            let j = self.spec_index_of(n, p);
            assert(0 <= j < self.entries@.len() && self.entries@[j].network_id == n
                && self.entries@[j].peer_id == p);
            assert(pre.entries@[j].network_id == n && pre.entries@[j].peer_id == p);
        }
        assert forall|n2: NetworkId, p2: PeerId|
            !(n2 == n && p2 == p) && pre.spec_connected(n2, p2) implies #[trigger] self.spec_outbox(
            n2,
            p2,
        ) == pre.spec_outbox(n2, p2) by {
            let k = pre.spec_index_of(n2, p2);
            assert(0 <= k < pre.entries@.len() && pre.entries@[k].network_id == n2
                && pre.entries@[k].peer_id == p2);
            let l = self.spec_index_of(n2, p2);
            assert(0 <= l < self.entries@.len() && self.entries@[l].network_id == n2
                && self.entries@[l].peer_id == p2);
            assert(pre.entries@[l].network_id == n2 && pre.entries@[l].peer_id == p2);
            assert(k == l);
            assert(k != i);
        }
    }

    /// After appending an entry with a fresh key, every other key reads as
    /// before and `wf` is preserved.
    proof fn lemma_push_frame(&self, pre: Self, n: NetworkId, p: PeerId)
        requires
            pre.wf(),
            !pre.spec_connected(n, p),
            self.entries@.len() == pre.entries@.len() + 1,
            forall|k: int| 0 <= k < pre.entries@.len() ==> self.entries@[k] == pre.entries@[k],
            self.entries@[pre.entries@.len() as int].network_id == n,
            self.entries@[pre.entries@.len() as int].peer_id == p,
        ensures
            self.wf(),
            self.spec_connected(n, p),
            self.spec_outbox(n, p) == self.entries@[pre.entries@.len() as int].outbox@,
            forall|n2: NetworkId, p2: PeerId|
                !(n2 == n && p2 == p) ==> #[trigger] self.spec_connected(n2, p2)
                    == pre.spec_connected(n2, p2),
            forall|n2: NetworkId, p2: PeerId|
                !(n2 == n && p2 == p) ==> #[trigger] self.spec_outbox(n2, p2) == pre.spec_outbox(
                    n2,
                    p2,
                ),
    {
        let last = pre.entries@.len() as int;
        assert forall|n2: NetworkId, p2: PeerId| !(n2 == n && p2 == p) implies #[trigger] self
            .spec_connected(n2, p2) == pre.spec_connected(n2, p2) by {
            if pre.spec_connected(n2, p2) {
                let k = pre.spec_index_of(n2, p2);
                assert(0 <= k < pre.entries@.len() && pre.entries@[k].network_id == n2
                    && pre.entries@[k].peer_id == p2);
                assert(self.entries@[k].network_id == n2 && self.entries@[k].peer_id == p2);
            }
            if self.spec_connected(n2, p2) {
                let k = self.spec_index_of(n2, p2);
                assert(0 <= k < self.entries@.len() && self.entries@[k].network_id == n2
                    && self.entries@[k].peer_id == p2);
                assert(k != last);
                assert(pre.entries@[k].network_id == n2 && pre.entries@[k].peer_id == p2);
            }
        }
        assert(self.wf()) by {
            assert forall|k: int, l: int| 0 <= k < l < self.entries@.len() implies !((
            #[trigger] self.entries@[k]).network_id == (#[trigger] self.entries@[l]).network_id
                && self.entries@[k].peer_id == self.entries@[l].peer_id) by {
                if l == last {
                    assert(self.entries@[k] == pre.entries@[k]);
                    if self.entries@[k].network_id == n && self.entries@[k].peer_id == p {
                        assert(pre.spec_connected(n, p));
                    }
                }
            }
        }
        assert(self.spec_connected(n, p)) by {
            assert(self.entries@[last].network_id == n && self.entries@[last].peer_id == p);
        }
        assert(self.spec_index_of(n, p) == last) by {
            let j = self.spec_index_of(n, p);
            assert(0 <= j < self.entries@.len() && self.entries@[j].network_id == n
                && self.entries@[j].peer_id == p);
            if j != last {
                assert(pre.entries@[j].network_id == n && pre.entries@[j].peer_id == p);
                assert(pre.spec_connected(n, p));
            }
        }
        assert forall|n2: NetworkId, p2: PeerId|
            !(n2 == n && p2 == p) && pre.spec_connected(n2, p2) implies #[trigger] self.spec_outbox(
            n2,
            p2,
        ) == pre.spec_outbox(n2, p2) by {
            let k = pre.spec_index_of(n2, p2);
            assert(0 <= k < pre.entries@.len() && pre.entries@[k].network_id == n2
                && pre.entries@[k].peer_id == p2);
            let l = self.spec_index_of(n2, p2);
            assert(0 <= l < self.entries@.len() && self.entries@[l].network_id == n2
                && self.entries@[l].peer_id == p2);
            assert(l != last);
            assert(pre.entries@[l].network_id == n2 && pre.entries@[l].peer_id == p2);
            assert(k == l);
        }
    }

    /// After removing the entry at `i`, its key reads as absent, every
    /// other key reads as before, and `wf` is preserved.
    proof fn lemma_remove_frame(&self, pre: Self, i: int)
        requires
            pre.wf(),
            0 <= i < pre.entries@.len(),
            self.entries@ == pre.entries@.remove(i),
        ensures
            self.wf(),
            !self.spec_connected(pre.entries@[i].network_id, pre.entries@[i].peer_id),
            forall|n2: NetworkId, p2: PeerId|
                !(n2 == pre.entries@[i].network_id && p2 == pre.entries@[i].peer_id)
                    ==> #[trigger] self.spec_connected(n2, p2) == pre.spec_connected(n2, p2),
            forall|n2: NetworkId, p2: PeerId|
                !(n2 == pre.entries@[i].network_id && p2 == pre.entries@[i].peer_id)
                    ==> #[trigger] self.spec_outbox(n2, p2) == pre.spec_outbox(n2, p2),
    {
        let n = pre.entries@[i].network_id;
        let p = pre.entries@[i].peer_id;
        assert(self.entries@.len() == pre.entries@.len() - 1);
        assert(forall|k: int| 0 <= k < i ==> self.entries@[k] == pre.entries@[k]);
        assert(forall|k: int|
            i <= k < self.entries@.len() ==> self.entries@[k] == pre.entries@[k + 1]);
        assert(!self.spec_connected(n, p)) by {
            if self.spec_connected(n, p) {
                let k = self.spec_index_of(n, p);
                assert(0 <= k < self.entries@.len() && self.entries@[k].network_id == n
                    && self.entries@[k].peer_id == p);
                if k < i {
                    assert(pre.entries@[k].network_id == n && pre.entries@[k].peer_id == p);
                } else {
                    assert(pre.entries@[k + 1].network_id == n && pre.entries@[k + 1].peer_id == p);
                }
            }
        }
        assert(self.wf()) by {
            assert forall|k: int, l: int| 0 <= k < l < self.entries@.len() implies !((
            #[trigger] self.entries@[k]).network_id == (#[trigger] self.entries@[l]).network_id
                && self.entries@[k].peer_id == self.entries@[l].peer_id) by {
                let k2 = if k < i { k } else { k + 1 };
                let l2 = if l < i { l } else { l + 1 };
                assert(self.entries@[k] == pre.entries@[k2]);
                assert(self.entries@[l] == pre.entries@[l2]);
            }
        }
        assert forall|n2: NetworkId, p2: PeerId|
            !(n2 == n && p2 == p) implies #[trigger] self.spec_connected(n2, p2)
            == pre.spec_connected(n2, p2) && self.spec_outbox(n2, p2) == pre.spec_outbox(
            n2,
            p2,
        ) by {
            if pre.spec_connected(n2, p2) {
                let k = pre.spec_index_of(n2, p2);
                assert(0 <= k < pre.entries@.len() && pre.entries@[k].network_id == n2
                    && pre.entries@[k].peer_id == p2);
                assert(k != i);
                let k3 = if k < i { k } else { k - 1 };
                assert(self.entries@[k3].network_id == n2 && self.entries@[k3].peer_id == p2);
                assert(self.spec_connected(n2, p2));
                let l = self.spec_index_of(n2, p2);
                assert(0 <= l < self.entries@.len() && self.entries@[l].network_id == n2
                    && self.entries@[l].peer_id == p2);
                let l2 = if l < i { l } else { l + 1 };
                assert(pre.entries@[l2].network_id == n2 && pre.entries@[l2].peer_id == p2);
                assert(l2 == k);
                assert(self.entries@[l].outbox@ == pre.entries@[k].outbox@);
            } else {
                if self.spec_connected(n2, p2) {
                    let l = self.spec_index_of(n2, p2);
                    assert(0 <= l < self.entries@.len() && self.entries@[l].network_id == n2
                        && self.entries@[l].peer_id == p2);
                    let l2 = if l < i { l } else { l + 1 };
                    assert(pre.entries@[l2].network_id == n2 && pre.entries@[l2].peer_id == p2);
                }
            }
        }
    }
}

} // verus!
