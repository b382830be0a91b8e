//! The two process-wide shared stores of one physical network: the peer and
//! metadata registry (the single source of truth for "is this peer currently
//! reachable, and how"), and the registry of live outbound senders used for
//! dispatch. Both are explicitly passed handles; every component that needs
//! them receives a reference, never ambient global state.

use vstd::prelude::*;
use crate::ids::NetworkId;
use crate::ids::PeerId;

verus! {

/// The trust class of a peer, as the handshake layer reported it.
#[derive(Clone, Copy, Debug, PartialEq, Eq, Structural, Hash)]
pub enum PeerRole {
    Validator,
    ValidatorFullNode,
    Unknown,
}

/// Connection metadata of one peer on one logical network.
#[derive(Clone, Copy, Debug, PartialEq, Eq, Structural)]
pub struct PeerMetadata {
    pub role: PeerRole,
    pub address: u64,
    pub healthy: bool,
}

/// A registry update was addressed to a logical network that the registry
/// was not created for.
#[derive(Clone, Copy, Debug, PartialEq, Eq, Structural)]
pub struct UntrackedNetwork(pub NetworkId);

struct PeerEntry {
    network_id: NetworkId,
    peer_id: PeerId,
    metadata: PeerMetadata,
}

/// Peer identity → connection metadata, scoped per logical network and
/// shared by every application on that network. The transport/orchestration
/// layer writes on connect and disconnect; clients read on every send. An
/// entry exists while, and only while, a connection is tracked.
pub struct PeersAndMetadata {
    network_ids: Vec<NetworkId>,
    entries: Vec<PeerEntry>,
}

impl PeersAndMetadata {
    /// The logical networks this registry was created for.
    pub closed spec fn spec_networks(&self) -> Seq<NetworkId> {
        self.network_ids@
    }

    pub open spec fn spec_tracks(&self, n: NetworkId) -> bool {
        self.spec_networks().contains(n)
    }

    pub closed spec fn spec_has(&self, n: NetworkId, p: PeerId) -> bool {
        exists|i: int|
            0 <= i < self.entries@.len() && (#[trigger] self.entries@[i]).network_id == n
                && self.entries@[i].peer_id == p
    }

    pub closed spec fn spec_index_of(&self, n: NetworkId, p: PeerId) -> int {
        choose|i: int|
            0 <= i < self.entries@.len() && (#[trigger] self.entries@[i]).network_id == n
                && self.entries@[i].peer_id == p
    }

    /// The metadata tracked for peer `p` on network `n`, if any.
    pub closed spec fn spec_get(&self, n: NetworkId, p: PeerId) -> Option<PeerMetadata> {
        if self.spec_has(n, p) {
            Some(self.entries@[self.spec_index_of(n, p)].metadata)
        } else {
            None
        }
    }

    /// Keys are unique and every entry belongs to a tracked network.
    pub closed spec fn wf(&self) -> bool {
        &&& forall|i: int, j: int|
            0 <= i < j < self.entries@.len() ==> !((#[trigger] self.entries@[i]).network_id
                == (#[trigger] self.entries@[j]).network_id && self.entries@[i].peer_id
                == self.entries@[j].peer_id)
        &&& forall|i: int|
            0 <= i < self.entries@.len() ==> self.spec_networks().contains(
                (#[trigger] self.entries@[i]).network_id,
            )
    }

    /// An empty registry scoped to the given logical networks.
    pub fn new(network_ids: &Vec<NetworkId>) -> (r: Self)
        ensures
            r.wf(),
            r.spec_networks() == network_ids@,
            forall|n: NetworkId, p: PeerId| !r.spec_has(n, p),
    {
        PeersAndMetadata { network_ids: network_ids.clone(), entries: Vec::new() }
    }

    fn find(&self, n: NetworkId, p: PeerId) -> (r: Option<usize>)
        requires
            self.wf(),
        ensures
            match r {
                Some(i) => {
                    &&& self.spec_has(n, p)
                    &&& i == self.spec_index_of(n, p)
                    &&& i < self.entries@.len()
                    &&& self.entries@[i as int].network_id == n
                    &&& self.entries@[i as int].peer_id == p
                },
                None => !self.spec_has(n, p),
            },
    {
        let mut i: usize = 0;
        while i < self.entries.len()
            invariant
                self.wf(),
                i <= self.entries@.len(),
                forall|k: int|
                    0 <= k < i ==> !((#[trigger] self.entries@[k]).network_id == n
                        && self.entries@[k].peer_id == p),
            decreases self.entries@.len() - i,
        {
            if self.entries[i].network_id == n && self.entries[i].peer_id == p {
                proof {
                    let j = self.spec_index_of(n, p);
                    assert(0 <= j < self.entries@.len() && self.entries@[j].network_id == n
                        && self.entries@[j].peer_id == p);
                    assert(j == i as int);
                }
                return Some(i);
            }
            i = i + 1;
        }
        None
    }

    pub fn tracks(&self, n: NetworkId) -> (b: bool)
        ensures
            b == self.spec_tracks(n),
    {
        let mut i: usize = 0;
        while i < self.network_ids.len()
            invariant
                i <= self.network_ids@.len(),
                forall|k: int| 0 <= k < i ==> self.network_ids@[k] != n,
            decreases self.network_ids@.len() - i,
        {
            if self.network_ids[i] == n {
                return true;
            }
            i = i + 1;
        }
        false
    }

    /// Read one peer's metadata; `None` when the peer is not tracked.
    pub fn get_metadata(&self, n: NetworkId, p: PeerId) -> (r: Option<PeerMetadata>)
        requires
            self.wf(),
        ensures
            r == self.spec_get(n, p),
    {
        match self.find(n, p) {
            Some(i) => Some(self.entries[i].metadata),
            None => None,
        }
    }

    /// Record a connect (or a metadata refresh) for a peer. Refused when the
    /// network is outside this registry's scope; the registry is unchanged
    /// then. Every other key is untouched either way.
    pub fn upsert_peer(&mut self, n: NetworkId, p: PeerId, metadata: PeerMetadata) -> (r: Result<
        (),
        UntrackedNetwork,
    >)
        requires
            old(self).wf(),
        ensures
            final(self).wf(),
            final(self).spec_networks() == old(self).spec_networks(),
            match r {
                Ok(()) => {
                    &&& old(self).spec_tracks(n)
                    &&& final(self).spec_get(n, p) == Some(metadata)
                    &&& forall|n2: NetworkId, p2: PeerId|
                        !(n2 == n && p2 == p) ==> #[trigger] final(self).spec_get(n2, p2) == old(
                            self,
                        ).spec_get(n2, p2)
                },
                Err(e) => {
                    &&& e == UntrackedNetwork(n)
                    &&& !old(self).spec_tracks(n)
                    &&& *final(self) == *old(self)
                },
            },
    {
        if !self.tracks(n) {
            return Err(UntrackedNetwork(n));
        }
        let ghost pre = *old(self);
        match self.find(n, p) {
            Some(i) => {
                let mut e = self.entries.remove(i);
                e.metadata = metadata;
                self.entries.insert(i, e);
                proof {
                    assert(self.entries@ =~= pre.entries@.update(i as int, self.entries@[i as int]));
                    self.lemma_update_frame(pre, i as int);
                }
            },
            None => {
                self.entries.push(PeerEntry { network_id: n, peer_id: p, metadata });
                proof {
                    self.lemma_push_frame(pre, n, p);
                }
            },
        }
        Ok(())
    }

    /// Record a disconnect: the entry, if any, is removed. Every other key
    /// is untouched. Returns whether an entry was removed.
    pub fn remove_peer(&mut self, n: NetworkId, p: PeerId) -> (r: bool)
        requires
            old(self).wf(),
        ensures
            final(self).wf(),
            final(self).spec_networks() == old(self).spec_networks(),
            r == old(self).spec_has(n, p),
            final(self).spec_get(n, p) is None,
            forall|n2: NetworkId, p2: PeerId|
                !(n2 == n && p2 == p) ==> #[trigger] final(self).spec_get(n2, p2) == old(
                    self,
                ).spec_get(n2, p2),
            !old(self).spec_has(n, p) ==> *final(self) == *old(self),
    {
        let ghost pre = *old(self);
        match self.find(n, p) {
            None => false,
            Some(i) => {
                let _removed = self.entries.remove(i);
                proof {
                    self.lemma_remove_frame(pre, i as int);
                }
                true
            },
        }
    }

    /// After replacing the entry at `i` by one with the same key, every
    /// other key reads as before and `wf` is preserved.
    proof fn lemma_update_frame(&self, pre: Self, i: int)
        requires
            pre.wf(),
            0 <= i < pre.entries@.len(),
            self.network_ids@ == pre.network_ids@,
            self.entries@.len() == pre.entries@.len(),
            forall|k: int|
                0 <= k < pre.entries@.len() && k != i ==> self.entries@[k] == pre.entries@[k],
            self.entries@[i].network_id == pre.entries@[i].network_id,
            self.entries@[i].peer_id == pre.entries@[i].peer_id,
        ensures
            self.wf(),
            forall|n2: NetworkId, p2: PeerId| #[trigger]
                self.spec_has(n2, p2) == pre.spec_has(n2, p2),
            self.spec_get(pre.entries@[i].network_id, pre.entries@[i].peer_id) == Some(
                self.entries@[i].metadata,
            ),
            forall|n2: NetworkId, p2: PeerId|
                !(n2 == pre.entries@[i].network_id && p2 == pre.entries@[i].peer_id)
                    ==> #[trigger] self.spec_get(n2, p2) == pre.spec_get(n2, p2),
    {
        let n = pre.entries@[i].network_id;
        let p = pre.entries@[i].peer_id;
        assert forall|n2: NetworkId, p2: PeerId| #[trigger] self.spec_has(n2, p2) == pre.spec_has(
            n2,
            p2,
        ) by {
            if pre.spec_has(n2, p2) {
                let k = pre.spec_index_of(n2, p2);
                assert(0 <= k < pre.entries@.len() && pre.entries@[k].network_id == n2
                    && pre.entries@[k].peer_id == p2);
                assert(self.entries@[k].network_id == n2 && self.entries@[k].peer_id == p2);
            }
            if self.spec_has(n2, p2) {
                let k = self.spec_index_of(n2, p2);
                assert(0 <= k < self.entries@.len() && self.entries@[k].network_id == n2
                    && self.entries@[k].peer_id == p2);
                assert(pre.entries@[k].network_id == n2 && pre.entries@[k].peer_id == p2);
            }
        }
        assert(self.wf()) by {
            assert forall|k: int, l: int| 0 <= k < l < self.entries@.len() implies !((
            #[trigger] self.entries@[k]).network_id == (#[trigger] self.entries@[l]).network_id
                && self.entries@[k].peer_id == self.entries@[l].peer_id) by {
                assert(self.entries@[k].network_id == pre.entries@[k].network_id
                    && self.entries@[k].peer_id == pre.entries@[k].peer_id);
                assert(self.entries@[l].network_id == pre.entries@[l].network_id
                    && self.entries@[l].peer_id == pre.entries@[l].peer_id);
            }
            assert forall|k: int| 0 <= k < self.entries@.len() implies self.spec_networks().contains(
                (#[trigger] self.entries@[k]).network_id,
            ) by {
                assert(self.entries@[k].network_id == pre.entries@[k].network_id);
            }
        }
        assert(self.spec_index_of(n, p) == i) by {
            assert(self.spec_has(n, p)) by {
                assert(self.entries@[i].network_id == n && self.entries@[i].peer_id == p);
            }
            let j = self.spec_index_of(n, p);
            assert(0 <= j < self.entries@.len() && self.entries@[j].network_id == n
                && self.entries@[j].peer_id == p);
            assert(pre.entries@[j].network_id == n && pre.entries@[j].peer_id == p);
        }
        assert forall|n2: NetworkId, p2: PeerId|
            !(n2 == n && p2 == p) && pre.spec_has(n2, p2) implies #[trigger] self.spec_get(n2, p2)
            == pre.spec_get(n2, p2) by {
            let k = pre.spec_index_of(n2, p2);
            assert(0 <= k < pre.entries@.len() && pre.entries@[k].network_id == n2
                && pre.entries@[k].peer_id == p2);
            let l = self.spec_index_of(n2, p2);
            assert(0 <= l < self.entries@.len() && self.entries@[l].network_id == n2
                && self.entries@[l].peer_id == p2);
            assert(pre.entries@[l].network_id == n2 && pre.entries@[l].peer_id == p2);
            assert(k == l);
            assert(k != i);
        }
    }

    /// After appending an entry with a fresh key on a tracked network, every
    /// other key reads as before and `wf` is preserved.
    proof fn lemma_push_frame(&self, pre: Self, n: NetworkId, p: PeerId)
        requires
            pre.wf(),
            !pre.spec_has(n, p),
            pre.spec_tracks(n),
            self.network_ids@ == pre.network_ids@,
            self.entries@.len() == pre.entries@.len() + 1,
            forall|k: int| 0 <= k < pre.entries@.len() ==> self.entries@[k] == pre.entries@[k],
            self.entries@[pre.entries@.len() as int].network_id == n,
            self.entries@[pre.entries@.len() as int].peer_id == p,
        ensures
            self.wf(),
            self.spec_get(n, p) == Some(self.entries@[pre.entries@.len() as int].metadata),
            forall|n2: NetworkId, p2: PeerId|
                !(n2 == n && p2 == p) ==> #[trigger] self.spec_get(n2, p2) == pre.spec_get(n2, p2),
    {
        let last = pre.entries@.len() as int;
        assert forall|n2: NetworkId, p2: PeerId| !(n2 == n && p2 == p) implies #[trigger] self
            .spec_has(n2, p2) == pre.spec_has(n2, p2) by {
            if pre.spec_has(n2, p2) {
                let k = pre.spec_index_of(n2, p2);
                assert(0 <= k < pre.entries@.len() && pre.entries@[k].network_id == n2
                    && pre.entries@[k].peer_id == p2);
                assert(self.entries@[k].network_id == n2 && self.entries@[k].peer_id == p2);
            }
            if self.spec_has(n2, p2) {
                let k = self.spec_index_of(n2, p2);
                assert(0 <= k < self.entries@.len() && self.entries@[k].network_id == n2
                    && self.entries@[k].peer_id == p2);
                assert(k != last);
                assert(pre.entries@[k].network_id == n2 && pre.entries@[k].peer_id == p2);
            }
        }
        assert(self.wf()) by {
            assert forall|k: int, l: int| 0 <= k < l < self.entries@.len() implies !((
            #[trigger] self.entries@[k]).network_id == (#[trigger] self.entries@[l]).network_id
                && self.entries@[k].peer_id == self.entries@[l].peer_id) by {
                if l == last {
                    assert(self.entries@[k] == pre.entries@[k]);
                    if self.entries@[k].network_id == n && self.entries@[k].peer_id == p {
                        assert(pre.spec_has(n, p));
                    }
                }
            }
        }
        assert(self.spec_index_of(n, p) == last) by {
            assert(self.spec_has(n, p)) by {
                assert(self.entries@[last].network_id == n && self.entries@[last].peer_id == p);
            }
            let j = self.spec_index_of(n, p);
            assert(0 <= j < self.entries@.len() && self.entries@[j].network_id == n
                && self.entries@[j].peer_id == p);
            if j != last {
                assert(pre.entries@[j].network_id == n && pre.entries@[j].peer_id == p);
                assert(pre.spec_has(n, p));
            }
        }
        assert forall|n2: NetworkId, p2: PeerId|
            !(n2 == n && p2 == p) && pre.spec_has(n2, p2) implies #[trigger] self.spec_get(n2, p2)
            == pre.spec_get(n2, p2) by {
            let k = pre.spec_index_of(n2, p2);
            assert(0 <= k < pre.entries@.len() && pre.entries@[k].network_id == n2
                && pre.entries@[k].peer_id == p2);
            let l = self.spec_index_of(n2, p2);
            assert(0 <= l < self.entries@.len() && self.entries@[l].network_id == n2
                && self.entries@[l].peer_id == p2);
            assert(l != last);
            assert(pre.entries@[l].network_id == n2 && pre.entries@[l].peer_id == p2);
            assert(k == l);
        }
    }

    /// After removing the entry at `i`, its key reads as absent, every other
    /// key reads as before, and `wf` is preserved.
    proof fn lemma_remove_frame(&self, pre: Self, i: int)
        requires
            pre.wf(),
            0 <= i < pre.entries@.len(),
            self.network_ids@ == pre.network_ids@,
            self.entries@ == pre.entries@.remove(i),
        ensures
            self.wf(),
            !self.spec_has(pre.entries@[i].network_id, pre.entries@[i].peer_id),
            forall|n2: NetworkId, p2: PeerId|
                !(n2 == pre.entries@[i].network_id && p2 == pre.entries@[i].peer_id)
                    ==> #[trigger] self.spec_get(n2, p2) == pre.spec_get(n2, p2),
    {
        let n = pre.entries@[i].network_id;
        let p = pre.entries@[i].peer_id;
        assert(self.entries@.len() == pre.entries@.len() - 1);
        assert(forall|k: int| 0 <= k < i ==> self.entries@[k] == pre.entries@[k]);
        assert(forall|k: int|
            i <= k < self.entries@.len() ==> self.entries@[k] == pre.entries@[k + 1]);
        assert(!self.spec_has(n, p)) by {
            if self.spec_has(n, p) {
                let k = self.spec_index_of(n, p);
                assert(0 <= k < self.entries@.len() && self.entries@[k].network_id == n
                    && self.entries@[k].peer_id == p);
                if k < i {
                    assert(pre.entries@[k].network_id == n && pre.entries@[k].peer_id == p);
                } else {
                    assert(pre.entries@[k + 1].network_id == n && pre.entries@[k + 1].peer_id == p);
                }
            }
        }
        assert(self.wf()) by {
            assert forall|k: int, l: int| 0 <= k < l < self.entries@.len() implies !((
            #[trigger] self.entries@[k]).network_id == (#[trigger] self.entries@[l]).network_id
                && self.entries@[k].peer_id == self.entries@[l].peer_id) by {
                let k2 = if k < i { k } else { k + 1 };
                let l2 = if l < i { l } else { l + 1 };
                assert(self.entries@[k] == pre.entries@[k2]);
                assert(self.entries@[l] == pre.entries@[l2]);
            }
            assert forall|k: int| 0 <= k < self.entries@.len() implies self.spec_networks().contains(
                (#[trigger] self.entries@[k]).network_id,
            ) by {
                let k2 = if k < i { k } else { k + 1 };
                assert(self.entries@[k] == pre.entries@[k2]);
            }
        }
        assert forall|n2: NetworkId, p2: PeerId|
            !(n2 == n && p2 == p) implies #[trigger] self.spec_get(n2, p2) == pre.spec_get(
            n2,
            p2,
        ) by {
            if pre.spec_has(n2, p2) {
                let k = pre.spec_index_of(n2, p2);
                assert(0 <= k < pre.entries@.len() && pre.entries@[k].network_id == n2
                    && pre.entries@[k].peer_id == p2);
                assert(k != i);
                let k3 = if k < i { k } else { k - 1 };
                assert(self.entries@[k3].network_id == n2 && self.entries@[k3].peer_id == p2);
                assert(self.spec_has(n2, p2));
                let l = self.spec_index_of(n2, p2);
                assert(0 <= l < self.entries@.len() && self.entries@[l].network_id == n2
                    && self.entries@[l].peer_id == p2);
                let l2 = if l < i { l } else { l + 1 };
                assert(pre.entries@[l2].network_id == n2 && pre.entries@[l2].peer_id == p2);
                assert(l2 == k);
                assert(self.entries@[l].metadata == pre.entries@[k].metadata);
            } else {
                if self.spec_has(n2, p2) {
                    let l = self.spec_index_of(n2, p2);
                    assert(0 <= l < self.entries@.len() && self.entries@[l].network_id == n2
                        && self.entries@[l].peer_id == p2);
                    let l2 = if l < i { l } else { l + 1 };
                    assert(pre.entries@[l2].network_id == n2 && pre.entries@[l2].peer_id == p2);
                }
            }
        }
    }
}

} // verus!
