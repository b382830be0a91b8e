//! The pair of handles an application is actually given: a client for
//! outbound dispatch and an events stream for inbound messages, both bound
//! at construction to one protocol set. The shared registries are handed in
//! explicitly on every call; the client itself owns only its protocol sets,
//! its per-network senders, and its pending-request table.

use vstd::prelude::*;
use crate::collector::ApplicationCollector;
use crate::error::SendError;
use crate::ids::NetworkId;
use crate::ids::PeerId;
use crate::outbound::OutboundMessage;
use crate::outbound::OutboundPeerConnections;
use crate::protocol::ProtocolId;
use crate::queue::PollOutcome;
use crate::registry::PeersAndMetadata;
use crate::source::NetworkSource;

verus! {

/// What an application message type must provide: a serialized form for the
/// wire. Nothing is assumed about the encoding itself; the library treats
/// payload bytes as opaque.
pub trait MessageTrait: Sized + Clone {
    /// Serialize for the wire.
    fn to_wire_bytes(&self) -> Vec<u8>;

    /// Parse back from the wire; `None` on malformed bytes.
    fn from_wire_bytes(data: &[u8]) -> Option<Self>;
}

/// The outbound half bound to one logical network.
#[derive(Clone, Copy, Debug, PartialEq, Eq, Structural)]
pub struct NetworkSender {
    pub network_id: NetworkId,
}

impl NetworkSender {
    pub fn new(network_id: NetworkId) -> (s: Self)
        ensures
            s.network_id == network_id,
    {
        NetworkSender { network_id }
    }
}

/// A request sent, awaiting its correlated response.
pub struct PendingRequest<T> {
    pub peer: PeerId,
    pub request_id: u64,
    pub response: Option<T>,
}

/// One application's outbound client: dispatches direct-send messages and
/// requests to peers over the logical networks it was built with, and owns
/// the pending-request table that matches responses back to requests by
/// peer and request identifier.
pub struct NetworkClient<T> {
    direct_send_protocols_and_preferences: Vec<ProtocolId>,
    rpc_protocols_and_preferences: Vec<ProtocolId>,
    network_senders: Vec<NetworkSender>,
    pending: Vec<PendingRequest<T>>,
    next_request_id: u64,
}

impl<T: MessageTrait> NetworkClient<T> {
    /// Direct-send protocols this client was built with, preference order.
    pub closed spec fn spec_direct(&self) -> Seq<ProtocolId> {
        self.direct_send_protocols_and_preferences@
    }

    /// Request/response protocols this client was built with.
    pub closed spec fn spec_rpc(&self) -> Seq<ProtocolId> {
        self.rpc_protocols_and_preferences@
    }

    /// The logical networks this client can dispatch over.
    pub closed spec fn spec_networks(&self) -> Seq<NetworkId> {
        self.network_senders@.map(|_i: int, s: NetworkSender| s.network_id)
    }

    pub open spec fn spec_has_network(&self, n: NetworkId) -> bool {
        self.spec_networks().contains(n)
    }

    /// The pending-request table, in order of issue.
    pub closed spec fn spec_pending(&self) -> Seq<PendingRequest<T>> {
        self.pending@
    }

    pub closed spec fn spec_next_request_id(&self) -> u64 {
        self.next_request_id
    }

    /// Request identifiers are fresh and never reused.
    pub closed spec fn wf(&self) -> bool {
        &&& forall|i: int|
            0 <= i < self.pending@.len() ==> (#[trigger] self.pending@[i]).request_id
                < self.next_request_id
        &&& forall|i: int, j: int|
            0 <= i < j < self.pending@.len() ==> (#[trigger] self.pending@[i]).request_id
                != (#[trigger] self.pending@[j]).request_id
    }

    /// Build a client for the given protocol sets, with one sender per
    /// distinct logical network. A client built with no networks is
    /// callable, but every send fails with a "no reachable network" error.
    pub fn new(
        direct_send_protocols_and_preferences: Vec<ProtocolId>,
        rpc_protocols_and_preferences: Vec<ProtocolId>,
        network_ids: &Vec<NetworkId>,
    ) -> (c: Self)
        ensures
            c.wf(),
            c.spec_direct() == direct_send_protocols_and_preferences@,
            c.spec_rpc() == rpc_protocols_and_preferences@,
            forall|n: NetworkId| #[trigger] c.spec_has_network(n) == network_ids@.contains(n),
            c.spec_pending() == Seq::<PendingRequest<T>>::empty(),
            c.spec_next_request_id() == 0,
    {
        let mut network_senders: Vec<NetworkSender> = Vec::new();
        let n = network_ids.len();
        let mut i: usize = 0;
        while i < n
            invariant
                n == network_ids@.len(),
                i <= n,
                forall|k: int|
                    0 <= k < network_senders@.len() ==> network_ids@.subrange(0, i as int).contains(
                        (#[trigger] network_senders@[k]).network_id,
                    ),
                forall|k: int| #![trigger network_ids@[k]]
                    0 <= k < i ==> exists|l: int|
                        0 <= l < network_senders@.len()
                            && (#[trigger] network_senders@[l]).network_id == network_ids@[k],
            decreases n - i,
        {
            let id = network_ids[i];
            let ghost senders0 = network_senders@;
            let seen = contains_sender(&network_senders, id);
            if !seen {
                network_senders.push(NetworkSender::new(id));
            }
            proof {
                assert forall|k: int| 0 <= k < network_senders@.len() implies network_ids@.subrange(
                    0,
                    i as int + 1,
                ).contains((#[trigger] network_senders@[k]).network_id) by {
                    if k < senders0.len() {
                        assert(network_senders@[k] == senders0[k]);
                        assert(network_ids@.subrange(0, i as int).contains(
                            senders0[k].network_id,
                        ));
                        let w = choose|w: int|
                            0 <= w < i && network_ids@.subrange(0, i as int)[w]
                                == senders0[k].network_id;
                        assert(network_ids@.subrange(0, i as int + 1)[w]
                            == senders0[k].network_id);
                    } else {
                        assert(network_senders@[k].network_id == id);
                        assert(network_ids@.subrange(0, i as int + 1)[i as int] == id);
                    }
                }
                assert forall|k: int| #![trigger network_ids@[k]] 0 <= k < i + 1 implies exists|l: int|
                    0 <= l < network_senders@.len() && (#[trigger] network_senders@[l]).network_id
                        == network_ids@[k] by {
                    if k < i {
                        let l = choose|l: int|
                            0 <= l < senders0.len() && (#[trigger] senders0[l]).network_id
                                == network_ids@[k];
                        assert(network_senders@[l].network_id == network_ids@[k]);
                    } else {
                        if seen {
                            let l = choose|l: int|
                                0 <= l < senders0.len() && (#[trigger] senders0[l]).network_id
                                    == id;
                            assert(network_senders@[l].network_id == id);
                        } else {
                            assert(network_senders@[senders0.len() as int].network_id == id);
                        }
                    }
                }
            }
            i = i + 1;
        }
        let c = NetworkClient {
            direct_send_protocols_and_preferences,
            rpc_protocols_and_preferences,
            network_senders,
            pending: Vec::new(),
            next_request_id: 0,
        };
        proof {
            assert forall|n2: NetworkId| #[trigger] c.spec_has_network(n2) == network_ids@.contains(
                n2,
            ) by {
                if c.spec_has_network(n2) {
                    let k = choose|k: int|
                        0 <= k < c.spec_networks().len() && c.spec_networks()[k] == n2;
                    assert(network_senders@[k].network_id == n2);
                    assert(network_ids@.subrange(0, n as int).contains(n2));
                    assert(network_ids@.subrange(0, n as int) =~= network_ids@);
                }
                if network_ids@.contains(n2) {
                    let k = choose|k: int| 0 <= k < network_ids@.len() && network_ids@[k] == n2;
                    let l = choose|l: int|
                        0 <= l < network_senders@.len() && network_senders@[l].network_id == n2;
                    assert(c.spec_networks()[l] == n2);
                    assert(c.spec_networks().contains(n2));
                }
            }
        }
        c
    }

    pub fn has_network(&self, n: NetworkId) -> (b: bool)
        ensures
            b == self.spec_has_network(n),
    {
        let mut i: usize = 0;
        while i < self.network_senders.len()
            invariant
                i <= self.network_senders@.len(),
                forall|k: int|
                    0 <= k < i ==> (#[trigger] self.network_senders@[k]).network_id != n,
            decreases self.network_senders@.len() - i,
        {
            if self.network_senders[i].network_id == n {
                proof {
                    assert(self.spec_networks()[i as int] == n);
                }
                return true;
            }
            i = i + 1;
        }
        proof {
            if self.spec_has_network(n) {
                let k = choose|k: int|
                    0 <= k < self.spec_networks().len() && self.spec_networks()[k] == n;
                assert(self.network_senders@[k].network_id == n);
            }
        }
        false
    }

    /// Fire-and-forget dispatch of one message to one peer on one logical
    /// network. Exactly one outbound message is handed to the peer's
    /// connection on success; the checks fail in the order: unknown
    /// network, unsupported protocol, peer not in the registry, no live
    /// connection.
    pub fn send_direct(
        &self,
        n: NetworkId,
        peer: PeerId,
        protocol: ProtocolId,
        message: &T,
        peers_and_metadata: &PeersAndMetadata,
        peer_senders: &mut OutboundPeerConnections,
    ) -> (r: Result<(), SendError>)
        requires
            peers_and_metadata.wf(),
            old(peer_senders).wf(),
        ensures
            final(peer_senders).wf(),
            match r {
                Ok(()) => {
                    &&& self.spec_has_network(n)
                    &&& self.spec_direct().contains(protocol)
                    &&& peers_and_metadata.spec_get(n, peer) is Some
                    &&& old(peer_senders).spec_connected(n, peer)
                    &&& final(peer_senders).spec_outbox(n, peer).len() == old(
                        peer_senders,
                    ).spec_outbox(n, peer).len() + 1
                    &&& final(peer_senders).spec_outbox(n, peer).drop_last() == old(
                        peer_senders,
                    ).spec_outbox(n, peer)
                    &&& final(peer_senders).spec_outbox(n, peer).last().to == peer
                    &&& final(peer_senders).spec_outbox(n, peer).last().network_id == n
                    &&& final(peer_senders).spec_outbox(n, peer).last().protocol_id == protocol
                    &&& forall|n2: NetworkId, p2: PeerId| #[trigger]
                        final(peer_senders).spec_connected(n2, p2) == old(
                            peer_senders,
                        ).spec_connected(n2, p2)
                    &&& forall|n2: NetworkId, p2: PeerId|
                        !(n2 == n && p2 == peer) ==> #[trigger] final(peer_senders).spec_outbox(
                            n2,
                            p2,
                        ) == old(peer_senders).spec_outbox(n2, p2)
                },
                Err(e) => {
                    &&& *final(peer_senders) == *old(peer_senders)
                    &&& match e {
                        SendError::NoAvailableNetwork(n2) => n2 == n && !self.spec_has_network(n),
                        SendError::UnsupportedProtocol(p2) => p2 == protocol
                            && self.spec_has_network(n) && !self.spec_direct().contains(protocol),
                        SendError::DestinationUnreachable(p2) => p2 == peer
                            && self.spec_has_network(n) && self.spec_direct().contains(protocol)
                            && peers_and_metadata.spec_get(n, peer) is None,
                        SendError::PeerNotConnected(p2) => p2 == peer && self.spec_has_network(n)
                            && self.spec_direct().contains(protocol)
                            && peers_and_metadata.spec_get(n, peer) is Some && !old(
                            peer_senders,
                        ).spec_connected(n, peer),
                    }
                },
            },
    {
        if !self.has_network(n) {
            return Err(SendError::NoAvailableNetwork(n));
        }
        if !contains_protocol(&self.direct_send_protocols_and_preferences, protocol) {
            return Err(SendError::UnsupportedProtocol(protocol));
        }
        if peers_and_metadata.get_metadata(n, peer).is_none() {
            return Err(SendError::DestinationUnreachable(peer));
        }
        let data = message.to_wire_bytes();
        let m = OutboundMessage { to: peer, network_id: n, protocol_id: protocol, data };
        let ghost pre = *peer_senders;
        match peer_senders.enqueue(n, peer, m) {
            Ok(()) => {
                proof {
                    assert(peer_senders.spec_outbox(n, peer).drop_last() =~= pre.spec_outbox(
                        n,
                        peer,
                    ));
                }
                Ok(())
            },
            Err(e) => Err(e),
        }
    }

    /// Dispatch one request expecting a correlated response; on success the
    /// fresh request identifier is returned and recorded, with no response
    /// yet, in the pending table. The checks and the outbound effect are
    /// those of a direct send, over the request/response protocol set.
    pub fn send_rpc_request(
        &mut self,
        n: NetworkId,
        peer: PeerId,
        protocol: ProtocolId,
        message: &T,
        peers_and_metadata: &PeersAndMetadata,
        peer_senders: &mut OutboundPeerConnections,
    ) -> (r: Result<u64, SendError>)
        requires
            old(self).wf(),
            old(self).spec_next_request_id() < u64::MAX,
            peers_and_metadata.wf(),
            old(peer_senders).wf(),
        ensures
            final(self).wf(),
            final(peer_senders).wf(),
            final(self).spec_direct() == old(self).spec_direct(),
            final(self).spec_rpc() == old(self).spec_rpc(),
            final(self).spec_networks() == old(self).spec_networks(),
            match r {
                Ok(request_id) => {
                    &&& old(self).spec_has_network(n)
                    &&& old(self).spec_rpc().contains(protocol)
                    &&& peers_and_metadata.spec_get(n, peer) is Some
                    &&& old(peer_senders).spec_connected(n, peer)
                    &&& request_id == old(self).spec_next_request_id()
                    &&& final(self).spec_next_request_id() == old(self).spec_next_request_id() + 1
                    &&& final(self).spec_pending().len() == old(self).spec_pending().len() + 1
                    &&& final(self).spec_pending().drop_last() == old(self).spec_pending()
                    &&& final(self).spec_pending().last().peer == peer
                    &&& final(self).spec_pending().last().request_id == request_id
                    &&& final(self).spec_pending().last().response is None
                    &&& final(peer_senders).spec_outbox(n, peer).len() == old(
                        peer_senders,
                    ).spec_outbox(n, peer).len() + 1
                    &&& final(peer_senders).spec_outbox(n, peer).drop_last() == old(
                        peer_senders,
                    ).spec_outbox(n, peer)
                    &&& final(peer_senders).spec_outbox(n, peer).last().to == peer
                    &&& final(peer_senders).spec_outbox(n, peer).last().network_id == n
                    &&& final(peer_senders).spec_outbox(n, peer).last().protocol_id == protocol
                    &&& forall|n2: NetworkId, p2: PeerId| #[trigger]
                        final(peer_senders).spec_connected(n2, p2) == old(
                            peer_senders,
                        ).spec_connected(n2, p2)
                    &&& forall|n2: NetworkId, p2: PeerId|
                        !(n2 == n && p2 == peer) ==> #[trigger] final(peer_senders).spec_outbox(
                            n2,
                            p2,
                        ) == old(peer_senders).spec_outbox(n2, p2)
                },
                Err(e) => {
                    &&& *final(self) == *old(self)
                    &&& *final(peer_senders) == *old(peer_senders)
                    &&& match e {
                        SendError::NoAvailableNetwork(n2) => n2 == n && !old(
                            self,
                        ).spec_has_network(n),
                        SendError::UnsupportedProtocol(p2) => p2 == protocol && old(
                            self,
                        ).spec_has_network(n) && !old(self).spec_rpc().contains(protocol),
                        SendError::DestinationUnreachable(p2) => p2 == peer && old(
                            self,
                        ).spec_has_network(n) && old(self).spec_rpc().contains(protocol)
                            && peers_and_metadata.spec_get(n, peer) is None,
                        SendError::PeerNotConnected(p2) => p2 == peer && old(
                            self,
                        ).spec_has_network(n) && old(self).spec_rpc().contains(protocol)
                            && peers_and_metadata.spec_get(n, peer) is Some && !old(
                            peer_senders,
                        ).spec_connected(n, peer),
                    }
                },
            },
    {
        if !self.has_network(n) {
            return Err(SendError::NoAvailableNetwork(n));
        }
        if !contains_protocol(&self.rpc_protocols_and_preferences, protocol) {
            return Err(SendError::UnsupportedProtocol(protocol));
        }
        if peers_and_metadata.get_metadata(n, peer).is_none() {
            return Err(SendError::DestinationUnreachable(peer));
        }
        let data = message.to_wire_bytes();
        let m = OutboundMessage { to: peer, network_id: n, protocol_id: protocol, data };
        let ghost pre = *peer_senders;
        match peer_senders.enqueue(n, peer, m) {
            Ok(()) => {
                proof {
                    assert(peer_senders.spec_outbox(n, peer).drop_last() =~= pre.spec_outbox(
                        n,
                        peer,
                    ));
                }
                let request_id = self.next_request_id;
                self.pending.push(PendingRequest { peer, request_id, response: None });
                self.next_request_id = self.next_request_id + 1;
                proof {
                    assert(self.pending@.drop_last() =~= old(self).pending@);
                }
                Ok(request_id)
            },
            Err(e) => Err(e),
        }
    }

    /// Record an inbound response for the request it answers, matched by
    /// peer and request identifier. A response that matches no outstanding
    /// request (or one already answered) is not recorded, and the table is
    /// unchanged.
    pub fn deliver_response(&mut self, peer: PeerId, request_id: u64, response: T) -> (r: bool)
        requires
            old(self).wf(),
        ensures
            final(self).wf(),
            final(self).spec_next_request_id() == old(self).spec_next_request_id(),
            final(self).spec_direct() == old(self).spec_direct(),
            final(self).spec_rpc() == old(self).spec_rpc(),
            final(self).spec_networks() == old(self).spec_networks(),
            r ==> exists|i: int|
                {
                    &&& 0 <= i < old(self).spec_pending().len()
                    &&& (#[trigger] old(self).spec_pending()[i]).peer == peer
                    &&& old(self).spec_pending()[i].request_id == request_id
                    &&& old(self).spec_pending()[i].response is None
                    &&& final(self).spec_pending() == old(self).spec_pending().update(
                        i,
                        PendingRequest { peer, request_id, response: Some(response) },
                    )
                },
            !r ==> {
                &&& *final(self) == *old(self)
                &&& forall|i: int|
                    0 <= i < old(self).spec_pending().len() ==> !((#[trigger] old(
                        self,
                    ).spec_pending()[i]).peer == peer && old(self).spec_pending()[i].request_id
                        == request_id && old(self).spec_pending()[i].response is None)
            },
    {
        let mut i: usize = 0;
        let n = self.pending.len();
        while i < n
            invariant
                self.wf(),
                *self == *old(self),
                n == self.pending@.len(),
                i <= n,
                forall|k: int|
                    0 <= k < i ==> !((#[trigger] self.pending@[k]).peer == peer
                        && self.pending@[k].request_id == request_id && self.pending@[k].response
                        is None),
            decreases n - i,
        {
            let hit = self.pending[i].peer == peer && self.pending[i].request_id == request_id
                && self.pending[i].response.is_none();
            if hit {
                let mut e = self.pending.remove(i);
                e.response = Some(response);
                self.pending.insert(i, e);
                proof {
                    assert(self.pending@ =~= old(self).pending@.update(
                        i as int,
                        PendingRequest { peer, request_id, response: Some(response) },
                    ));
                    assert forall|k: int, l: int|
                        0 <= k < l < self.pending@.len() implies (#[trigger] self.pending@[k]).request_id
                        != (#[trigger] self.pending@[l]).request_id by {
                        assert(self.pending@[k].request_id == old(self).pending@[k].request_id);
                        assert(self.pending@[l].request_id == old(self).pending@[l].request_id);
                    }
                    assert forall|k: int|
                        0 <= k < self.pending@.len() implies (#[trigger] self.pending@[k]).request_id
                        < self.next_request_id by {
                        assert(self.pending@[k].request_id == old(self).pending@[k].request_id);
                    }
                }
                return true;
            }
            i = i + 1;
        }
        false
    }

    /// Hand a correlated response over to the application, removing the
    /// request from the pending table. `None` while no response has been
    /// recorded for that request.
    pub fn take_response(&mut self, peer: PeerId, request_id: u64) -> (r: Option<T>)
        requires
            old(self).wf(),
        ensures
            final(self).wf(),
            final(self).spec_next_request_id() == old(self).spec_next_request_id(),
            final(self).spec_direct() == old(self).spec_direct(),
            final(self).spec_rpc() == old(self).spec_rpc(),
            final(self).spec_networks() == old(self).spec_networks(),
            match r {
                Some(response) => exists|i: int|
                    {
                        &&& 0 <= i < old(self).spec_pending().len()
                        &&& (#[trigger] old(self).spec_pending()[i]).peer == peer
                        &&& old(self).spec_pending()[i].request_id == request_id
                        &&& old(self).spec_pending()[i].response == Some(response)
                        &&& final(self).spec_pending() == old(self).spec_pending().remove(i)
                    },
                None => {
                    &&& *final(self) == *old(self)
                    &&& forall|i: int|
                        0 <= i < old(self).spec_pending().len() ==> !((#[trigger] old(
                            self,
                        ).spec_pending()[i]).peer == peer && old(self).spec_pending()[i].request_id
                            == request_id && old(self).spec_pending()[i].response is Some)
                },
            },
    {
        let mut i: usize = 0;
        let n = self.pending.len();
        while i < n
            invariant
                self.wf(),
                *self == *old(self),
                n == self.pending@.len(),
                i <= n,
                forall|k: int|
                    0 <= k < i ==> !((#[trigger] self.pending@[k]).peer == peer
                        && self.pending@[k].request_id == request_id && self.pending@[k].response
                        is Some),
            decreases n - i,
        {
            let hit = self.pending[i].peer == peer && self.pending[i].request_id == request_id
                && self.pending[i].response.is_some();
            if hit {
                let e = self.pending.remove(i);
                let response = match e.response {
                    Some(resp) => resp,
                    None => vstd::pervasive::unreached(),
                };
                proof {
                    assert forall|k: int, l: int|
                        0 <= k < l < self.pending@.len() implies (#[trigger] self.pending@[k]).request_id
                        != (#[trigger] self.pending@[l]).request_id by {
                        let k2 = if k < i as int { k } else { k + 1 };
                        let l2 = if l < i as int { l } else { l + 1 };
                        assert(self.pending@[k] == old(self).pending@[k2]);
                        assert(self.pending@[l] == old(self).pending@[l2]);
                    }
                    assert forall|k: int|
                        0 <= k < self.pending@.len() implies (#[trigger] self.pending@[k]).request_id
                        < self.next_request_id by {
                        let k2 = if k < i as int { k } else { k + 1 };
                        assert(self.pending@[k] == old(self).pending@[k2]);
                    }
                }
                return Some(response);
            }
            i = i + 1;
        }
        None
    }
}

/// Whether `p` occurs in `v`.
fn contains_protocol(v: &Vec<ProtocolId>, p: ProtocolId) -> (b: bool)
    ensures
        b == v@.contains(p),
{
    let mut i: usize = 0;
    while i < v.len()
        invariant
            i <= v@.len(),
            forall|k: int| 0 <= k < i ==> v@[k] != p,
        decreases v@.len() - i,
    {
        if v[i] == p {
            return true;
        }
        i = i + 1;
    }
    false
}

/// A decoded inbound message as handed to the application.
#[derive(Clone, Debug)]
pub struct NetworkEvent<T> {
    pub sender: PeerId,
    pub network_id: NetworkId,
    pub protocol_id: ProtocolId,
    pub message: T,
}

/// Outcome of polling the events stream.
#[derive(Clone, Debug)]
pub enum EventPoll<T> {
    /// The oldest message of some subscribed protocol, decoded.
    Event(NetworkEvent<T>),
    /// The oldest message of some subscribed protocol could not be decoded
    /// as `T`; it is consumed and reported.
    Undecodable { sender: PeerId, protocol_id: ProtocolId },
    /// All subscribed queues are empty, at least one may still produce.
    Pending,
    /// All subscribed queues are closed and drained.
    EndOfStream,
}

/// One application's inbound events stream: the fan-in source plus the
/// decoding into the application's message type.
pub struct NetworkEvents<T> {
    source: NetworkSource,
    marker: core::marker::PhantomData<T>,
}

impl<T: MessageTrait> NetworkEvents<T> {
    /// The protocols this stream is subscribed to.
    pub closed spec fn spec_protocols(&self) -> Seq<ProtocolId> {
        self.source.spec_protocols()
    }

    pub open spec fn spec_listens_to(&self, p: ProtocolId) -> bool {
        self.spec_protocols().contains(p)
    }

    pub closed spec fn wf(&self) -> bool {
        self.source.wf()
    }

    pub fn new(network_source: NetworkSource) -> (e: Self)
        requires
            network_source.wf(),
        ensures
            e.wf(),
            e.spec_protocols() == network_source.spec_protocols(),
    {
        NetworkEvents { source: network_source, marker: core::marker::PhantomData }
    }

    /// Every subscribed protocol's queue in `c` is empty.
    pub open spec fn spec_all_empty(&self, c: &ApplicationCollector) -> bool {
        forall|k: int|
            0 <= k < self.spec_protocols().len() ==> c.spec_queue(
                #[trigger] self.spec_protocols()[k],
            ).len() == 0
    }

    /// Every subscribed protocol's queue in `c` is closed.
    pub open spec fn spec_all_closed(&self, c: &ApplicationCollector) -> bool {
        forall|k: int|
            0 <= k < self.spec_protocols().len() ==> c.spec_queue_closed(
                #[trigger] self.spec_protocols()[k],
            )
    }

    /// Poll the next inbound message of any subscribed protocol and decode
    /// it. The queue effects are exactly those of the underlying fan-in
    /// poll: only the yielded message's own queue loses its head, so no
    /// message of an unsubscribed protocol is ever consumed or observed.
    /// The stream may suspend only while every subscribed queue is empty,
    /// and it signals end-of-stream exactly when all of them are also
    /// closed and drained.
    pub fn next(&mut self, c: &mut ApplicationCollector) -> (r: EventPoll<T>)
        requires
            old(self).wf(),
            old(c).wf(),
        ensures
            final(self).wf(),
            final(c).wf(),
            final(self).spec_protocols() == old(self).spec_protocols(),
            forall|q: ProtocolId| #[trigger] final(c).spec_has(q) == old(c).spec_has(q),
            forall|q: ProtocolId| #[trigger]
                final(c).spec_queue_closed(q) == old(c).spec_queue_closed(q),
            match r {
                EventPoll::Event(e) => {
                    &&& old(self).spec_listens_to(e.protocol_id)
                    &&& old(c).spec_queue(e.protocol_id).len() > 0
                    &&& e.sender == old(c).spec_queue(e.protocol_id)[0].sender
                    &&& e.network_id == old(c).spec_queue(e.protocol_id)[0].network_id
                    &&& final(c).spec_queue(e.protocol_id) == old(c).spec_queue(
                        e.protocol_id,
                    ).drop_first()
                    &&& forall|q: ProtocolId|
                        q != e.protocol_id ==> #[trigger] final(c).spec_queue(q) == old(
                            c,
                        ).spec_queue(q)
                },
                EventPoll::Undecodable { sender, protocol_id } => {
                    &&& old(self).spec_listens_to(protocol_id)
                    &&& old(c).spec_queue(protocol_id).len() > 0
                    &&& sender == old(c).spec_queue(protocol_id)[0].sender
                    &&& final(c).spec_queue(protocol_id) == old(c).spec_queue(
                        protocol_id,
                    ).drop_first()
                    &&& forall|q: ProtocolId|
                        q != protocol_id ==> #[trigger] final(c).spec_queue(q) == old(
                            c,
                        ).spec_queue(q)
                },
                EventPoll::Pending => {
                    &&& old(self).spec_all_empty(old(c))
                    &&& !old(self).spec_all_closed(old(c))
                    &&& *final(c) == *old(c)
                },
                EventPoll::EndOfStream => {
                    &&& old(self).spec_all_empty(old(c))
                    &&& old(self).spec_all_closed(old(c))
                    &&& *final(c) == *old(c)
                },
            },
    {
        match self.source.next(c) {
            PollOutcome::Message(m) => {
                match T::from_wire_bytes(m.data.as_slice()) {
                    Some(message) => EventPoll::Event(
                        NetworkEvent {
                            sender: m.sender,
                            network_id: m.network_id,
                            protocol_id: m.protocol_id,
                            message,
                        },
                    ),
                    None => EventPoll::Undecodable {
                        sender: m.sender,
                        protocol_id: m.protocol_id,
                    },
                }
            },
            PollOutcome::Pending => {
                proof {
                    lemma_events_source_agree(old(self), old(c));
                }
                EventPoll::Pending
            },
            PollOutcome::EndOfStream => {
                proof {
                    lemma_events_source_agree(old(self), old(c));
                }
                EventPoll::EndOfStream
            },
        }
    }
}

/// The events stream and its fan-in source subscribe to the same protocols,
/// so their readings of "all queues empty" and "all queues closed" agree.
proof fn lemma_events_source_agree<T: MessageTrait>(e: &NetworkEvents<T>, c: &ApplicationCollector)
    ensures
        e.spec_all_empty(c) == e.source.spec_all_empty(c),
        e.spec_all_closed(c) == e.source.spec_all_closed(c),
{
    if e.source.spec_all_empty(c) {
        assert forall|k: int| 0 <= k < e.spec_protocols().len() implies c.spec_queue(
            #[trigger] e.spec_protocols()[k],
        ).len() == 0 by {
            assert(c.spec_queue(e.source.spec_protocols()[k]).len() == 0);
        }
    }
    if e.spec_all_empty(c) {
        assert forall|k: int| 0 <= k < e.source.spec_protocols().len() implies c.spec_queue(
            #[trigger] e.source.spec_protocols()[k],
        ).len() == 0 by {
            assert(c.spec_queue(e.spec_protocols()[k]).len() == 0);
        }
    }
    if e.source.spec_all_closed(c) {
        assert forall|k: int| 0 <= k < e.spec_protocols().len() implies c.spec_queue_closed(
            #[trigger] e.spec_protocols()[k],
        ) by {
            assert(c.spec_queue_closed(e.source.spec_protocols()[k]));
        }
    }
    if e.spec_all_closed(c) {
        assert forall|k: int| 0 <= k < e.source.spec_protocols().len() implies c.spec_queue_closed(
            #[trigger] e.source.spec_protocols()[k],
        ) by {
            assert(c.spec_queue_closed(e.spec_protocols()[k]));
        }
    }
}

/// The two handles an application receives; owned exclusively by the
/// application once handed over, for the application's whole lifetime.
pub struct ApplicationNetworkInterfaces<T> {
    pub network_client: NetworkClient<T>,
    pub network_events: NetworkEvents<T>,
}

impl<T: MessageTrait> ApplicationNetworkInterfaces<T> {
    /// Bind a client and an events stream to one protocol set. The client's
    /// declared protocol sets are exactly the inputs, with one sender per
    /// distinct logical network; the events stream drains exactly the given
    /// fan-in source.
    pub fn new(
        direct_send_protocols_and_preferences: Vec<ProtocolId>,
        rpc_protocols_and_preferences: Vec<ProtocolId>,
        network_source: NetworkSource,
        network_ids: Vec<NetworkId>,
    ) -> (r: Self)
        requires
            network_source.wf(),
        ensures
            r.network_client.wf(),
            r.network_events.wf(),
            r.network_client.spec_direct() == direct_send_protocols_and_preferences@,
            r.network_client.spec_rpc() == rpc_protocols_and_preferences@,
            forall|n: NetworkId| #[trigger]
                r.network_client.spec_has_network(n) == network_ids@.contains(n),
            r.network_client.spec_pending() == Seq::<PendingRequest<T>>::empty(),
            r.network_client.spec_next_request_id() == 0,
            r.network_events.spec_protocols() == network_source.spec_protocols(),
    {
        let network_client = NetworkClient::new(
            direct_send_protocols_and_preferences,
            rpc_protocols_and_preferences,
            &network_ids,
        );
        let network_events = NetworkEvents::new(network_source);
        ApplicationNetworkInterfaces { network_client, network_events }
    }
}

/// Whether a sender for network `n` is already present.
fn contains_sender(v: &Vec<NetworkSender>, n: NetworkId) -> (b: bool)
    ensures
        b == exists|l: int| 0 <= l < v@.len() && (#[trigger] v@[l]).network_id == n,
{
    let mut i: usize = 0;
    while i < v.len()
        invariant
            i <= v@.len(),
            forall|k: int| 0 <= k < i ==> (#[trigger] v@[k]).network_id != n,
        decreases v@.len() - i,
    {
        if v[i].network_id == n {
            proof {
                assert(v@[i as int].network_id == n);
            }
            return true;
        }
        i = i + 1;
    }
    false
}

} // verus!
