//! The protocol catalog: a closed enumeration of protocol identifiers, each
//! tagged as direct-send (fire-and-forget) or request/response, together with
//! the per-application protocol sets.

use vstd::prelude::*;

verus! {

/// A protocol is either fire-and-forget or expects a correlated reply.
#[derive(Clone, Copy, Debug, PartialEq, Eq, Structural, Hash)]
pub enum ProtocolKind {
    DirectSend,
    RequestResponse,
}

/// Globally known protocol discriminators. Each maps to exactly one owning
/// application and, at runtime, to exactly one inbound queue.
#[derive(Clone, Copy, Debug, PartialEq, Eq, Structural, Hash)]
pub enum ProtocolId {
    ConsensusRpcCompressed,
    ConsensusRpcBcs,
    ConsensusRpcJson,
    ConsensusDirectSendCompressed,
    ConsensusDirectSendBcs,
    ConsensusDirectSendJson,
    MempoolDirectSend,
    StorageServiceRpc,
    PeerMonitoringServiceRpc,
}

impl ProtocolId {
    /// The kind of this protocol, as fixed by the catalog.
    pub open spec fn spec_kind(&self) -> ProtocolKind {
        match self {
            ProtocolId::ConsensusRpcCompressed => ProtocolKind::RequestResponse,
            ProtocolId::ConsensusRpcBcs => ProtocolKind::RequestResponse,
            ProtocolId::ConsensusRpcJson => ProtocolKind::RequestResponse,
            ProtocolId::ConsensusDirectSendCompressed => ProtocolKind::DirectSend,
            ProtocolId::ConsensusDirectSendBcs => ProtocolKind::DirectSend,
            ProtocolId::ConsensusDirectSendJson => ProtocolKind::DirectSend,
            ProtocolId::MempoolDirectSend => ProtocolKind::DirectSend,
            ProtocolId::StorageServiceRpc => ProtocolKind::RequestResponse,
            ProtocolId::PeerMonitoringServiceRpc => ProtocolKind::RequestResponse,
        }
    }

    #[verifier::when_used_as_spec(spec_kind)]
    pub fn kind(&self) -> (k: ProtocolKind)
        ensures
            k == self.spec_kind(),
    {
        match self {
            ProtocolId::ConsensusRpcCompressed => ProtocolKind::RequestResponse,
            ProtocolId::ConsensusRpcBcs => ProtocolKind::RequestResponse,
            ProtocolId::ConsensusRpcJson => ProtocolKind::RequestResponse,
            ProtocolId::ConsensusDirectSendCompressed => ProtocolKind::DirectSend,
            ProtocolId::ConsensusDirectSendBcs => ProtocolKind::DirectSend,
            ProtocolId::ConsensusDirectSendJson => ProtocolKind::DirectSend,
            ProtocolId::MempoolDirectSend => ProtocolKind::DirectSend,
            ProtocolId::StorageServiceRpc => ProtocolKind::RequestResponse,
            ProtocolId::PeerMonitoringServiceRpc => ProtocolKind::RequestResponse,
        }
    }
}

/// The two protocol lists an application declares, each in preference order.
pub struct Protocols {
    pub direct_send_protocols_and_preferences: Vec<ProtocolId>,
    pub rpc_protocols_and_preferences: Vec<ProtocolId>,
}

/// Direct-send protocols of the consensus application, most preferred first.
pub open spec fn spec_consensus_direct_send() -> Seq<ProtocolId> {
    seq![
        ProtocolId::ConsensusDirectSendCompressed,
        ProtocolId::ConsensusDirectSendBcs,
        ProtocolId::ConsensusDirectSendJson,
    ]
}

/// Request/response protocols of the consensus application, most preferred first.
pub open spec fn spec_consensus_rpc() -> Seq<ProtocolId> {
    seq![
        ProtocolId::ConsensusRpcCompressed,
        ProtocolId::ConsensusRpcBcs,
        ProtocolId::ConsensusRpcJson,
    ]
}

/// Protocol sets of the consensus application.
pub fn consensus_protocols() -> (p: Protocols)
    ensures
        p.direct_send_protocols_and_preferences@ == spec_consensus_direct_send(),
        p.rpc_protocols_and_preferences@ == spec_consensus_rpc(),
{
    let direct: Vec<ProtocolId> = vec![
        ProtocolId::ConsensusDirectSendCompressed,
        ProtocolId::ConsensusDirectSendBcs,
        ProtocolId::ConsensusDirectSendJson,
    ];
    let rpc: Vec<ProtocolId> = vec![
        ProtocolId::ConsensusRpcCompressed,
        ProtocolId::ConsensusRpcBcs,
        ProtocolId::ConsensusRpcJson,
    ];
    proof {
        assert(direct@ =~= spec_consensus_direct_send());
        assert(rpc@ =~= spec_consensus_rpc());
    }
    Protocols {
        direct_send_protocols_and_preferences: direct,
        rpc_protocols_and_preferences: rpc,
    }
}

/// Protocol sets of the transaction-relay (mempool) application.
pub fn mempool_protocols() -> (p: Protocols)
    ensures
        p.direct_send_protocols_and_preferences@ == seq![ProtocolId::MempoolDirectSend],
        p.rpc_protocols_and_preferences@ == Seq::<ProtocolId>::empty(),
{
    let direct: Vec<ProtocolId> = vec![ProtocolId::MempoolDirectSend];
    let rpc: Vec<ProtocolId> = Vec::new();
    proof {
        assert(direct@ =~= seq![ProtocolId::MempoolDirectSend]);
        assert(rpc@ =~= Seq::<ProtocolId>::empty());
    }
    Protocols {
        direct_send_protocols_and_preferences: direct,
        rpc_protocols_and_preferences: rpc,
    }
}

/// Protocol sets of the peer-health-monitoring application.
pub fn peer_monitoring_protocols() -> (p: Protocols)
    ensures
        p.direct_send_protocols_and_preferences@ == Seq::<ProtocolId>::empty(),
        p.rpc_protocols_and_preferences@ == seq![ProtocolId::PeerMonitoringServiceRpc],
{
    let direct: Vec<ProtocolId> = Vec::new();
    let rpc: Vec<ProtocolId> = vec![ProtocolId::PeerMonitoringServiceRpc];
    proof {
        assert(direct@ =~= Seq::<ProtocolId>::empty());
        assert(rpc@ =~= seq![ProtocolId::PeerMonitoringServiceRpc]);
    }
    Protocols {
        direct_send_protocols_and_preferences: direct,
        rpc_protocols_and_preferences: rpc,
    }
}

/// Protocol sets of the state-synchronization (storage service) application.
pub fn storage_service_protocols() -> (p: Protocols)
    ensures
        p.direct_send_protocols_and_preferences@ == Seq::<ProtocolId>::empty(),
        p.rpc_protocols_and_preferences@ == seq![ProtocolId::StorageServiceRpc],
{
    let direct: Vec<ProtocolId> = Vec::new();
    let rpc: Vec<ProtocolId> = vec![ProtocolId::StorageServiceRpc];
    proof {
        assert(direct@ =~= Seq::<ProtocolId>::empty());
        assert(rpc@ =~= seq![ProtocolId::StorageServiceRpc]);
    }
    Protocols {
        direct_send_protocols_and_preferences: direct,
        rpc_protocols_and_preferences: rpc,
    }
}

} // verus!
