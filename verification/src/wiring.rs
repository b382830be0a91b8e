//! The uniform wiring recipe of one application: build one bounded queue per
//! declared protocol, register the queues with the shared router, collect
//! the receivers into one fan-in source, and hand back the client/events
//! pair. One recipe per application, each drawing its protocol sets and its
//! queue capacity from its own configuration.

use vstd::prelude::*;
use crate::client::ApplicationNetworkInterfaces;
use crate::client::MessageTrait;
use crate::client::PendingRequest;
use crate::collector::ApplicationCollector;
use crate::collector::ApplicationConnections;
use crate::collector::ReceiverHandle;
use crate::config::NodeConfig;
use crate::config::extract_network_ids;
use crate::config::has_validator_network;
use crate::error::FatalError;
use crate::ids::NetworkId;
use crate::protocol::ProtocolId;
use crate::protocol::consensus_protocols;
use crate::protocol::mempool_protocols;
use crate::protocol::peer_monitoring_protocols;
use crate::protocol::spec_consensus_direct_send;
use crate::protocol::spec_consensus_rpc;
use crate::protocol::storage_service_protocols;
use crate::queue::QueuePolicy;
use crate::registry::PeersAndMetadata;
use crate::source::NetworkSource;

verus! {

/// No protocol occurs twice.
pub open spec fn seq_distinct(s: Seq<ProtocolId>) -> bool {
    forall|i: int, j: int| 0 <= i < j < s.len() ==> s[i] != s[j]
}

/// None of the protocols is registered in `apps` yet.
pub open spec fn none_registered(s: Seq<ProtocolId>, apps: &ApplicationCollector) -> bool {
    forall|i: int| 0 <= i < s.len() ==> !apps.spec_has(#[trigger] s[i])
}

/// The condition under which an application's wiring succeeds: at least one
/// protocol, no protocol declared twice, and none already owned elsewhere.
pub open spec fn spec_build_ok(s: Seq<ProtocolId>, apps: &ApplicationCollector) -> bool {
    &&& s.len() >= 1
    &&& seq_distinct(s)
    &&& none_registered(s, apps)
}

/// What a successful wiring leaves behind: every declared protocol owns a
/// fresh, open, empty queue, and nothing else changed.
pub open spec fn spec_build_effect(
    s: Seq<ProtocolId>,
    pre: &ApplicationCollector,
    post: &ApplicationCollector,
) -> bool {
    &&& forall|p: ProtocolId| #[trigger] post.spec_has(p) <==> pre.spec_has(p) || s.contains(p)
    &&& forall|i: int|
        0 <= i < s.len() ==> post.spec_queue(#[trigger] s[i]).len() == 0 && !post.spec_queue_closed(
            s[i],
        )
    &&& forall|p: ProtocolId|
        !s.contains(p) ==> #[trigger] post.spec_queue(p) == pre.spec_queue(p)
            && post.spec_queue_closed(p) == pre.spec_queue_closed(p)
    &&& forall|p: ProtocolId|
        !s.contains(p) ==> #[trigger] post.spec_queue_capacity(p) == pre.spec_queue_capacity(p)
            && post.spec_queue_policy(p) == pre.spec_queue_policy(p)
            && post.spec_queue_label(p) == pre.spec_queue_label(p)
}

/// What each queue a wiring registered looks like: the application's
/// configured capacity, the blocking full-queue policy, and the
/// application's counter label.
pub open spec fn spec_build_queues(
    s: Seq<ProtocolId>,
    post: &ApplicationCollector,
    capacity: usize,
    label: Seq<char>,
) -> bool {
    forall|i: int|
        0 <= i < s.len() ==> post.spec_queue_capacity(#[trigger] s[i]) == capacity
            && post.spec_queue_policy(s[i]) == QueuePolicy::Blocking && post.spec_queue_label(
            s[i],
        ) == label
}

/// Find a protocol that cannot be registered: one already owned in `apps`,
/// or one occurring twice in the list.
fn find_conflict(all: &Vec<ProtocolId>, apps: &ApplicationCollector) -> (r: Option<ProtocolId>)
    requires
        apps.wf(),
    ensures
        match r {
            Some(p) => all@.contains(p) && (apps.spec_has(p) || !seq_distinct(all@)),
            None => seq_distinct(all@) && none_registered(all@, apps),
        },
{
    let n = all.len();
    let mut i: usize = 0;
    while i < n
        invariant
            apps.wf(),
            n == all@.len(),
            i <= n,
            forall|k: int| 0 <= k < i ==> !apps.spec_has(#[trigger] all@[k]),
            forall|k: int, l: int| 0 <= k < l < i ==> all@[k] != all@[l],
        decreases n - i,
    {
        let p = all[i];
        proof {
            assert(all@.contains(p)) by {
                assert(all@[i as int] == p);
            }
        }
        if apps.has(p) {
            return Some(p);
        }
        let mut j: usize = 0;
        while j < i
            invariant
                i < n,
                n == all@.len(),
                j <= i,
                p == all@[i as int],
                forall|k: int| 0 <= k < j ==> all@[k] != p,
            decreases i - j,
        {
            if all[j] == p {
                proof {
                    assert(all@[j as int] == all@[i as int]);
                }
                return Some(p);
            }
            j = j + 1;
        }
        i = i + 1;
    }
    None
}

/// Build one application's network connections: a bounded queue per
/// declared protocol (direct-send first, then request/response, each list
/// in preference order), registered with the shared router, their receivers
/// merged into one fan-in source, and the client/events pair bound to the
/// given logical networks.
///
/// Fatal, with the router left untouched: an empty protocol set, and a
/// protocol that is already owned (or declared twice) — protocol ownership
/// is unique process-wide.
#[verifier::rlimit(60)]
pub fn build_network_connections<T: MessageTrait>(
    direct_send_protocols: Vec<ProtocolId>,
    rpc_protocols: Vec<ProtocolId>,
    queue_size: usize,
    counter_label: &str,
    apps: &mut ApplicationCollector,
    network_ids: Vec<NetworkId>,
) -> (r: Result<ApplicationNetworkInterfaces<T>, FatalError>)
    requires
        queue_size >= 1,
        direct_send_protocols@.len() + rpc_protocols@.len() <= usize::MAX,
        old(apps).wf(),
    ensures
        final(apps).wf(),
        r is Ok <==> spec_build_ok(direct_send_protocols@ + rpc_protocols@, old(apps)),
        r matches Ok(ifc) ==> spec_build_effect(
            direct_send_protocols@ + rpc_protocols@,
            old(apps),
            final(apps),
        ),
        r matches Ok(ifc) ==> spec_build_queues(
            direct_send_protocols@ + rpc_protocols@,
            final(apps),
            queue_size,
            counter_label@,
        ),
        r matches Ok(ifc) ==> {
            &&& ifc.network_client.wf()
            &&& ifc.network_events.wf()
            &&& ifc.network_client.spec_direct() == direct_send_protocols@
            &&& ifc.network_client.spec_rpc() == rpc_protocols@
            &&& forall|n: NetworkId| #[trigger]
                ifc.network_client.spec_has_network(n) == network_ids@.contains(n)
            &&& ifc.network_client.spec_pending() == Seq::<PendingRequest<T>>::empty()
            &&& ifc.network_client.spec_next_request_id() == 0
            &&& ifc.network_events.spec_protocols() == direct_send_protocols@ + rpc_protocols@
        },
        r is Err ==> *final(apps) == *old(apps),
        r matches Err(e) ==> match e {
            FatalError::EmptyMessageSource => (direct_send_protocols@ + rpc_protocols@).len()
                == 0,
            FatalError::DuplicateProtocol(p) => {
                &&& (direct_send_protocols@ + rpc_protocols@).len() >= 1
                &&& (direct_send_protocols@ + rpc_protocols@).contains(p)
                &&& old(apps).spec_has(p) || !seq_distinct(direct_send_protocols@ + rpc_protocols@)
            },
            _ => false,
        },
{
    let ghost all = direct_send_protocols@ + rpc_protocols@;
    let mut all_v: Vec<ProtocolId> = Vec::new();
    let nd = direct_send_protocols.len();
    let mut i: usize = 0;
    while i < nd
        invariant
            nd == direct_send_protocols@.len(),
            i <= nd,
            all_v@ == direct_send_protocols@.subrange(0, i as int),
        decreases nd - i,
    {
        all_v.push(direct_send_protocols[i]);
        proof {
            assert(all_v@ =~= direct_send_protocols@.subrange(0, i as int + 1));
        }
        i = i + 1;
    }
    let nr = rpc_protocols.len();
    let mut j: usize = 0;
    while j < nr
        invariant
            nd == direct_send_protocols@.len(),
            nr == rpc_protocols@.len(),
            j <= nr,
            all_v@ == direct_send_protocols@ + rpc_protocols@.subrange(0, j as int),
        decreases nr - j,
    {
        proof {
            assert(direct_send_protocols@.subrange(0, nd as int) =~= direct_send_protocols@);
        }
        all_v.push(rpc_protocols[j]);
        proof {
            assert(all_v@ =~= direct_send_protocols@ + rpc_protocols@.subrange(0, j as int + 1));
        }
        j = j + 1;
    }
    proof {
        assert(all_v@ =~= all);
    }
    if all_v.len() == 0 {
        return Err(FatalError::EmptyMessageSource);
    }
    match find_conflict(&all_v, apps) {
        Some(p) => {
            proof {
                if old(apps).spec_has(p) {
                    let w = choose|w: int| 0 <= w < all.len() && all[w] == p;
                    assert(old(apps).spec_has(all[w]));
                }
            }
            return Err(FatalError::DuplicateProtocol(p));
        },
        None => {},
    }
    let n = all_v.len();
    let mut receivers: Vec<ReceiverHandle> = Vec::new();
    let mut i: usize = 0;
    while i < n
        invariant
            apps.wf(),
            n == all_v@.len(),
            all_v@ == all,
            i <= n,
            queue_size >= 1,
            seq_distinct(all),
            none_registered(all, old(apps)),
            receivers@.len() == i,
            forall|k: int| 0 <= k < i ==> (#[trigger] receivers@[k]).protocol_id == all[k],
            forall|p: ProtocolId| #[trigger]
                apps.spec_has(p) <==> old(apps).spec_has(p) || all.subrange(0, i as int).contains(
                    p,
                ),
            forall|k: int|
                0 <= k < i ==> apps.spec_queue(#[trigger] all[k]).len() == 0
                    && !apps.spec_queue_closed(all[k]),
            forall|k: int|
                0 <= k < i ==> apps.spec_queue_capacity(#[trigger] all[k]) == queue_size
                    && apps.spec_queue_policy(all[k]) == QueuePolicy::Blocking
                    && apps.spec_queue_label(all[k]) == counter_label@,
            forall|p: ProtocolId|
                !all.subrange(0, i as int).contains(p) ==> #[trigger] apps.spec_queue(p) == old(
                    apps,
                ).spec_queue(p) && apps.spec_queue_closed(p) == old(apps).spec_queue_closed(p),
            forall|p: ProtocolId|
                !all.subrange(0, i as int).contains(p) ==> #[trigger] apps.spec_queue_capacity(p)
                    == old(apps).spec_queue_capacity(p),
            forall|p: ProtocolId|
                !all.subrange(0, i as int).contains(p) ==> #[trigger] apps.spec_queue_policy(p)
                    == old(apps).spec_queue_policy(p),
            forall|p: ProtocolId|
                !all.subrange(0, i as int).contains(p) ==> #[trigger] apps.spec_queue_label(p)
                    == old(apps).spec_queue_label(p),
        decreases n - i,
    {
        let p = all_v[i];
        let ghost apps_pre = *apps;
        let (conn, receiver) = ApplicationConnections::build(p, queue_size, counter_label);
        proof {
            assert(!apps.spec_has(p)) by {
                assert(!old(apps).spec_has(all[i as int]));
                if all.subrange(0, i as int).contains(p) {
                    let w = choose|w: int|
                        0 <= w < i && #[trigger] all.subrange(0, i as int)[w] == p;
                    assert(all[w] == all[i as int]);
                }
            }
        }
        let added = apps.add(conn);
        match added {
            Ok(()) => {},
            Err(_) => {
                proof {
                    assert(false);
                }
            },
        }
        receivers.push(receiver);
        proof {
            assert(all.subrange(0, i as int + 1).contains(all[i as int])) by {
                assert(all.subrange(0, i as int + 1)[i as int] == all[i as int]);
            }
            assert forall|p2: ProtocolId| #[trigger]
                apps.spec_has(p2) <==> old(apps).spec_has(p2) || all.subrange(
                0,
                i as int + 1,
            ).contains(p2) by {
                if apps.spec_has(p2) {
                    if p2 == p {
                    } else {
                        assert(apps_pre.spec_has(p2));
                    }
                }
                if all.subrange(0, i as int + 1).contains(p2) {
                    let w = choose|w: int|
                        0 <= w < i + 1 && #[trigger] all.subrange(0, i as int + 1)[w] == p2;
                    if w < i {
                        assert(all.subrange(0, i as int)[w] == p2);
                        assert(all.subrange(0, i as int).contains(p2));
                        assert(apps_pre.spec_has(p2));
                    } else {
                        assert(p2 == all[i as int]);
                    }
                }
            }
            assert forall|k: int| 0 <= k < i + 1 implies apps.spec_queue(
                #[trigger] all[k],
            ).len() == 0 && !apps.spec_queue_closed(all[k]) by {
                if k < i {
                    assert(all[k] != p);
                    assert(apps_pre.spec_queue(all[k]).len() == 0);
                } else {
                    assert(apps.spec_queue(p).len() == 0);
                }
            }
            assert forall|p2: ProtocolId|
                !all.subrange(0, i as int + 1).contains(p2) implies #[trigger] apps.spec_queue(p2)
                == old(apps).spec_queue(p2) && apps.spec_queue_closed(p2) == old(
                apps,
            ).spec_queue_closed(p2) by {
                assert(p2 != p) by {
                    if p2 == p {
                        assert(all.subrange(0, i as int + 1)[i as int] == p);
                    }
                }
                assert(!all.subrange(0, i as int).contains(p2)) by {
                    if all.subrange(0, i as int).contains(p2) {
                        let w = choose|w: int|
                            0 <= w < i && all.subrange(0, i as int)[w] == p2;
                        assert(all.subrange(0, i as int + 1)[w] == p2);
                    }
                }
            }
            assert forall|p2: ProtocolId|
                !all.subrange(0, i as int + 1).contains(p2) implies #[trigger] apps.spec_queue_capacity(
                p2,
            ) == old(apps).spec_queue_capacity(p2) && #[trigger] apps.spec_queue_policy(p2) == old(
                apps,
            ).spec_queue_policy(p2) && #[trigger] apps.spec_queue_label(p2) == old(
                apps,
            ).spec_queue_label(p2) by {
                assert(p2 != p) by {
                    if p2 == p {
                        assert(all.subrange(0, i as int + 1)[i as int] == p);
                    }
                }
                assert(!all.subrange(0, i as int).contains(p2)) by {
                    if all.subrange(0, i as int).contains(p2) {
                        let w = choose|w: int|
                            0 <= w < i && all.subrange(0, i as int)[w] == p2;
                        assert(all.subrange(0, i as int + 1)[w] == p2);
                    }
                }
                assert(apps.spec_queue_capacity(p2) == apps_pre.spec_queue_capacity(p2));
                assert(apps.spec_queue_policy(p2) == apps_pre.spec_queue_policy(p2));
                assert(apps.spec_queue_label(p2) == apps_pre.spec_queue_label(p2));
                assert(apps_pre.spec_queue_capacity(p2) == old(apps).spec_queue_capacity(p2));
                assert(apps_pre.spec_queue_policy(p2) == old(apps).spec_queue_policy(p2));
                assert(apps_pre.spec_queue_label(p2) == old(apps).spec_queue_label(p2));
            }
        }
        i = i + 1;
    }
    proof {
        assert(all.subrange(0, n as int) =~= all);
    }
    let source = if receivers.len() == 1 {
        let s = NetworkSource::new_single_source(receivers[0]);
        proof {
            assert(s.spec_protocols() =~= all);
        }
        s
    } else {
        match NetworkSource::new_multi_source(receivers) {
            Ok(s) => {
                proof {
                    assert(s.spec_protocols() =~= all);
                }
                s
            },
            Err(_) => vstd::pervasive::unreached(),
        }
    };
    Ok(ApplicationNetworkInterfaces::new(
        direct_send_protocols,
        rpc_protocols,
        source,
        network_ids,
    ))
}

/// Wire the consensus application. The consensus interface exists only on a
/// node that participates in a validator-class network: without one, an
/// explicit absent value is returned and no queue is registered or
/// allocated.
pub fn consensus_network_connections<T: MessageTrait>(
    node_config: &NodeConfig,
    apps: &mut ApplicationCollector,
) -> (r: Result<Option<ApplicationNetworkInterfaces<T>>, FatalError>)
    requires
        node_config.wf(),
        old(apps).wf(),
    ensures
        final(apps).wf(),
        ({
            let all = spec_consensus_direct_send() + spec_consensus_rpc();
            match r {
                Ok(opt) => {
                    &&& (opt is None <==> !node_config.spec_has_validator_network())
                    &&& opt is None ==> *final(apps) == *old(apps)
                    &&& match opt {
                        Some(ifc) => {
                            &&& spec_build_ok(all, old(apps))
                            &&& spec_build_effect(all, old(apps), final(apps))
                            &&& spec_build_queues(
                                all,
                                final(apps),
                                node_config.consensus_max_network_channel_size,
                                "consensus"@,
                            )
                            &&& ifc.network_client.spec_next_request_id() == 0
                            &&& ifc.network_client.spec_direct() == spec_consensus_direct_send()
                            &&& ifc.network_client.spec_rpc() == spec_consensus_rpc()
                            &&& forall|n: NetworkId| #[trigger]
                                ifc.network_client.spec_has_network(n)
                                    == node_config.spec_network_ids().contains(n)
                            &&& ifc.network_events.spec_protocols() == all
                        },
                        None => true,
                    }
                },
                Err(e) => {
                    &&& node_config.spec_has_validator_network()
                    &&& *final(apps) == *old(apps)
                    &&& !spec_build_ok(all, old(apps))
                    &&& e matches FatalError::DuplicateProtocol(_)
                },
            }
        }),
{
    if !has_validator_network(node_config) {
        return Ok(None);
    }
    let protocols = consensus_protocols();
    let queue_size = node_config.consensus_max_network_channel_size;
    let network_ids = extract_network_ids(node_config);
    let built = build_network_connections(
        protocols.direct_send_protocols_and_preferences,
        protocols.rpc_protocols_and_preferences,
        queue_size,
        "consensus",
        apps,
        network_ids,
    );
    match built {
        Ok(ifc) => Ok(Some(ifc)),
        Err(e) => {
            proof {
                assert((spec_consensus_direct_send() + spec_consensus_rpc()).len() == 6);
            }
            Err(e)
        },
    }
}

/// Wire the peer-health-monitoring application.
pub fn peer_monitoring_network_connections<T: MessageTrait>(
    node_config: &NodeConfig,
    apps: &mut ApplicationCollector,
) -> (r: Result<ApplicationNetworkInterfaces<T>, FatalError>)
    requires
        node_config.wf(),
        old(apps).wf(),
    ensures
        final(apps).wf(),
        ({
            let all = seq![ProtocolId::PeerMonitoringServiceRpc];
            match r {
                Ok(ifc) => {
                    &&& spec_build_ok(all, old(apps))
                    &&& spec_build_effect(all, old(apps), final(apps))
                    &&& spec_build_queues(
                        all,
                        final(apps),
                        node_config.peer_monitoring_max_network_channel_size,
                        "peer_monitoring"@,
                    )
                    &&& ifc.network_client.spec_next_request_id() == 0
                    &&& ifc.network_client.spec_direct() == Seq::<ProtocolId>::empty()
                    &&& ifc.network_client.spec_rpc() == all
                    &&& forall|n: NetworkId| #[trigger]
                        ifc.network_client.spec_has_network(n)
                            == node_config.spec_network_ids().contains(n)
                    &&& ifc.network_events.spec_protocols() == all
                },
                Err(e) => {
                    &&& *final(apps) == *old(apps)
                    &&& old(apps).spec_has(ProtocolId::PeerMonitoringServiceRpc)
                    &&& e == FatalError::DuplicateProtocol(ProtocolId::PeerMonitoringServiceRpc)
                },
            }
        }),
        r is Ok <==> !old(apps).spec_has(ProtocolId::PeerMonitoringServiceRpc),
{
    let protocols = peer_monitoring_protocols();
    let queue_size = node_config.peer_monitoring_max_network_channel_size;
    let network_ids = extract_network_ids(node_config);
    let ghost all = protocols.direct_send_protocols_and_preferences@
        + protocols.rpc_protocols_and_preferences@;
    proof {
        assert(all =~= seq![ProtocolId::PeerMonitoringServiceRpc]);
    }
    let built = build_network_connections(
        protocols.direct_send_protocols_and_preferences,
        protocols.rpc_protocols_and_preferences,
        queue_size,
        "peer_monitoring",
        apps,
        network_ids,
    );
    match built {
        Ok(ifc) => Ok(ifc),
        Err(e) => {
            proof {
                assert(all[0] == ProtocolId::PeerMonitoringServiceRpc);
                assert(seq_distinct(all));
            }
            match e {
                FatalError::DuplicateProtocol(p) => {
                    proof {
                        let w = choose|w: int| 0 <= w < all.len() && all[w] == p;
                        assert(p == ProtocolId::PeerMonitoringServiceRpc);
                    }
                    Err(FatalError::DuplicateProtocol(p))
                },
                _ => vstd::pervasive::unreached(),
            }
        },
    }
}

/// Wire the state-synchronization (storage service) application.
pub fn storage_service_network_connections<T: MessageTrait>(
    node_config: &NodeConfig,
    apps: &mut ApplicationCollector,
) -> (r: Result<ApplicationNetworkInterfaces<T>, FatalError>)
    requires
        node_config.wf(),
        old(apps).wf(),
    ensures
        final(apps).wf(),
        ({
            let all = seq![ProtocolId::StorageServiceRpc];
            match r {
                Ok(ifc) => {
                    &&& spec_build_ok(all, old(apps))
                    &&& spec_build_effect(all, old(apps), final(apps))
                    &&& spec_build_queues(
                        all,
                        final(apps),
                        node_config.storage_service_max_network_channel_size,
                        "storage_service"@,
                    )
                    &&& ifc.network_client.spec_next_request_id() == 0
                    &&& ifc.network_client.spec_direct() == Seq::<ProtocolId>::empty()
                    &&& ifc.network_client.spec_rpc() == all
                    &&& forall|n: NetworkId| #[trigger]
                        ifc.network_client.spec_has_network(n)
                            == node_config.spec_network_ids().contains(n)
                    &&& ifc.network_events.spec_protocols() == all
                },
                Err(e) => {
                    &&& *final(apps) == *old(apps)
                    &&& old(apps).spec_has(ProtocolId::StorageServiceRpc)
                    &&& e == FatalError::DuplicateProtocol(ProtocolId::StorageServiceRpc)
                },
            }
        }),
        r is Ok <==> !old(apps).spec_has(ProtocolId::StorageServiceRpc),
{
    let protocols = storage_service_protocols();
    let queue_size = node_config.storage_service_max_network_channel_size;
    let network_ids = extract_network_ids(node_config);
    let ghost all = protocols.direct_send_protocols_and_preferences@
        + protocols.rpc_protocols_and_preferences@;
    proof {
        assert(all =~= seq![ProtocolId::StorageServiceRpc]);
    }
    let built = build_network_connections(
        protocols.direct_send_protocols_and_preferences,
        protocols.rpc_protocols_and_preferences,
        queue_size,
        "storage_service",
        apps,
        network_ids,
    );
    match built {
        Ok(ifc) => Ok(ifc),
        Err(e) => {
            proof {
                assert(all[0] == ProtocolId::StorageServiceRpc);
                assert(seq_distinct(all));
            }
            match e {
                FatalError::DuplicateProtocol(p) => {
                    proof {
                        let w = choose|w: int| 0 <= w < all.len() && all[w] == p;
                        assert(p == ProtocolId::StorageServiceRpc);
                    }
                    Err(FatalError::DuplicateProtocol(p))
                },
                _ => vstd::pervasive::unreached(),
            }
        },
    }
}

/// Wire the transaction-relay (mempool) application.
pub fn mempool_network_connections<T: MessageTrait>(
    node_config: &NodeConfig,
    apps: &mut ApplicationCollector,
) -> (r: Result<ApplicationNetworkInterfaces<T>, FatalError>)
    requires
        node_config.wf(),
        old(apps).wf(),
    ensures
        final(apps).wf(),
        ({
            let all = seq![ProtocolId::MempoolDirectSend];
            match r {
                Ok(ifc) => {
                    &&& spec_build_ok(all, old(apps))
                    &&& spec_build_effect(all, old(apps), final(apps))
                    &&& spec_build_queues(
                        all,
                        final(apps),
                        node_config.mempool_max_network_channel_size,
                        "mempool"@,
                    )
                    &&& ifc.network_client.spec_next_request_id() == 0
                    &&& ifc.network_client.spec_direct() == all
                    &&& ifc.network_client.spec_rpc() == Seq::<ProtocolId>::empty()
                    &&& forall|n: NetworkId| #[trigger]
                        ifc.network_client.spec_has_network(n)
                            == node_config.spec_network_ids().contains(n)
                    &&& ifc.network_events.spec_protocols() == all
                },
                Err(e) => {
                    &&& *final(apps) == *old(apps)
                    &&& old(apps).spec_has(ProtocolId::MempoolDirectSend)
                    &&& e == FatalError::DuplicateProtocol(ProtocolId::MempoolDirectSend)
                },
            }
        }),
        r is Ok <==> !old(apps).spec_has(ProtocolId::MempoolDirectSend),
{
    let protocols = mempool_protocols();
    let queue_size = node_config.mempool_max_network_channel_size;
    let network_ids = extract_network_ids(node_config);
    let ghost all = protocols.direct_send_protocols_and_preferences@
        + protocols.rpc_protocols_and_preferences@;
    proof {
        assert(all =~= seq![ProtocolId::MempoolDirectSend]);
    }
    let built = build_network_connections(
        protocols.direct_send_protocols_and_preferences,
        protocols.rpc_protocols_and_preferences,
        queue_size,
        "mempool",
        apps,
        network_ids,
    );
    match built {
        Ok(ifc) => Ok(ifc),
        Err(e) => {
            proof {
                assert(all[0] == ProtocolId::MempoolDirectSend);
                assert(seq_distinct(all));
            }
            match e {
                FatalError::DuplicateProtocol(p) => {
                    proof {
                        let w = choose|w: int| 0 <= w < all.len() && all[w] == p;
                        assert(p == ProtocolId::MempoolDirectSend);
                    }
                    Err(FatalError::DuplicateProtocol(p))
                },
                _ => vstd::pervasive::unreached(),
            }
        },
    }
}

/// Create the shared peer registry, scoped to every configured logical
/// network.
pub fn create_peers_and_metadata(node_config: &NodeConfig) -> (r: PeersAndMetadata)
    ensures
        r.wf(),
        r.spec_networks() == node_config.spec_network_ids(),
        forall|n: NetworkId, p: crate::ids::PeerId| !r.spec_has(n, p),
{
    let network_ids = extract_network_ids(node_config);
    PeersAndMetadata::new(&network_ids)
}

} // verus!
