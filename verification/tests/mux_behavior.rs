use netmux::client::ApplicationNetworkInterfaces;
use netmux::client::EventPoll;
use netmux::client::MessageTrait;
use netmux::collector::ApplicationCollector;
use netmux::collector::ApplicationConnections;
use netmux::collector::RouteOutcome;
use netmux::config::NetworkConfig;
use netmux::config::NodeConfig;
use netmux::config::extract_network_ids;
use netmux::config::has_validator_network;
use netmux::error::FatalError;
use netmux::error::SendError;
use netmux::ids::ChainId;
use netmux::ids::NetworkId;
use netmux::ids::PeerId;
use netmux::orchestrator::NetworkStage;
use netmux::orchestrator::create_network_runtime;
use netmux::orchestrator::setup_networks;
use netmux::protocol::ProtocolId;
use netmux::protocol::ProtocolKind;
use netmux::protocol::consensus_protocols;
use netmux::protocol::mempool_protocols;
use netmux::protocol::peer_monitoring_protocols;
use netmux::protocol::storage_service_protocols;
use netmux::queue::BoundedQueue;
use netmux::queue::PollOutcome;
use netmux::queue::PushOutcome;
use netmux::queue::QueuePolicy;
use netmux::queue::ReceivedMessage;
use netmux::registry::PeerMetadata;
use netmux::registry::PeerRole;
use netmux::source::NetworkSource;
use netmux::wiring::build_network_connections;
use netmux::wiring::consensus_network_connections;
use netmux::wiring::create_peers_and_metadata;
use netmux::wiring::mempool_network_connections;
use netmux::wiring::storage_service_network_connections;

#[derive(Clone, Debug, PartialEq)]
struct TestMsg(Vec<u8>);

impl MessageTrait for TestMsg {
    fn to_wire_bytes(&self) -> Vec<u8> {
        self.0.clone()
    }

    fn from_wire_bytes(data: &[u8]) -> Option<Self> {
        Some(TestMsg(data.to_vec()))
    }
}

fn message(protocol_id: ProtocolId, tag: u8) -> ReceivedMessage {
    ReceivedMessage {
        sender: PeerId(7),
        network_id: NetworkId::Public,
        protocol_id,
        data: vec![tag],
    }
}

fn plain_config(with_validator_fullnode_net: bool) -> NodeConfig {
    let mut full_node_networks = vec![NetworkConfig {
        network_id: NetworkId::Public,
        mutual_authentication: false,
        runtime_threads: Some(4),
    }];
    if with_validator_fullnode_net {
        full_node_networks.push(NetworkConfig {
            network_id: NetworkId::Validator,
            mutual_authentication: true,
            runtime_threads: None,
        });
    }
    NodeConfig {
        full_node_networks,
        validator_network: None,
        consensus_max_network_channel_size: 8,
        mempool_max_network_channel_size: 8,
        peer_monitoring_max_network_channel_size: 8,
        storage_service_max_network_channel_size: 8,
    }
}

#[test]
fn fifo_within_one_protocol() {
    let mut apps = ApplicationCollector::new();
    let (conn_a, recv_a) =
        ApplicationConnections::build(ProtocolId::MempoolDirectSend, 8, "mempool");
    let (conn_b, _recv_b) =
        ApplicationConnections::build(ProtocolId::StorageServiceRpc, 8, "storage_service");
    apps.add(conn_a).unwrap();
    apps.add(conn_b).unwrap();

    // Interleave pushes to another protocol's queue.
    for tag in [1u8, 2, 3] {
        assert_eq!(
            apps.route(message(ProtocolId::MempoolDirectSend, tag)),
            RouteOutcome::Queued(PushOutcome::Delivered)
        );
        assert_eq!(
            apps.route(message(ProtocolId::StorageServiceRpc, tag + 10)),
            RouteOutcome::Queued(PushOutcome::Delivered)
        );
    }

    let mut source = NetworkSource::new_single_source(recv_a);
    let mut seen = Vec::new();
    loop {
        match source.next(&mut apps) {
            PollOutcome::Message(m) => {
                assert_eq!(m.protocol_id, ProtocolId::MempoolDirectSend);
                seen.push(m.data[0]);
            }
            PollOutcome::Pending => break,
            PollOutcome::EndOfStream => break,
        }
    }
    assert_eq!(seen, vec![1, 2, 3]);
}

#[test]
fn no_cross_talk_between_protocols() {
    let mut apps = ApplicationCollector::new();
    let (conn_a, _recv_a) =
        ApplicationConnections::build(ProtocolId::MempoolDirectSend, 8, "mempool");
    let (conn_b, recv_b) =
        ApplicationConnections::build(ProtocolId::StorageServiceRpc, 8, "storage_service");
    apps.add(conn_a).unwrap();
    apps.add(conn_b).unwrap();

    apps.route(message(ProtocolId::MempoolDirectSend, 42));

    // A consumer registered only for the storage protocol never sees it.
    let mut source_b = NetworkSource::new_single_source(recv_b);
    assert_eq!(source_b.next(&mut apps), PollOutcome::Pending);
    assert_eq!(apps.queue_len(ProtocolId::MempoolDirectSend), 1);
}

#[test]
fn capacity_two_blocking_backpressure() {
    let mut q: BoundedQueue<u8> = BoundedQueue::new(2, QueuePolicy::Blocking);
    assert_eq!(q.push(b'A'), PushOutcome::Delivered);
    assert_eq!(q.push(b'B'), PushOutcome::Delivered);
    // The third push finds the queue full and must wait.
    assert_eq!(q.push(b'C'), PushOutcome::WouldBlock);
    // The consumer drains one message; the retried push completes.
    assert_eq!(q.poll(), PollOutcome::Message(b'A'));
    assert_eq!(q.push(b'C'), PushOutcome::Delivered);
    assert_eq!(q.poll(), PollOutcome::Message(b'B'));
    assert_eq!(q.poll(), PollOutcome::Message(b'C'));
    assert_eq!(q.poll(), PollOutcome::Pending);
}

#[test]
fn drop_oldest_policy() {
    let mut q: BoundedQueue<u8> = BoundedQueue::new(2, QueuePolicy::DropOldest);
    assert_eq!(q.push(1), PushOutcome::Delivered);
    assert_eq!(q.push(2), PushOutcome::Delivered);
    assert_eq!(q.push(3), PushOutcome::DroppedOldest);
    assert_eq!(q.poll(), PollOutcome::Message(2));
    assert_eq!(q.poll(), PollOutcome::Message(3));
}

#[test]
fn closing_one_queue_leaves_the_other() {
    let mut apps = ApplicationCollector::new();
    let (conn_a, recv_a) =
        ApplicationConnections::build(ProtocolId::MempoolDirectSend, 8, "mempool");
    let (conn_b, recv_b) =
        ApplicationConnections::build(ProtocolId::StorageServiceRpc, 8, "storage_service");
    apps.add(conn_a).unwrap();
    apps.add(conn_b).unwrap();

    apps.close_protocol(ProtocolId::MempoolDirectSend);
    assert_eq!(
        apps.route(message(ProtocolId::MempoolDirectSend, 1)),
        RouteOutcome::Queued(PushOutcome::Closed)
    );
    // Delivery to the other application is unaffected.
    assert_eq!(
        apps.route(message(ProtocolId::StorageServiceRpc, 2)),
        RouteOutcome::Queued(PushOutcome::Delivered)
    );
    let mut source_b = NetworkSource::new_single_source(recv_b);
    match source_b.next(&mut apps) {
        PollOutcome::Message(m) => assert_eq!(m.data, vec![2]),
        other => panic!("expected a message, got {:?}", other),
    }
    // The closed, drained queue signals end of stream.
    let mut source_a = NetworkSource::new_single_source(recv_a);
    assert_eq!(source_a.next(&mut apps), PollOutcome::EndOfStream);
}

#[test]
fn empty_message_source_is_fatal() {
    assert_eq!(
        NetworkSource::new_multi_source(vec![]).err().unwrap(),
        FatalError::EmptyMessageSource
    );
    let mut apps = ApplicationCollector::new();
    let built = build_network_connections::<TestMsg>(
        vec![],
        vec![],
        8,
        "empty_app",
        &mut apps,
        vec![NetworkId::Public],
    );
    assert_eq!(built.err().unwrap(), FatalError::EmptyMessageSource);
}

#[test]
fn duplicate_protocol_is_fatal() {
    let mut apps = ApplicationCollector::new();
    let first = build_network_connections::<TestMsg>(
        vec![ProtocolId::MempoolDirectSend],
        vec![],
        8,
        "mempool",
        &mut apps,
        vec![NetworkId::Public],
    );
    assert!(first.is_ok());
    let second = build_network_connections::<TestMsg>(
        vec![ProtocolId::MempoolDirectSend],
        vec![],
        8,
        "mempool_again",
        &mut apps,
        vec![NetworkId::Public],
    );
    assert_eq!(
        second.err().unwrap(),
        FatalError::DuplicateProtocol(ProtocolId::MempoolDirectSend)
    );
}

#[test]
fn interface_carries_declared_protocols() {
    let mut apps = ApplicationCollector::new();
    let protocols = consensus_protocols();
    let ifc: ApplicationNetworkInterfaces<TestMsg> = build_network_connections(
        protocols.direct_send_protocols_and_preferences,
        protocols.rpc_protocols_and_preferences,
        8,
        "consensus",
        &mut apps,
        vec![NetworkId::Validator],
    )
    .unwrap();
    // Observable through the client: a declared protocol passes the
    // protocol check, an undeclared one is refused.
    let pam = create_peers_and_metadata(&plain_config(true));
    let mut opc = netmux::outbound::OutboundPeerConnections::new();
    let r = ifc.network_client.send_direct(
        NetworkId::Validator,
        PeerId(1),
        ProtocolId::MempoolDirectSend,
        &TestMsg(vec![1]),
        &pam,
        &mut opc,
    );
    assert_eq!(
        r,
        Err(SendError::UnsupportedProtocol(ProtocolId::MempoolDirectSend))
    );
    let r = ifc.network_client.send_direct(
        NetworkId::Validator,
        PeerId(1),
        ProtocolId::ConsensusDirectSendBcs,
        &TestMsg(vec![1]),
        &pam,
        &mut opc,
    );
    // The protocol is accepted; the failure is now about the peer.
    assert_eq!(r, Err(SendError::DestinationUnreachable(PeerId(1))));
}

#[test]
fn send_direct_paths() {
    let config = plain_config(false);
    let pam = {
        let mut pam = create_peers_and_metadata(&config);
        pam.upsert_peer(
            NetworkId::Public,
            PeerId(9),
            PeerMetadata {
                role: PeerRole::Unknown,
                address: 0xbeef,
                healthy: true,
            },
        )
        .unwrap();
        pam
    };
    let mut opc = netmux::outbound::OutboundPeerConnections::new();

    let mut apps = ApplicationCollector::new();
    let ifc: ApplicationNetworkInterfaces<TestMsg> = mempool_network_connections(
        &config, &mut apps,
    )
    .unwrap();
    let client = ifc.network_client;

    // Unknown logical network.
    assert_eq!(
        client.send_direct(
            NetworkId::Vfn,
            PeerId(9),
            ProtocolId::MempoolDirectSend,
            &TestMsg(vec![1]),
            &pam,
            &mut opc
        ),
        Err(SendError::NoAvailableNetwork(NetworkId::Vfn))
    );
    // No live outbound connection yet.
    assert_eq!(
        client.send_direct(
            NetworkId::Public,
            PeerId(9),
            ProtocolId::MempoolDirectSend,
            &TestMsg(vec![1]),
            &pam,
            &mut opc
        ),
        Err(SendError::PeerNotConnected(PeerId(9)))
    );
    // With a connection, the send lands in the peer's outbox.
    assert!(opc.insert_connection(NetworkId::Public, PeerId(9)));
    client
        .send_direct(
            NetworkId::Public,
            PeerId(9),
            ProtocolId::MempoolDirectSend,
            &TestMsg(vec![1, 2, 3]),
            &pam,
            &mut opc,
        )
        .unwrap();
    let outbox = opc.drain(NetworkId::Public, PeerId(9)).unwrap();
    assert_eq!(outbox.len(), 1);
    assert_eq!(outbox[0].to, PeerId(9));
    assert_eq!(outbox[0].network_id, NetworkId::Public);
    assert_eq!(outbox[0].protocol_id, ProtocolId::MempoolDirectSend);
    assert_eq!(outbox[0].data, vec![1, 2, 3]);

    // After teardown the next send fails as no longer reachable.
    assert!(opc.remove_connection(NetworkId::Public, PeerId(9)));
    assert_eq!(
        client.send_direct(
            NetworkId::Public,
            PeerId(9),
            ProtocolId::MempoolDirectSend,
            &TestMsg(vec![1]),
            &pam,
            &mut opc
        ),
        Err(SendError::PeerNotConnected(PeerId(9)))
    );
}

#[test]
fn rpc_request_correlation() {
    let config = plain_config(false);
    let mut pam = create_peers_and_metadata(&config);
    pam.upsert_peer(
        NetworkId::Public,
        PeerId(3),
        PeerMetadata {
            role: PeerRole::ValidatorFullNode,
            address: 1,
            healthy: true,
        },
    )
    .unwrap();
    let mut opc = netmux::outbound::OutboundPeerConnections::new();
    opc.insert_connection(NetworkId::Public, PeerId(3));

    let mut apps = ApplicationCollector::new();
    let ifc: ApplicationNetworkInterfaces<TestMsg> = storage_service_network_connections(
        &config, &mut apps,
    )
    .unwrap();
    let mut client = ifc.network_client;

    let request_id = client
        .send_rpc_request(
            NetworkId::Public,
            PeerId(3),
            ProtocolId::StorageServiceRpc,
            &TestMsg(vec![7]),
            &pam,
            &mut opc,
        )
        .unwrap();
    assert_eq!(request_id, 0);

    // A response for an unknown request is not recorded.
    assert!(!client.deliver_response(PeerId(3), 99, TestMsg(vec![1])));
    assert_eq!(client.take_response(PeerId(3), request_id), None);

    // The matching response is recorded, then handed over exactly once.
    assert!(client.deliver_response(PeerId(3), request_id, TestMsg(vec![8])));
    assert_eq!(
        client.take_response(PeerId(3), request_id),
        Some(TestMsg(vec![8]))
    );
    assert_eq!(client.take_response(PeerId(3), request_id), None);
}

#[test]
fn events_decode_inbound_messages() {
    let mut apps = ApplicationCollector::new();
    let ifc: ApplicationNetworkInterfaces<TestMsg> = mempool_network_connections(
        &plain_config(false),
        &mut apps,
    )
    .unwrap();
    let mut events = ifc.network_events;

    apps.route(message(ProtocolId::MempoolDirectSend, 5));
    match events.next(&mut apps) {
        EventPoll::Event(e) => {
            assert_eq!(e.sender, PeerId(7));
            assert_eq!(e.protocol_id, ProtocolId::MempoolDirectSend);
            assert_eq!(e.message, TestMsg(vec![5]));
        }
        other => panic!("expected an event, got {:?}", other),
    }
    assert!(matches!(events.next(&mut apps), EventPoll::Pending));
}

#[test]
fn validator_without_mutual_auth_aborts_setup() {
    let mut config = plain_config(false);
    config.validator_network = Some(NetworkConfig {
        network_id: NetworkId::Validator,
        mutual_authentication: false,
        runtime_threads: Some(2),
    });
    assert_eq!(
        setup_networks(&config, ChainId(4)).err().unwrap(),
        FatalError::ValidatorMutualAuthenticationDisabled
    );

    // Flipping only the authentication flag lets construction proceed.
    config.validator_network = Some(NetworkConfig {
        network_id: NetworkId::Validator,
        mutual_authentication: true,
        runtime_threads: Some(2),
    });
    let networks = setup_networks(&config, ChainId(4)).unwrap();
    assert_eq!(networks.len(), 2);
    for orchestrator in &networks {
        assert_eq!(orchestrator.stage, NetworkStage::Started);
        assert_eq!(orchestrator.chain_id, ChainId(4));
    }
    assert_eq!(
        networks[1].config.network_id,
        NetworkId::Validator
    );
}

#[test]
fn absent_consensus_interface_without_validator_network() {
    let config = plain_config(false);
    assert!(!has_validator_network(&config));
    let mut apps = ApplicationCollector::new();
    let absent = consensus_network_connections::<TestMsg>(&config, &mut apps).unwrap();
    assert!(absent.is_none());
    // No queue was allocated for it.
    for protocol in [
        ProtocolId::ConsensusDirectSendBcs,
        ProtocolId::ConsensusRpcBcs,
    ] {
        assert!(!apps.has(protocol));
    }

    let config = plain_config(true);
    assert!(has_validator_network(&config));
    let present = consensus_network_connections::<TestMsg>(&config, &mut apps).unwrap();
    assert!(present.is_some());
    assert!(apps.has(ProtocolId::ConsensusDirectSendBcs));
}

#[test]
fn protocol_catalog_sets() {
    let c = consensus_protocols();
    assert_eq!(
        c.direct_send_protocols_and_preferences,
        vec![
            ProtocolId::ConsensusDirectSendCompressed,
            ProtocolId::ConsensusDirectSendBcs,
            ProtocolId::ConsensusDirectSendJson,
        ]
    );
    assert_eq!(
        c.rpc_protocols_and_preferences,
        vec![
            ProtocolId::ConsensusRpcCompressed,
            ProtocolId::ConsensusRpcBcs,
            ProtocolId::ConsensusRpcJson,
        ]
    );
    let m = mempool_protocols();
    assert_eq!(
        m.direct_send_protocols_and_preferences,
        vec![ProtocolId::MempoolDirectSend]
    );
    assert!(m.rpc_protocols_and_preferences.is_empty());
    let p = peer_monitoring_protocols();
    assert!(p.direct_send_protocols_and_preferences.is_empty());
    assert_eq!(
        p.rpc_protocols_and_preferences,
        vec![ProtocolId::PeerMonitoringServiceRpc]
    );
    let s = storage_service_protocols();
    assert!(s.direct_send_protocols_and_preferences.is_empty());
    assert_eq!(
        s.rpc_protocols_and_preferences,
        vec![ProtocolId::StorageServiceRpc]
    );
    assert_eq!(
        ProtocolId::MempoolDirectSend.kind(),
        ProtocolKind::DirectSend
    );
    assert_eq!(
        ProtocolId::StorageServiceRpc.kind(),
        ProtocolKind::RequestResponse
    );
}

#[test]
fn runtime_plans_and_registry_scope() {
    let config = plain_config(true);
    let ids = extract_network_ids(&config);
    assert_eq!(ids, vec![NetworkId::Public, NetworkId::Validator]);

    let runtime = create_network_runtime(&config.full_node_networks[1]);
    assert_eq!(runtime.thread_name, "network-val");
    let runtime = create_network_runtime(&config.full_node_networks[0]);
    assert_eq!(runtime.thread_name, "network-pub");
    assert_eq!(runtime.runtime_threads, Some(4));

    let mut pam = create_peers_and_metadata(&config);
    assert!(pam.tracks(NetworkId::Public));
    assert!(!pam.tracks(NetworkId::Vfn));
    // An update on an untracked network is refused.
    assert!(pam
        .upsert_peer(
            NetworkId::Vfn,
            PeerId(1),
            PeerMetadata {
                role: PeerRole::Unknown,
                address: 0,
                healthy: false,
            },
        )
        .is_err());
    // Connect, read, disconnect.
    pam.upsert_peer(
        NetworkId::Public,
        PeerId(1),
        PeerMetadata {
            role: PeerRole::Validator,
            address: 5,
            healthy: true,
        },
    )
    .unwrap();
    let md = pam.get_metadata(NetworkId::Public, PeerId(1)).unwrap();
    assert_eq!(md.address, 5);
    assert!(pam.remove_peer(NetworkId::Public, PeerId(1)));
    assert!(pam.get_metadata(NetworkId::Public, PeerId(1)).is_none());
}

#[test]
fn client_with_no_networks_cannot_send() {
    let mut apps = ApplicationCollector::new();
    let ifc: ApplicationNetworkInterfaces<TestMsg> = build_network_connections(
        vec![ProtocolId::MempoolDirectSend],
        vec![],
        8,
        "mempool",
        &mut apps,
        vec![],
    )
    .unwrap();
    let pam = create_peers_and_metadata(&plain_config(false));
    let mut opc = netmux::outbound::OutboundPeerConnections::new();
    for network_id in [NetworkId::Validator, NetworkId::Vfn, NetworkId::Public] {
        assert_eq!(
            ifc.network_client.send_direct(
                network_id,
                PeerId(1),
                ProtocolId::MempoolDirectSend,
                &TestMsg(vec![1]),
                &pam,
                &mut opc
            ),
            Err(SendError::NoAvailableNetwork(network_id))
        );
    }
}

#[test]
fn multi_source_merges_both_queues() {
    let mut apps = ApplicationCollector::new();
    let (conn_a, recv_a) =
        ApplicationConnections::build(ProtocolId::ConsensusDirectSendBcs, 8, "consensus");
    let (conn_b, recv_b) =
        ApplicationConnections::build(ProtocolId::ConsensusRpcBcs, 8, "consensus");
    apps.add(conn_a).unwrap();
    apps.add(conn_b).unwrap();
    apps.route(message(ProtocolId::ConsensusDirectSendBcs, 1));
    apps.route(message(ProtocolId::ConsensusDirectSendBcs, 2));
    apps.route(message(ProtocolId::ConsensusRpcBcs, 3));

    let mut source = NetworkSource::new_multi_source(vec![recv_a, recv_b]).unwrap();
    let mut seen_a = Vec::new();
    let mut seen_b = Vec::new();
    loop {
        match source.next(&mut apps) {
            PollOutcome::Message(m) => {
                if m.protocol_id == ProtocolId::ConsensusDirectSendBcs {
                    seen_a.push(m.data[0]);
                } else {
                    assert_eq!(m.protocol_id, ProtocolId::ConsensusRpcBcs);
                    seen_b.push(m.data[0]);
                }
            }
            PollOutcome::Pending => break,
            PollOutcome::EndOfStream => break,
        }
    }
    // Everything is delivered, in order within each protocol; no ordering
    // is promised across the two protocols.
    assert_eq!(seen_a, vec![1, 2]);
    assert_eq!(seen_b, vec![3]);
}

#[test]
fn consensus_present_with_dedicated_validator_network() {
    // A validator-class network declared only as the dedicated validator
    // network still counts: the consensus interface must be wired.
    let mut config = plain_config(false);
    config.validator_network = Some(NetworkConfig {
        network_id: NetworkId::Validator,
        mutual_authentication: true,
        runtime_threads: Some(2),
    });
    assert!(has_validator_network(&config));
    let mut apps = ApplicationCollector::new();
    let present = consensus_network_connections::<TestMsg>(&config, &mut apps).unwrap();
    assert!(present.is_some());
    assert!(apps.has(ProtocolId::ConsensusRpcBcs));
}

#[test]
fn router_enforces_queue_capacity() {
    let mut apps = ApplicationCollector::new();
    let ifc: ApplicationNetworkInterfaces<TestMsg> = build_network_connections(
        vec![ProtocolId::MempoolDirectSend],
        vec![],
        1,
        "mempool",
        &mut apps,
        vec![NetworkId::Public],
    )
    .unwrap();
    let mut events = ifc.network_events;
    assert_eq!(
        apps.route(message(ProtocolId::MempoolDirectSend, 1)),
        RouteOutcome::Queued(PushOutcome::Delivered)
    );
    // The bound is enforced at the router: a full queue refuses the push.
    assert_eq!(
        apps.route(message(ProtocolId::MempoolDirectSend, 2)),
        RouteOutcome::Queued(PushOutcome::WouldBlock)
    );
    // Draining one message makes room for the retried push.
    match events.next(&mut apps) {
        EventPoll::Event(e) => assert_eq!(e.message, TestMsg(vec![1])),
        other => panic!("expected an event, got {:?}", other),
    }
    assert_eq!(
        apps.route(message(ProtocolId::MempoolDirectSend, 2)),
        RouteOutcome::Queued(PushOutcome::Delivered)
    );
    match events.next(&mut apps) {
        EventPoll::Event(e) => assert_eq!(e.message, TestMsg(vec![2])),
        other => panic!("expected an event, got {:?}", other),
    }
    assert!(matches!(events.next(&mut apps), EventPoll::Pending));
    // Once the queue is closed and drained, the stream ends.
    apps.close_protocol(ProtocolId::MempoolDirectSend);
    assert!(matches!(events.next(&mut apps), EventPoll::EndOfStream));
}
