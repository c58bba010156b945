use tenzik_core::adapters::{HttpServer, ServerConfig, WebhookConfig, WebhookRouter};
use tenzik_core::events::{Event, EventContent, EventType};
use tenzik_core::gossip::{GossipConfig, GossipMessage, GossipProtocol, GossipStats};
use tenzik_core::hexcode::hex_encode;
use tenzik_core::node::{NodeArgs, NodeConfig, TenzikNode, NODE_VERSION};
use tenzik_core::protocol::{ProtocolError, PROTOCOL_VERSION};
use tenzik_core::receipts::public_key_of;
use tenzik_core::storage::EventDAG;

fn leave(reason: &str, parents: Vec<String>, sequence: u64, node: &str, timestamp: &str) -> Event {
    Event::new_event(
        EventType::NodeLeave,
        EventContent::NodeLeave { reason: reason.to_string() },
        parents,
        sequence,
        node.to_string(),
        &[9u8; 32],
        timestamp.to_string(),
    )
    .unwrap()
}

fn chain(n: u64) -> Vec<Event> {
    let mut out: Vec<Event> = Vec::new();
    for i in 1..=n {
        let parents = out.last().map(|e| vec![e.id.clone()]).unwrap_or_default();
        out.push(leave("e", parents, i, "N", &format!("2024-05-01T12:00:{:02}Z", i)));
    }
    out
}

fn copies(events: &[Event]) -> Vec<Event> {
    events.iter().map(|e| e.duplicate()).collect()
}

#[test]
fn test_gossip_config_default() {
    let config = GossipConfig::default();
    assert_eq!(config.sync_interval_ms, 5000);
    assert_eq!(config.max_events_per_sync, 100);
}

#[test]
fn test_peer_management() {
    let dag = EventDAG::new();
    let mut gossip = GossipProtocol::new(GossipConfig::default(), dag);

    let peer_addr = "127.0.0.1:9001";
    let public_key = "test_key".to_string();

    gossip.add_peer(peer_addr.to_string(), public_key.clone());
    assert_eq!(gossip.get_peers().len(), 1);
    assert_eq!(gossip.reachable_peer_count(), 1);

    gossip.remove_peer(peer_addr);
    assert_eq!(gossip.get_peers().len(), 0);
    assert_eq!(gossip.reachable_peer_count(), 0);
}

#[test]
fn test_ping_pong() {
    let dag = EventDAG::new();
    let mut gossip = GossipProtocol::new(GossipConfig::default(), dag);

    let peer_addr = "127.0.0.1:9001";
    let timestamp = 12345;

    // Handle ping
    let response = gossip
        .handle_message(peer_addr, GossipMessage::Ping { timestamp })
        .unwrap();
    match response {
        Some(GossipMessage::Pong { ping_timestamp, .. }) => {
            assert_eq!(ping_timestamp, timestamp);
        }
        _ => panic!("Expected pong response"),
    }
}

#[test]
fn test_protocol_version() {
    assert!(!PROTOCOL_VERSION.is_empty());
}

#[test]
fn test_node_args() {
    let args = NodeArgs {
        port: 9000,
        peer: Some("127.0.0.1:9001".to_string()),
        db: ".tenzik".to_string(),
        name: Some("test-node".to_string()),
    };

    assert_eq!(args.port, 9000);
    assert_eq!(args.peer.as_ref().unwrap(), "127.0.0.1:9001");
    assert_eq!(args.name.as_ref().unwrap(), "test-node");
}

#[test]
fn test_node_creation() {
    let config = NodeConfig { db_path: "unused".to_string(), ..Default::default() };

    let node = TenzikNode::new(config).unwrap();
    assert_eq!(node.get_connected_peers().len(), 0);
}

#[test]
fn test_node_config() {
    let config = NodeConfig::default();
    assert_eq!(config.name, "tenzik-node");
    assert_eq!(config.initial_peers.len(), 0);
}

#[test]
fn all_gossip_defaults() {
    let config = GossipConfig::default();
    assert_eq!(config.peer_timeout_ms, 30000);
    assert_eq!(config.max_concurrent_syncs, 5);
    assert_eq!(config.ping_interval_ms, 10000);
    let stats = GossipStats::default();
    assert_eq!(
        stats,
        GossipStats {
            sync_attempts: 0,
            sync_successes: 0,
            sync_failures: 0,
            events_sent: 0,
            events_received: 0,
            duplicate_events: 0,
            avg_sync_latency_ms: 0,
        }
    );
    assert_eq!(PROTOCOL_VERSION, "0.1.0");
    let error = ProtocolError::NetworkError { reason: "down".to_string() };
    assert!(matches!(error, ProtocolError::NetworkError { .. }));
}

#[test]
fn due_peers_are_selected_in_table_order_up_to_the_limit() {
    let config = GossipConfig { max_concurrent_syncs: 2, sync_interval_ms: 1000, ..GossipConfig::default() };
    let mut gossip = GossipProtocol::new(config, EventDAG::new());
    for port in 1..=4 {
        gossip.add_peer(format!("10.0.0.1:{port}"), format!("key{port}"));
    }
    assert_eq!(gossip.select_sync_peers(0), vec!["10.0.0.1:1", "10.0.0.1:2"]);
    // a sync under way takes the peer out
    assert!(gossip.begin_sync("10.0.0.1:1"));
    assert!(!gossip.begin_sync("10.0.0.1:1"));
    assert!(!gossip.begin_sync("10.0.0.1:9"));
    assert!(gossip.is_active("10.0.0.1:1"));
    assert_eq!(gossip.select_sync_peers(0), vec!["10.0.0.1:2", "10.0.0.1:3"]);
    // a success stamps the peer; it is due again only after the interval has passed
    gossip.record_sync_result("10.0.0.1:1", true, 3, 5000, 40);
    assert!(!gossip.is_active("10.0.0.1:1"));
    assert_eq!(gossip.select_sync_peers(5000), vec!["10.0.0.1:2", "10.0.0.1:3"]);
    assert_eq!(gossip.select_sync_peers(6000), vec!["10.0.0.1:2", "10.0.0.1:3"]);
    gossip.record_sync_result("10.0.0.1:2", false, 0, 5000, 0);
    gossip.record_sync_result("10.0.0.1:3", false, 0, 5000, 0);
    assert_eq!(gossip.select_sync_peers(6000), vec!["10.0.0.1:4"]);
    assert_eq!(gossip.select_sync_peers(6001), vec!["10.0.0.1:1", "10.0.0.1:4"]);
    // a clock that went back makes nobody due who was synced with
    assert_eq!(gossip.select_sync_peers(10), vec!["10.0.0.1:4"]);
    assert_eq!(gossip.reachable_peer_count(), 2);
    let peers = gossip.get_peers();
    let first = peers.get("10.0.0.1:1").unwrap();
    assert_eq!(first.last_sync, Some(5000));
    assert_eq!(first.events_sent, 3);
    assert!(first.is_reachable);
    assert_eq!(first.public_key, "key1");
    assert!(!peers.get("10.0.0.1:2").unwrap().is_reachable);
    let stats = gossip.get_stats();
    assert_eq!(stats.sync_attempts, 3);
    assert_eq!(stats.sync_successes, 1);
    assert_eq!(stats.sync_failures, 2);
    assert_eq!(stats.events_sent, 3);
    assert_eq!(stats.avg_sync_latency_ms, 40);
    // a pong brings a peer back
    let answer = gossip
        .handle_message_at("10.0.0.1:2", GossipMessage::Pong { ping_timestamp: 1, pong_timestamp: 2 }, 3)
        .unwrap();
    assert!(answer.is_none());
    assert!(gossip.get_peers().get("10.0.0.1:2").unwrap().is_reachable);
    assert_eq!(gossip.reachable_peer_count(), 3);
    assert_eq!(GossipProtocol::round_trip_ms(10, 25), 15);
    assert_eq!(GossipProtocol::round_trip_ms(25, 10), 0);
}

#[test]
fn mean_latency_is_the_running_mean() {
    let mut gossip = GossipProtocol::new(GossipConfig::default(), EventDAG::new());
    gossip.add_peer("p".to_string(), "k".to_string());
    gossip.record_sync_result("p", true, 0, 1, 10);
    assert_eq!(gossip.get_stats().avg_sync_latency_ms, 10);
    gossip.record_sync_result("p", true, 0, 2, 20);
    assert_eq!(gossip.get_stats().avg_sync_latency_ms, 15);
    gossip.record_sync_result("p", true, 0, 3, 31);
    assert_eq!(gossip.get_stats().avg_sync_latency_ms, 20);
    gossip.record_sync_result("unknown", true, 2, 3, u64::MAX);
    assert_eq!(gossip.get_stats().sync_successes, 4);
    assert_eq!(gossip.get_stats().events_sent, 2);
    assert_eq!(gossip.get_stats().avg_sync_latency_ms, ((20u128 * 3 + u64::MAX as u128) / 4) as u64);
}

#[test]
fn a_sync_request_is_answered_with_the_earliest_events() {
    let mut dag = EventDAG::new();
    let events = chain(5);
    for e in copies(&events) {
        dag.add_event(e).unwrap();
    }
    let config = GossipConfig { max_events_per_sync: 3, ..GossipConfig::default() };
    let mut gossip = GossipProtocol::new(config, dag);
    let ask = |gossip: &mut GossipProtocol, limit: usize| -> (Vec<String>, bool) {
        match gossip
            .handle_message_at("peer", GossipMessage::Sync { since: None, limit }, 0)
            .unwrap()
        {
            Some(GossipMessage::Events { events, has_more }) => {
                (events.iter().map(|e| e.id.clone()).collect(), has_more)
            },
            other => panic!("unexpected {:?}", other),
        }
    };
    let all: Vec<String> = events.iter().map(|e| e.id.clone()).collect();
    assert_eq!(ask(&mut gossip, 2), (all[..2].to_vec(), true));
    assert_eq!(ask(&mut gossip, 3), (all[..3].to_vec(), true));
    assert_eq!(ask(&mut gossip, 10), (all[..3].to_vec(), true));
    assert_eq!(ask(&mut gossip, 0), (Vec::new(), true));
    let outgoing: Vec<String> = gossip.outgoing_events().iter().map(|e| e.id.clone()).collect();
    assert_eq!(outgoing, vec![all[4].clone(), all[3].clone(), all[2].clone()]);
    let wide = GossipConfig { max_events_per_sync: 5, ..GossipConfig::default() };
    let mut dag = EventDAG::new();
    for e in copies(&events) {
        dag.add_event(e).unwrap();
    }
    let mut gossip = GossipProtocol::new(wide, dag);
    assert_eq!(ask(&mut gossip, 5), (all.clone(), false));
    assert_eq!(ask(&mut gossip, 9), (all.clone(), false));
    assert_eq!(ask(&mut gossip, 4), (all[..4].to_vec(), true));
    assert_eq!(gossip.get_stats(), &GossipStats::default());
    // a cursor asks for what comes after it
    let since = |gossip: &mut GossipProtocol, id: &str, limit: usize| -> (Vec<String>, bool) {
        match gossip
            .handle_message_at("peer", GossipMessage::Sync { since: Some(id.to_string()), limit }, 0)
            .unwrap()
        {
            Some(GossipMessage::Events { events, has_more }) => {
                (events.iter().map(|e| e.id.clone()).collect(), has_more)
            },
            other => panic!("unexpected {:?}", other),
        }
    };
    assert_eq!(since(&mut gossip, &all[1], 10), (all[2..].to_vec(), false));
    assert_eq!(since(&mut gossip, &all[1], 2), (all[2..4].to_vec(), true));
    assert_eq!(since(&mut gossip, &all[4], 10), (Vec::new(), false));
    assert_eq!(since(&mut gossip, "nobody", 10), (all.clone(), false));
}

#[test]
fn received_events_are_offered_in_turn_and_acknowledged() {
    let events = chain(4);
    let mut gossip = GossipProtocol::new(GossipConfig::default(), EventDAG::new());
    gossip.add_peer("peer".to_string(), "k".to_string());
    // the third event comes before its parent, the first comes twice, one is malformed
    let mut malformed = leave("m", vec![], 1, "M", "2024-05-01T12:00:00Z");
    malformed.id.push('0');
    let malformed_id = malformed.id.clone();
    let batch = vec![
        events[0].duplicate(),
        events[2].duplicate(),
        events[0].duplicate(),
        malformed,
        events[1].duplicate(),
    ];
    let answer = gossip
        .handle_message_at("peer", GossipMessage::Events { events: batch, has_more: false }, 0)
        .unwrap();
    match answer {
        Some(GossipMessage::Ack { count, rejected }) => {
            assert_eq!(count, 2);
            assert_eq!(rejected, vec![events[2].id.clone(), events[0].id.clone(), malformed_id]);
        },
        other => panic!("unexpected {:?}", other),
    }
    assert_eq!(gossip.dag().len(), 2);
    assert_eq!(gossip.get_stats().events_received, 2);
    assert_eq!(gossip.get_stats().duplicate_events, 1);
    assert_eq!(gossip.get_peers().get("peer").unwrap().events_received, 2);
    // a second round brings the rest
    let answer = gossip.handle_events("stranger", copies(&events), true);
    match answer {
        Some(GossipMessage::Ack { count, rejected }) => {
            assert_eq!(count, 2);
            assert_eq!(rejected, vec![events[0].id.clone(), events[1].id.clone()]);
        },
        other => panic!("unexpected {:?}", other),
    }
    assert_eq!(gossip.dag().len(), 4);
    assert_eq!(gossip.get_stats().events_received, 4);
    assert_eq!(gossip.get_stats().duplicate_events, 3);
    assert_eq!(gossip.get_peers().get("peer").unwrap().events_received, 2);
    // an acknowledgement changes nothing
    let answer = gossip
        .handle_message_at("peer", GossipMessage::Ack { count: 1, rejected: vec![] }, 0)
        .unwrap();
    assert!(answer.is_none());
    assert_eq!(gossip.get_stats().events_received, 4);
    match gossip.handle_message_at("peer", GossipMessage::Ping { timestamp: 7 }, 99).unwrap() {
        Some(GossipMessage::Pong { ping_timestamp: 7, pong_timestamp: 99 }) => {},
        other => panic!("unexpected {:?}", other),
    }
}

#[test]
fn a_replica_that_replays_a_peers_history_ends_with_it() {
    let events = chain(6);
    let mut theirs = GossipProtocol::new(GossipConfig::default(), EventDAG::new());
    theirs.handle_events("origin", copies(&events), false);
    let mut mine = GossipProtocol::new(GossipConfig::default(), EventDAG::new());
    mine.handle_events("origin", copies(&events[..2]), false);
    let sent = match theirs
        .handle_message_at("me", GossipMessage::Sync { since: None, limit: 100 }, 0)
        .unwrap()
    {
        Some(GossipMessage::Events { events, has_more }) => {
            assert!(!has_more);
            events
        },
        other => panic!("unexpected {:?}", other),
    };
    mine.handle_events("them", sent, false);
    assert_eq!(mine.dag().len(), theirs.dag().len());
    for i in 0..theirs.dag().len() {
        assert_eq!(mine.dag().event_at(i).id, theirs.dag().event_at(i).id);
    }
    assert_eq!(mine.dag().get_stats().unwrap(), theirs.dag().get_stats().unwrap());
    let tips = |g: &GossipProtocol| -> Vec<String> {
        g.dag().get_tips().unwrap().iter().map(|e| e.id.clone()).collect()
    };
    assert_eq!(tips(&mine), tips(&theirs));
    assert_eq!(tips(&mine), vec![events[5].id.clone()]);
}

#[test]
fn a_node_announces_itself_and_takes_leave() {
    let key = [8u8; 32];
    let config = NodeConfig {
        listen_addr: "127.0.0.1:9100".to_string(),
        name: "alpha".to_string(),
        signing_key: Some(key),
        ..Default::default()
    };
    let mut node = TenzikNode::new(config).unwrap();
    let node_id = hex_encode(&public_key_of(&key));
    assert_eq!(node.public_key(), public_key_of(&key));
    assert_eq!(node.listen_address(), "127.0.0.1:9100");
    assert_eq!(node.config().db_path, ".tenzik");
    assert_eq!(node.get_dag_stats().unwrap().total_events, 0);

    node.announce_self().unwrap();
    assert_eq!(node.dag().len(), 1);
    let announce = node.dag().event_at(0).duplicate();
    assert_eq!(announce.event_type, EventType::NodeAnnounce);
    assert_eq!(announce.sequence, 1);
    assert_eq!(announce.node_id, node_id);
    assert!(announce.parents.is_empty());
    assert!(announce.verify_signature(&public_key_of(&key)).unwrap());
    match &announce.content {
        EventContent::NodeAnnounce { node_info, capabilities } => {
            assert_eq!(node_info.public_key, node_id);
            assert_eq!(node_info.address, "127.0.0.1:9100");
            assert_eq!(node_info.name, "alpha");
            assert_eq!(node_info.version, NODE_VERSION);
            assert_eq!(capabilities, &vec!["receipt".to_string(), "federation".to_string()]);
        },
        other => panic!("unexpected {:?}", other),
    }

    // an event from elsewhere becomes a second tip; the farewell names both
    let foreign = leave("x", vec![], 1, "other", "2024-05-01T12:00:00Z");
    let foreign_id = foreign.id.clone();
    node.add_event(foreign).unwrap();
    node.shutdown_at("2030-01-01T00:00:00Z".to_string()).unwrap();
    assert_eq!(node.dag().len(), 3);
    let farewell = node.dag().event_at(2).duplicate();
    assert_eq!(farewell.event_type, EventType::NodeLeave);
    assert_eq!(farewell.sequence, 2);
    assert_eq!(farewell.timestamp, "2030-01-01T00:00:00Z");
    let mut parents = farewell.parents.clone();
    parents.sort();
    let mut expected = vec![announce.id.clone(), foreign_id];
    expected.sort();
    assert_eq!(parents, expected);
    match &farewell.content {
        EventContent::NodeLeave { reason } => assert_eq!(reason, "Graceful shutdown"),
        other => panic!("unexpected {:?}", other),
    }
    let stats = node.get_dag_stats().unwrap();
    assert_eq!((stats.total_events, stats.tip_count, stats.node_count), (3, 1, 2));
    // a timestamp that the store does not take: the sequence number is used up all the same
    assert!(node.announce_self_at("never".to_string()).is_err());
    assert_eq!(node.dag().len(), 3);
    node.shutdown().unwrap();
    assert_eq!(node.dag().event_at(3).sequence, 4);
}

#[test]
fn connected_peers_are_kept_by_address() {
    let mut node = TenzikNode::new(NodeConfig::default()).unwrap();
    let info = |name: &str| tenzik_core::events::NodeInfo {
        public_key: "simulated_peer_key".to_string(),
        address: "10.0.0.2:9001".to_string(),
        name: name.to_string(),
        version: "0.1.0".to_string(),
    };
    node.peer_connected("10.0.0.2:9001".to_string(), info("peer-9001"), "2024-05-01T12:00:00Z".to_string());
    node.peer_connected("10.0.0.3:9001".to_string(), info("peer-b"), "2024-05-01T12:00:01Z".to_string());
    node.peer_connected("10.0.0.2:9001".to_string(), info("peer-again"), "2024-05-01T12:00:02Z".to_string());
    let peers = node.get_connected_peers();
    assert_eq!(peers.len(), 2);
    assert_eq!(peers[0].address, "10.0.0.2:9001");
    assert_eq!(peers[0].node_info.name, "peer-again");
    assert_eq!(peers[0].connected_at, "2024-05-01T12:00:02Z");
    assert_eq!(peers[0].last_seen, "2024-05-01T12:00:02Z");
    assert_eq!(peers[1].node_info.name, "peer-b");
    // two nodes without configured keys get different keys
    let other = TenzikNode::new(NodeConfig::default()).unwrap();
    assert_ne!(node.public_key(), other.public_key());
}

#[test]
fn node_settings_follow_the_arguments() {
    let config = NodeConfig::from_args(NodeArgs {
        port: 9000,
        peer: Some("127.0.0.1:9001".to_string()),
        db: ".tenzik".to_string(),
        name: Some("test-node".to_string()),
    });
    assert_eq!(config.listen_addr, "127.0.0.1:9000");
    assert_eq!(config.db_path, ".tenzik");
    assert_eq!(config.name, "test-node");
    assert_eq!(config.initial_peers, vec!["127.0.0.1:9001".to_string()]);
    assert!(config.signing_key.is_none());
    let config = NodeConfig::from_args(NodeArgs { port: 65535, peer: None, db: "db".to_string(), name: None });
    assert_eq!(config.listen_addr, "127.0.0.1:65535");
    assert_eq!(config.name, "tenzik-node-65535");
    assert!(config.initial_peers.is_empty());
    let defaults = NodeConfig::default();
    assert_eq!(defaults.listen_addr, "127.0.0.1:9000");
    assert_eq!(defaults.db_path, ".tenzik");
    assert!(defaults.signing_key.is_none());
}

#[test]
fn adapters_hold_their_configuration() {
    let server = HttpServer::new(ServerConfig { placeholder: Some("x".to_string()) });
    assert_eq!(server.config().placeholder.as_deref(), Some("x"));
    assert!(HttpServer::new(ServerConfig::default()).config().placeholder.is_none());
    let router = WebhookRouter::new(WebhookConfig { placeholder: None });
    assert!(router.config().placeholder.is_none());
    router.handle_request();
    assert!(WebhookRouter::new(WebhookConfig::default()).config().placeholder.is_none());
}
