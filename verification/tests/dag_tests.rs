use tenzik_core::events::{Event, EventContent, EventType, NodeInfo};
use tenzik_core::hexcode::hex_encode;
use tenzik_core::receipts::{generate_test_signing_key, public_key_of, ExecMetrics, ExecutionReceipt};
use tenzik_core::storage::{to_be_bytes, DAGStats, EventDAG, StorageError, StoreWrite};

fn create_test_signing_key() -> [u8; 32] {
    generate_test_signing_key()
}

fn create_test_receipt() -> ExecutionReceipt {
    let signing_key = create_test_signing_key();
    ExecutionReceipt::new(
        b"test capsule",
        b"test input",
        b"test output",
        ExecMetrics::default(),
        &signing_key,
        1,
    )
    .unwrap()
}

fn leave(reason: &str, parents: Vec<String>, sequence: u64, node: &str, timestamp: &str) -> Event {
    Event::new_event(
        EventType::NodeLeave,
        EventContent::NodeLeave { reason: reason.to_string() },
        parents,
        sequence,
        node.to_string(),
        &[9u8; 32],
        timestamp.to_string(),
    )
    .unwrap()
}

fn ids(events: &[&Event]) -> Vec<String> {
    events.iter().map(|e| e.id.clone()).collect()
}

#[test]
fn test_event_creation_and_verification() {
    let signing_key = create_test_signing_key();
    let verifying_key = public_key_of(&signing_key);
    let receipt = create_test_receipt();

    let event = Event::new_receipt(receipt, vec![], 1, "test_node".to_string(), &signing_key).unwrap();

    assert!(event.verify_signature(&verifying_key).unwrap());
    assert!(event.is_receipt());
    assert!(event.get_receipt().is_some());
}

#[test]
fn test_dag_basic_operations() {
    let mut dag = EventDAG::new();

    let signing_key = create_test_signing_key();
    let receipt = create_test_receipt();

    let event = Event::new_receipt(receipt, vec![], 1, "test_node".to_string(), &signing_key).unwrap();

    let event_id = event.id.clone();

    // Add event
    dag.add_event(event).unwrap();

    // Retrieve event
    let retrieved = dag.get_event(&event_id).unwrap().unwrap();
    assert_eq!(retrieved.id, event_id);

    // Check it exists
    assert!(dag.has_event(&event_id).unwrap());

    // Check tips
    let tips = dag.get_tips().unwrap();
    assert_eq!(tips.len(), 1);
    assert_eq!(tips[0].id, event_id);
}

#[test]
fn test_dag_parent_child_relationships() {
    let mut dag = EventDAG::new();

    let signing_key = create_test_signing_key();

    // Create first event
    let event1 =
        Event::new_receipt(create_test_receipt(), vec![], 1, "test_node".to_string(), &signing_key)
            .unwrap();
    let event1_id = event1.id.clone();

    dag.add_event(event1).unwrap();

    // Create second event with first as parent
    let event2 = Event::new_receipt(
        create_test_receipt(),
        vec![event1_id.clone()],
        2,
        "test_node".to_string(),
        &signing_key,
    )
    .unwrap();
    let event2_id = event2.id.clone();

    dag.add_event(event2).unwrap();

    // Check tips - should only be event2 now
    let tips = dag.get_tips().unwrap();
    assert_eq!(tips.len(), 1);
    assert_eq!(tips[0].id, event2_id);
}

#[test]
fn test_dag_sequence_validation() {
    let mut dag = EventDAG::new();

    let signing_key = create_test_signing_key();

    // Add event with sequence 1
    let event1 =
        Event::new_receipt(create_test_receipt(), vec![], 1, "test_node".to_string(), &signing_key)
            .unwrap();

    dag.add_event(event1).unwrap();

    // Try to add event with same sequence - should fail
    let event2 =
        Event::new_receipt(create_test_receipt(), vec![], 1, "test_node".to_string(), &signing_key)
            .unwrap();

    let result = dag.add_event(event2);
    assert!(result.is_err());
}

#[test]
fn test_dag_stats() {
    let mut dag = EventDAG::new();

    let signing_key = create_test_signing_key();

    // Add a few events
    for i in 1..=3 {
        let event = Event::new_receipt(
            create_test_receipt(),
            vec![],
            i,
            format!("node_{}", i),
            &signing_key,
        )
        .unwrap();

        dag.add_event(event).unwrap();
    }

    let stats = dag.get_stats().unwrap();
    assert_eq!(stats.total_events, 3);
    assert_eq!(stats.receipt_count, 3);
    assert_eq!(stats.node_count, 3);
    assert_eq!(stats.tip_count, 3); // All independent events
}

#[test]
fn chained_events_leave_one_tip() {
    let mut dag = EventDAG::new();
    let e1 = leave("one", vec![], 1, "N", "2024-05-01T12:00:00Z");
    let e2 = leave("two", vec![e1.id.clone()], 2, "N", "2024-05-01T12:00:01Z");
    let (id1, id2) = (e1.id.clone(), e2.id.clone());
    dag.add_event(e1).unwrap();
    dag.add_event(e2).unwrap();
    assert_eq!(ids(&dag.get_tips().unwrap()), vec![id2.clone()]);
    let stats = dag.get_stats().unwrap();
    assert_eq!(stats.total_events, 2);
    assert_eq!(stats.tip_count, 1);
    assert_eq!(stats.receipt_count, 0);
    assert_eq!(stats.node_count, 1);
    assert_eq!(stats.earliest_timestamp.as_deref(), Some("2024-05-01T12:00:00Z"));
    assert_eq!(stats.latest_timestamp.as_deref(), Some("2024-05-01T12:00:01Z"));
    assert_eq!(dag.tip_count(), 1);
    assert_eq!(dag.node_count(), 1);
    assert_eq!(dag.len(), 2);
    assert_eq!(dag.event_at(0).id, id1);
    assert_eq!(dag.parents_of(&id2).unwrap(), &vec![id1.clone()]);
    assert!(dag.parents_of(&id1).unwrap().is_empty());
    assert!(dag.parents_of("nothing").is_none());
    assert_eq!(dag.children_of(&id1).unwrap(), &vec![id2.clone()]);
    assert!(dag.children_of(&id2).is_none());
    assert_eq!(dag.get_node_sequence("N"), 2);
    assert_eq!(dag.get_node_sequence("M"), 0);
}

#[test]
fn a_second_event_with_the_same_sequence_is_refused_for_its_sequence() {
    let mut dag = EventDAG::new();
    dag.add_event(leave("first", vec![], 1, "N", "2024-05-01T12:00:00Z")).unwrap();
    let other = leave("other content", vec![], 1, "N", "2024-05-01T12:00:00Z");
    let other_id = other.id.clone();
    match dag.add_event(other) {
        Err(StorageError::ValidationError { reason }) => {
            assert!(reason.to_lowercase().contains("sequence"), "{reason}")
        },
        other => panic!("unexpected {:?}", other),
    }
    assert!(!dag.has_event(&other_id).unwrap());
    assert_eq!(dag.len(), 1);
    // a lower sequence is refused too, a higher one from another node is not
    assert!(dag.add_event(leave("zero", vec![], 0, "N", "2024-05-01T12:00:00Z")).is_err());
    assert!(dag.add_event(leave("zero", vec![], 0, "M", "2024-05-01T12:00:00Z")).is_err());
    dag.add_event(leave("m", vec![], 1, "M", "2024-05-01T12:00:00Z")).unwrap();
    dag.add_event(leave("far", vec![], u64::MAX, "N", "2024-05-01T12:00:00Z")).unwrap();
    assert_eq!(dag.get_node_sequence("N"), u64::MAX);
    assert_eq!(dag.len(), 3);
}

#[test]
fn adding_an_event_twice_changes_nothing() {
    let mut dag = EventDAG::new();
    let e1 = leave("one", vec![], 1, "N", "2024-05-01T12:00:00Z");
    let again = e1.duplicate();
    let id = e1.id.clone();
    dag.add_event(e1).unwrap();
    let before = dag.get_stats().unwrap();
    dag.add_event(again).unwrap();
    assert_eq!(dag.get_stats().unwrap(), before);
    assert_eq!(dag.len(), 1);
    assert_eq!(ids(&dag.get_tips().unwrap()), vec![id]);
    assert_eq!(dag.get_node_sequence("N"), 1);
}

#[test]
fn dangling_parents_and_malformed_events_are_refused() {
    let mut dag = EventDAG::new();
    let orphan = leave("orphan", vec!["0".repeat(64)], 1, "N", "2024-05-01T12:00:00Z");
    assert!(matches!(dag.add_event(orphan), Err(StorageError::ValidationError { .. })));
    let mut short_id = leave("a", vec![], 1, "N", "2024-05-01T12:00:00Z");
    short_id.id.pop();
    assert!(matches!(dag.add_event(short_id), Err(StorageError::ValidationError { .. })));
    let mut short_signature = leave("a", vec![], 1, "N", "2024-05-01T12:00:00Z");
    short_signature.signature.pop();
    assert!(matches!(dag.add_event(short_signature), Err(StorageError::ValidationError { .. })));
    let bad_time = leave("a", vec![], 1, "N", "noon");
    assert!(matches!(dag.add_event(bad_time), Err(StorageError::ValidationError { .. })));
    assert_eq!(dag.len(), 0);
    assert_eq!(dag.get_stats().unwrap(), DAGStats::default());
    assert!(dag.get_tips().unwrap().is_empty());
    assert!(dag.get_event("0").unwrap().is_none());
    // an event cannot name itself: its identifier is not held when it comes
    let e = leave("self", vec![], 1, "N", "2024-05-01T12:00:00Z");
    let mut own = e.duplicate();
    own.parents = vec![e.id.clone()];
    assert!(dag.add_event(own).is_err());
}

#[test]
fn tips_are_the_events_without_children_latest_first() {
    let mut dag = EventDAG::new();
    let a = leave("a", vec![], 1, "A", "2024-05-01T12:00:00Z");
    let b = leave("b", vec![], 1, "B", "2024-05-01T12:00:05Z");
    let c = leave("c", vec![a.id.clone(), b.id.clone()], 2, "A", "2024-05-01T12:00:03Z");
    let d = leave("d", vec![a.id.clone(), a.id.clone()], 2, "B", "2024-05-01T12:00:09Z");
    let e = leave("e", vec![], 1, "E", "2024-05-01T12:00:01Z");
    let (ia, ib, ic, id, ie) = (a.id.clone(), b.id.clone(), c.id.clone(), d.id.clone(), e.id.clone());
    dag.add_event(a).unwrap();
    assert_eq!(ids(&dag.get_tips().unwrap()), vec![ia.clone()]);
    dag.add_event(b).unwrap();
    assert_eq!(ids(&dag.get_tips().unwrap()), vec![ib.clone(), ia.clone()]);
    dag.add_event(c).unwrap();
    assert_eq!(ids(&dag.get_tips().unwrap()), vec![ic.clone()]);
    dag.add_event(d).unwrap();
    dag.add_event(e).unwrap();
    assert_eq!(ids(&dag.get_tips().unwrap()), vec![id.clone(), ic.clone(), ie.clone()]);
    assert_eq!(dag.tip_count(), 3);
    let mut children = dag.children_of(&ia).unwrap().clone();
    children.sort();
    children.dedup();
    let mut expected = vec![ic.clone(), id.clone()];
    expected.sort();
    assert_eq!(children, expected);
    assert_eq!(dag.children_of(&ib).unwrap(), &vec![ic.clone()]);
    // every stored event, earliest first; a cursor cuts off what does not come after it
    let expected = vec![ia.clone(), ie.clone(), ic.clone(), ib.clone(), id.clone()];
    assert_eq!(ids(&dag.get_events_since(None).unwrap()), expected);
    assert_eq!(ids(&dag.get_events_since(Some(&ic)).unwrap()), vec![ib.clone(), id.clone()]);
    assert_eq!(ids(&dag.get_events_since(Some(&ia)).unwrap()), expected[1..].to_vec());
    assert!(dag.get_events_since(Some(&id)).unwrap().is_empty());
    assert_eq!(ids(&dag.get_events_since(Some("unknown")).unwrap()), expected);
    let stats = dag.get_stats().unwrap();
    assert_eq!(stats.total_events, 5);
    assert_eq!(stats.node_count, 3);
    assert_eq!(stats.earliest_timestamp.as_deref(), Some("2024-05-01T12:00:00Z"));
    assert_eq!(stats.latest_timestamp.as_deref(), Some("2024-05-01T12:00:09Z"));
}

#[test]
fn event_identifier_is_the_commitment_to_the_payload() {
    let key = [9u8; 32];
    let event = leave("bye \"now\"\n", vec!["p1".to_string(), "p\\2".to_string()], 7, "node", "2024-05-01T12:00:00Z");
    let payload = Event::create_signing_payload(
        &event.event_type,
        &event.content,
        &event.parents,
        event.sequence,
        &event.node_id,
        &event.timestamp,
    );
    assert_eq!(
        payload,
        "TENZIK_EVENT_V1\ntype:NodeLeave\ncontent:{\"NodeLeave\":{\"reason\":\"bye \\\"now\\\"\\n\"}}\n\
         parents:[\"p1\",\"p\\\\2\"]\nsequence:7\nnode_id:node\ntimestamp:2024-05-01T12:00:00Z"
    );
    assert_eq!(event.id, blake3::hash(payload.as_bytes()).to_hex().to_string());
    assert_eq!(event.id.len(), 64);
    assert_eq!(event.signature.len(), 128);
    assert!(event.verify_signature(&public_key_of(&key)).unwrap());
    assert!(!event.verify_signature(&public_key_of(&[1u8; 32])).unwrap());
    let same = leave("bye \"now\"\n", vec!["p1".to_string(), "p\\2".to_string()], 7, "node", "2024-05-01T12:00:00Z");
    assert_eq!(same.id, event.id);
    assert_eq!(same.signature, event.signature);
    let other = leave("bye", vec![], 7, "node", "2024-05-01T12:00:00Z");
    assert_ne!(other.id, event.id);
    assert!(!event.is_receipt());
    assert!(event.get_receipt().is_none());
    let mut tampered = event.duplicate();
    tampered.sequence = 8;
    assert_eq!(tampered.verify_signature(&public_key_of(&key)).unwrap(), false);
    tampered.signature = "xy".repeat(64);
    assert!(matches!(
        tampered.verify_signature(&public_key_of(&key)),
        Err(StorageError::InvalidEvent { .. })
    ));
    tampered.signature = "ab".repeat(10);
    assert!(matches!(
        tampered.verify_signature(&public_key_of(&key)),
        Err(StorageError::InvalidEvent { .. })
    ));
}

#[test]
fn content_is_written_as_compact_json() {
    let key = [9u8; 32];
    let content_line = |event: &Event| -> String {
        let payload = Event::create_signing_payload(
            &event.event_type,
            &event.content,
            &event.parents,
            event.sequence,
            &event.node_id,
            &event.timestamp,
        );
        payload.lines().nth(2).unwrap().to_string()
    };
    let heartbeat = Event::new_heartbeat(500, 10, vec![], 1, "n".to_string(), &key).unwrap();
    assert_eq!(heartbeat.event_type, EventType::Heartbeat);
    assert_eq!(content_line(&heartbeat), "content:{\"Heartbeat\":{\"load\":0.5,\"uptime_seconds\":10}}");
    for (load, text) in [(0u32, "0.0"), (1, "0.001"), (125, "0.125"), (1000, "1.0"), (1230, "1.23")] {
        let e = Event::new_heartbeat(load, 0, vec![], 1, "n".to_string(), &key).unwrap();
        assert_eq!(content_line(&e), format!("content:{{\"Heartbeat\":{{\"load\":{text},\"uptime_seconds\":0}}}}"));
        assert_eq!(serde_json::to_string(&(load as f64 / 1000.0)).unwrap(), text);
    }
    let info = NodeInfo {
        public_key: "k".to_string(),
        address: "127.0.0.1:9000".to_string(),
        name: "tab\there".to_string(),
        version: "0.1.0".to_string(),
    };
    let announce = Event::new_node_announce(
        info,
        vec!["receipt".to_string(), "federation".to_string()],
        vec![],
        1,
        "n".to_string(),
        &key,
    )
    .unwrap();
    assert_eq!(announce.event_type, EventType::NodeAnnounce);
    assert_eq!(
        content_line(&announce),
        "content:{\"NodeAnnounce\":{\"node_info\":{\"public_key\":\"k\",\"address\":\"127.0.0.1:9000\",\
         \"name\":\"tab\\there\",\"version\":\"0.1.0\"},\"capabilities\":[\"receipt\",\"federation\"]}}"
    );
    let left = Event::new_node_leave("\u{1}é".to_string(), vec![], 1, "n".to_string(), &key).unwrap();
    assert_eq!(left.event_type, EventType::NodeLeave);
    assert_eq!(content_line(&left), "content:{\"NodeLeave\":{\"reason\":\"\\u0001é\"}}");
    let receipt = ExecutionReceipt::with_timestamp(
        b"c",
        b"i",
        b"o",
        ExecMetrics { fuel_used: 5, memory_bytes: 65536, duration_ms: 2, host_function_calls: 1 },
        &key,
        4,
        "2024-05-01T12:00:00Z".to_string(),
    );
    let expected = format!(
        "content:{{\"Receipt\":{{\"capsule_id\":\"{}\",\"input_commit\":\"{}\",\"output_commit\":\"{}\",\
         \"exec_metrics\":{{\"fuel_used\":5,\"memory_mb\":0.0625,\"duration_ms\":2,\"host_function_calls\":1}},\
         \"node_id\":\"{}\",\"nonce\":4,\"signature\":\"{}\",\"timestamp\":\"2024-05-01T12:00:00Z\",\
         \"version\":\"1.0.0\"}}}}",
        receipt.capsule_id, receipt.input_commit, receipt.output_commit, receipt.node_id, receipt.signature
    );
    let event = Event::new_receipt(receipt, vec![], 1, "n".to_string(), &key).unwrap();
    assert_eq!(content_line(&event), expected);
    assert_eq!(event.node_id, "n");
    assert_eq!(hex_encode(&public_key_of(&key)).len(), 64);
}

#[test]
fn memory_in_json_is_the_exact_number() {
    let key = [9u8; 32];
    for bytes in [0u64, 1, 65536, 1 << 20, (5 << 20) + (1 << 19), 3 * 65536, 1 << 40] {
        let receipt = ExecutionReceipt::with_timestamp(
            b"c",
            b"i",
            b"o",
            ExecMetrics { memory_bytes: bytes, ..ExecMetrics::default() },
            &key,
            4,
            "t".to_string(),
        );
        let event = Event::new_receipt(receipt, vec![], 1, "n".to_string(), &key).unwrap();
        let payload = Event::create_signing_payload(
            &event.event_type,
            &event.content,
            &event.parents,
            event.sequence,
            &event.node_id,
            &event.timestamp,
        );
        let start = payload.find("\"memory_mb\":").unwrap() + "\"memory_mb\":".len();
        let end = start + payload[start..].find(',').unwrap();
        let text = &payload[start..end];
        let parsed: f64 = serde_json::from_str(text).unwrap();
        assert_eq!(parsed, bytes as f64 / 1048576.0, "{text}");
        assert!(text.contains('.'));
    }
}

#[test]
fn events_of_one_timestamp_are_ordered_by_identifier() {
    let mut dag = EventDAG::new();
    let mut all = Vec::new();
    for (i, node) in ["A", "B", "C", "D", "E", "F"].iter().enumerate() {
        let stamp = if i % 2 == 0 { "2024-05-01T12:00:00Z" } else { "2024-05-01T11:00:00Z" };
        let e = leave("x", vec![], 1, node, stamp);
        all.push((stamp.to_string(), e.id.clone()));
        dag.add_event(e).unwrap();
    }
    all.sort();
    let expected: Vec<String> = all.iter().map(|(_, id)| id.clone()).collect();
    assert_eq!(ids(&dag.get_events_since(None).unwrap()), expected);
    for cut in 0..expected.len() {
        assert_eq!(
            ids(&dag.get_events_since(Some(&expected[cut])).unwrap()),
            expected[cut + 1..].to_vec()
        );
    }
}

#[test]
fn restoring_takes_children_after_their_parents() {
    let a = leave("a", vec![], 1, "A", "2024-05-01T12:00:00Z");
    let b = leave("b", vec![a.id.clone()], 1, "B", "2024-05-01T12:00:01Z");
    let c = leave("c", vec![b.id.clone()], 1, "C", "2024-05-01T12:00:02Z");
    let orphan = leave("o", vec!["f".repeat(64)], 1, "O", "2024-05-01T12:00:03Z");
    let (ia, ib, ic) = (a.id.clone(), b.id.clone(), c.id.clone());
    // children before their parents: three rounds bring all three in
    let stored = vec![c, orphan, b, a];
    let mut dag = EventDAG::new();
    assert_eq!(dag.restore(&stored), 3);
    assert_eq!(dag.len(), 3);
    assert_eq!(dag.event_at(0).id, ia);
    assert_eq!(dag.event_at(1).id, ib);
    assert_eq!(dag.event_at(2).id, ic);
    assert_eq!(ids(&dag.get_tips().unwrap()), vec![ic.clone()]);
    // restoring again takes nothing
    assert_eq!(dag.restore(&stored), 0);
    assert_eq!(dag.len(), 3);
    assert_eq!(EventDAG::new().restore(&Vec::new()), 0);
}

#[test]
fn sequence_numbers_are_written_most_significant_byte_first() {
    for n in [0u64, 1, 255, 256, 0x0102030405060708, u64::MAX, 1 << 63] {
        assert_eq!(to_be_bytes(n), n.to_be_bytes().to_vec());
    }
}

#[test]
fn the_writes_of_an_event_cover_every_sub_store() {
    let mut dag = EventDAG::new();
    let a = leave("a", vec![], 1, "A", "2024-05-01T12:00:00Z");
    let b = leave("b", vec![], 1, "B", "2024-05-01T12:00:01Z");
    let c = leave("c", vec![a.id.clone(), b.id.clone()], 7, "A", "2024-05-01T12:00:02Z");
    let (ia, ib, ic) = (a.id.clone(), b.id.clone(), c.id.clone());
    dag.add_event(a).unwrap();
    dag.add_event(b).unwrap();
    dag.add_event(c).unwrap();
    let writes: Vec<String> = dag.writes_for_event(2).iter().map(|w| match w {
        StoreWrite::PutEvent { event } => format!("event {}", event.id),
        StoreWrite::PutParents { event_id, parents } => format!("parents {} {:?}", event_id, parents),
        StoreWrite::PutChildren { parent_id, children } => format!("children {} {:?}", parent_id, children),
        StoreWrite::RemoveTip { event_id } => format!("untip {}", event_id),
        StoreWrite::PutTip { event_id, timestamp } => format!("tip {} {}", event_id, timestamp),
        StoreWrite::PutSequence { node_id, sequence } => format!("sequence {} {:?}", node_id, sequence),
    }).collect();
    assert_eq!(
        writes,
        vec![
            format!("event {ic}"),
            format!("parents {ic} {:?}", vec![ia.clone(), ib.clone()]),
            format!("children {ia} {:?}", vec![ic.clone()]),
            format!("untip {ia}"),
            format!("children {ib} {:?}", vec![ic.clone()]),
            format!("untip {ib}"),
            format!("tip {ic} 2024-05-01T12:00:02Z"),
            format!("sequence A {:?}", vec![0u8, 0, 0, 0, 0, 0, 0, 7]),
        ]
    );
    assert_eq!(dag.writes_for_event(0).len(), 4);
}
