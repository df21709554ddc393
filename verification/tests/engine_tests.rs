use crdt_engine::CrdtEngine;
use crdt_engine::OpType;
use crdt_engine::Operation;

fn op(op_type: OpType, pos: usize, content: Option<&str>, length: Option<usize>, clock: u64, user_id: &str) -> Operation {
    Operation {
        op_type,
        pos,
        content: content.map(|s| s.to_string()),
        length,
        clock,
        user_id: user_id.to_string(),
    }
}

#[test]
fn test_insert() {
    let mut engine = CrdtEngine::new("user1".to_string());
    engine.create_document("doc1".to_string(), "Hello".to_string());
    engine.insert("doc1", 5, " World".to_string());
    assert_eq!(engine.get_content("doc1"), Some("Hello World".to_string()));
}

#[test]
fn test_delete() {
    let mut engine = CrdtEngine::new("user1".to_string());
    engine.create_document("doc1".to_string(), "Hello World".to_string());
    engine.delete("doc1", 5, 6);
    assert_eq!(engine.get_content("doc1"), Some("Hello".to_string()));
}

#[test]
fn end_to_end_insert_then_delete() {
    let mut engine = CrdtEngine::new("user1".to_string());
    engine.create_document("d1".to_string(), "Hello".to_string());
    engine.insert("d1", 5, " World".to_string());
    assert_eq!(engine.get_content("d1"), Some("Hello World".to_string()));
    assert_eq!(engine.get_version("d1"), 1);
    engine.delete("d1", 5, 6);
    assert_eq!(engine.get_content("d1"), Some("Hello".to_string()));
    assert_eq!(engine.get_version("d1"), 2);
}

#[test]
fn insert_position_is_clamped() {
    let mut engine = CrdtEngine::new("u".to_string());
    engine.create_document("d".to_string(), "ab".to_string());
    engine.insert("d", 100, "X".to_string());
    assert_eq!(engine.get_content("d"), Some("abX".to_string()));
}

#[test]
fn delete_range_is_clamped() {
    let mut engine = CrdtEngine::new("u".to_string());
    engine.create_document("d".to_string(), "abcdef".to_string());
    engine.delete("d", 4, 100);
    assert_eq!(engine.get_content("d"), Some("abcd".to_string()));
    engine.delete("d", 100, 1);
    assert_eq!(engine.get_content("d"), Some("abcd".to_string()));
}

#[test]
fn insert_on_unknown_document_still_ticks_clock() {
    let mut engine = CrdtEngine::new("user1".to_string());
    engine.create_document("present".to_string(), "stays".to_string());
    let op1 = engine.insert("missing", 0, "x".to_string());
    assert!(matches!(op1.op_type, OpType::Insert));
    assert_eq!(op1.pos, 0);
    assert_eq!(op1.content, Some("x".to_string()));
    assert_eq!(op1.length, None);
    assert_eq!(op1.clock, 1);
    assert_eq!(op1.user_id, "user1");
    assert_eq!(engine.get_content("missing"), None);
    assert_eq!(engine.get_content("present"), Some("stays".to_string()));
    let op2 = engine.delete("missing", 0, 1);
    assert!(matches!(op2.op_type, OpType::Delete));
    assert_eq!(op2.content, None);
    assert_eq!(op2.length, Some(1));
    assert_eq!(op2.clock, 2);
    assert_eq!(engine.get_version("missing"), 0);
}

#[test]
fn unparsed_remote_payload_changes_nothing() {
    let mut engine = CrdtEngine::new("user1".to_string());
    engine.create_document("d".to_string(), "abc".to_string());
    engine.apply_remote_operation("d", None);
    assert_eq!(engine.get_content("d"), Some("abc".to_string()));
    assert_eq!(engine.get_version("d"), 0);
}

#[test]
fn remote_operation_on_unknown_document_is_noop() {
    let mut engine = CrdtEngine::new("user1".to_string());
    engine.create_document("d".to_string(), "abc".to_string());
    let o = op(OpType::Insert, 0, Some("z"), None, 1, "peer");
    engine.apply_remote_operation("other", Some(o));
    assert_eq!(engine.get_content("d"), Some("abc".to_string()));
    assert_eq!(engine.get_content("other"), None);
}

#[test]
fn unknown_id_accessors_return_absence_and_zero() {
    let engine = CrdtEngine::new("user1".to_string());
    assert_eq!(engine.get_content("nope"), None);
    assert_eq!(engine.get_version("nope"), 0);
    assert!(engine.get_operations_since("nope", 0).is_empty());
}

#[test]
fn operations_since_returns_exact_log_suffix() {
    let mut engine = CrdtEngine::new("user1".to_string());
    engine.create_document("d".to_string(), "".to_string());
    engine.insert("d", 0, "a".to_string());
    engine.insert("d", 1, "b".to_string());
    engine.insert("d", 2, "c".to_string());
    let tail = engine.get_operations_since("d", 1);
    assert_eq!(tail.len(), 2);
    assert_eq!(tail[0].clock, 2);
    assert_eq!(tail[0].content, Some("b".to_string()));
    assert_eq!(tail[1].clock, 3);
    assert_eq!(tail[1].content, Some("c".to_string()));
    assert!(engine.get_operations_since("d", 3).is_empty());
    assert!(engine.get_operations_since("d", 100).is_empty());
    let all = engine.get_operations_since("d", 0);
    assert_eq!(all.len(), 3);
    assert_eq!(all[0].clock, 1);
}

#[test]
fn divergence_under_reversed_arrival_order() {
    // Two replicas receive the same two operations in opposite orders and
    // end with different content: convergence is not provided.
    let op_x = op(OpType::Insert, 0, Some("X"), None, 1, "peer1");
    let op_y = op(OpType::Insert, 0, Some("Y"), None, 1, "peer2");

    let mut replica_a = CrdtEngine::new("a".to_string());
    replica_a.create_document("d".to_string(), "".to_string());
    replica_a.apply_remote_operation("d", Some(op_x.clone()));
    replica_a.apply_remote_operation("d", Some(op_y.clone()));
    assert_eq!(replica_a.get_content("d"), Some("YX".to_string()));

    let mut replica_b = CrdtEngine::new("b".to_string());
    replica_b.create_document("d".to_string(), "".to_string());
    replica_b.apply_remote_operation("d", Some(op_y));
    replica_b.apply_remote_operation("d", Some(op_x));
    assert_eq!(replica_b.get_content("d"), Some("XY".to_string()));

    assert_ne!(replica_a.get_content("d"), replica_b.get_content("d"));
}

#[test]
fn unrecognized_kind_is_logged_but_mutates_nothing() {
    let mut engine = CrdtEngine::new("user1".to_string());
    engine.create_document("d".to_string(), "abc".to_string());
    let o = op(OpType::Unknown("wobble".to_string()), 1, Some("zzz"), Some(2), 7, "peer");
    engine.apply_remote_operation("d", Some(o));
    assert_eq!(engine.get_content("d"), Some("abc".to_string()));
    assert_eq!(engine.get_version("d"), 1);
    let log = engine.get_operations_since("d", 0);
    assert_eq!(log.len(), 1);
    assert!(matches!(&log[0].op_type, OpType::Unknown(t) if t == "wobble"));
    assert_eq!(log[0].clock, 7);
    let o2 = op(OpType::Retain, 0, None, None, 8, "peer");
    engine.apply_remote_operation("d", Some(o2));
    assert_eq!(engine.get_content("d"), Some("abc".to_string()));
    assert_eq!(engine.get_version("d"), 2);
}

#[test]
fn create_document_overwrites_existing_id() {
    let mut engine = CrdtEngine::new("user1".to_string());
    engine.create_document("d".to_string(), "first".to_string());
    engine.insert("d", 0, "x".to_string());
    assert_eq!(engine.get_version("d"), 1);
    let returned = engine.create_document("d".to_string(), "second".to_string());
    assert_eq!(returned, "d");
    assert_eq!(engine.get_content("d"), Some("second".to_string()));
    assert_eq!(engine.get_version("d"), 0);
}

#[test]
fn non_ascii_positions_count_characters() {
    let mut engine = CrdtEngine::new("u".to_string());
    engine.create_document("d".to_string(), "héllo".to_string());
    engine.insert("d", 2, "X".to_string());
    assert_eq!(engine.get_content("d"), Some("héXllo".to_string()));
    engine.delete("d", 2, 1);
    assert_eq!(engine.get_content("d"), Some("héllo".to_string()));
}
