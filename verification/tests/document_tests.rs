use crdt_engine::Document;
use crdt_engine::OpType;
use crdt_engine::Operation;
use crdt_engine::ops::op_type_from_tag;
use crdt_engine::ops::tag_of_op_type;

fn op(op_type: OpType, pos: usize, content: Option<&str>, length: Option<usize>, clock: u64, user_id: &str) -> Operation {
    Operation {
        op_type,
        pos,
        content: content.map(|s| s.to_string()),
        length,
        clock,
        user_id: user_id.to_string(),
    }
}

fn vv_entry(doc: &Document, author: &str) -> Option<u64> {
    doc.version_vector
        .iter()
        .find(|e| e.0 == author)
        .map(|e| e.1)
}

#[test]
fn version_tracks_log_length() {
    let mut doc = Document::new("d".to_string(), "".to_string());
    assert_eq!(doc.version, 0);
    assert_eq!(doc.operations.len(), 0);
    doc.apply_operation(op(OpType::Insert, 0, Some("a"), None, 1, "u"));
    doc.apply_operation(op(OpType::Retain, 0, None, None, 2, "u"));
    assert_eq!(doc.version, 2);
    assert_eq!(doc.operations.len(), 2);
    assert_eq!(doc.content, "a");
}

#[test]
fn version_vector_keeps_maximum_clock() {
    let mut doc = Document::new("d".to_string(), "".to_string());
    doc.apply_operation(op(OpType::Insert, 0, Some("a"), None, 5, "u1"));
    assert_eq!(vv_entry(&doc, "u1"), Some(5));
    // A lower clock arriving later does not lower the entry.
    doc.apply_operation(op(OpType::Insert, 0, Some("b"), None, 3, "u1"));
    assert_eq!(vv_entry(&doc, "u1"), Some(5));
    // A higher clock raises it; other authors get their own entry.
    doc.apply_operation(op(OpType::Insert, 0, Some("c"), None, 9, "u1"));
    assert_eq!(vv_entry(&doc, "u1"), Some(9));
    doc.apply_operation(op(OpType::Delete, 0, None, Some(1), 2, "u2"));
    assert_eq!(vv_entry(&doc, "u2"), Some(2));
    assert_eq!(vv_entry(&doc, "u1"), Some(9));
    assert_eq!(vv_entry(&doc, "nobody"), None);
    assert_eq!(doc.version_vector.len(), 2);
}

#[test]
fn missing_payload_fields_skip_content_mutation() {
    let mut doc = Document::new("d".to_string(), "abc".to_string());
    // An insert without content and a delete without length still count.
    doc.apply_operation(op(OpType::Insert, 0, None, None, 1, "u"));
    doc.apply_operation(op(OpType::Delete, 0, None, None, 2, "u"));
    assert_eq!(doc.content, "abc");
    assert_eq!(doc.version, 2);
}

#[test]
fn document_log_tailing() {
    let mut doc = Document::new("d".to_string(), "".to_string());
    doc.apply_operation(op(OpType::Insert, 0, Some("a"), None, 1, "u"));
    doc.apply_operation(op(OpType::Insert, 1, Some("b"), None, 2, "u"));
    let tail = doc.get_operations_since(1);
    assert_eq!(tail.len(), 1);
    assert_eq!(tail[0].clock, 2);
    assert!(doc.get_operations_since(2).is_empty());
    assert!(doc.get_operations_since(17).is_empty());
}

#[test]
fn wire_tags_round_trip() {
    assert!(matches!(op_type_from_tag("insert".to_string()), OpType::Insert));
    assert!(matches!(op_type_from_tag("delete".to_string()), OpType::Delete));
    assert!(matches!(op_type_from_tag("retain".to_string()), OpType::Retain));
    let unknown = op_type_from_tag("wobble".to_string());
    assert!(matches!(&unknown, OpType::Unknown(t) if t == "wobble"));
    assert_eq!(tag_of_op_type(&OpType::Insert), "insert");
    assert_eq!(tag_of_op_type(&OpType::Delete), "delete");
    assert_eq!(tag_of_op_type(&OpType::Retain), "retain");
    assert_eq!(tag_of_op_type(&unknown), "wobble");
    // Case matters: the recognized tags are lower-case exactly.
    assert!(matches!(op_type_from_tag("Insert".to_string()), OpType::Unknown(_)));
}
