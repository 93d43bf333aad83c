use rustpad::document::{Document, DocumentUpdate};

#[test]
fn apply_update_appends_history() {
    let mut doc = Document::new();
    assert_eq!(doc.get_content(), "");
    doc.apply_update(DocumentUpdate::new("first", "alice"));
    doc.apply_update(DocumentUpdate::new("second", "bob"));
    assert_eq!(doc.get_content(), "second");
    let history = doc.get_history();
    assert_eq!(history.len(), 2);
    assert_eq!(history[0].user, "alice");
    assert_eq!(history[1].content, "second");
}

#[test]
fn undo_keeps_the_ground_entry() {
    let mut doc = Document::new();
    assert!(doc.undo_last_update().is_none());
    doc.apply_update(DocumentUpdate::new("v1", "alice"));
    assert!(doc.undo_last_update().is_none());
    assert_eq!(doc.get_content(), "v1");
    doc.apply_update(DocumentUpdate::new("v2", "alice"));
    let restored = doc.undo_last_update().unwrap();
    assert_eq!(restored.content, "v1");
    assert_eq!(doc.get_content(), "v1");
    assert_eq!(doc.get_history().len(), 1);
    doc.redo_update(DocumentUpdate::new("v2", "alice"));
    assert_eq!(doc.get_content(), "v2");
}

#[test]
fn stamped_update_writes_seconds_in_decimal() {
    let u = DocumentUpdate::stamped("text", "carol", 1700000000);
    assert_eq!(u.content, "text");
    assert_eq!(u.user, "carol");
    assert_eq!(u.timestamp, "1700000000");
    assert_eq!(DocumentUpdate::stamped("", "", 0).timestamp, "0");
}

#[test]
fn update_carries_a_timestamp() {
    let u = DocumentUpdate::new("text", "carol");
    assert_eq!(u.content, "text");
    assert_eq!(u.user, "carol");
    assert!(!u.timestamp.is_empty());
    assert!(u.timestamp.chars().all(|c| c.is_ascii_digit()));
}
