use rustpad::broadcaster::Broadcaster;
use rustpad::client::{add_client, Client};
use rustpad::document::DocumentUpdate;
use rustpad::editor::diff_engine::DiffOperation;
use rustpad::networking::protocol::ProtocolMessage;

fn server() -> Broadcaster {
    let mut b = Broadcaster::new();
    add_client(&mut b.clients, "A".to_string(), Client::new("A", "alice"));
    add_client(&mut b.clients, "B".to_string(), Client::new("B", "bob"));
    add_client(&mut b.clients, "C".to_string(), Client::new("C", "carol"));
    b
}

#[test]
fn incoming_edit_is_diffed_and_fanned_out() {
    let mut b = server();
    let out = b.handle_incoming("A", Some(DocumentUpdate::new("hello", "alice"))).unwrap();
    assert_eq!(out.recipients, vec!["B".to_string(), "C".to_string()]);
    match out.message {
        ProtocolMessage::Sync(m) => assert_eq!(m.operations, vec![DiffOperation::Insert(0, "hello".to_string())]),
        ProtocolMessage::Cursor(_) => panic!("expected a sync message"),
    }
    assert_eq!(b.document.get_content(), "hello");
}

#[test]
fn malformed_message_is_dropped() {
    let mut b = server();
    assert!(b.handle_incoming("A", None).is_none());
    assert_eq!(b.document.get_content(), "");
    assert!(b.document.get_history().is_empty());
}

#[test]
fn last_arrival_wins() {
    let mut b = server();
    b.handle_incoming("A", Some(DocumentUpdate::new("foo", "A"))).unwrap();
    b.handle_incoming("B", Some(DocumentUpdate::new("bar", "B"))).unwrap();
    assert_eq!(b.document.get_content(), "bar");
    let history = b.document.get_history();
    assert_eq!(history.len(), 2);
    assert_eq!(history[0].content, "foo");
    assert_eq!(history[1].content, "bar");
}

#[test]
fn collaboration_last_edit_wins() {
    let mut m = rustpad::editor::collaboration::CollaborationManager::new();
    let edit = |user: &str, content: &str| rustpad::editor::collaboration::Edit {
        user: user.to_string(),
        content: content.to_string(),
        cursor_position: content.len(),
        timestamp: "0".to_string(),
    };
    m.apply_edit(edit("A", "foo"));
    m.apply_edit(edit("B", "bar"));
    assert_eq!(m.get_document(), "bar");
}
