use rustpad::client::{
    add_client, broadcast_message, broadcast_personalized_message, get_client_by_id, get_client_count,
    list_clients, remove_client, Client, Clients,
};

fn registry() -> Clients {
    let mut clients = Clients::new();
    add_client(&mut clients, "A".to_string(), Client::new("A", "alice"));
    add_client(&mut clients, "B".to_string(), Client::new("B", "bob"));
    add_client(&mut clients, "C".to_string(), Client::new("C", "carol"));
    clients
}

#[test]
fn broadcast_skips_the_sender() {
    let clients = registry();
    let out = broadcast_message(&clients, "hi", Some("A"));
    assert_eq!(out.recipients, vec!["B".to_string(), "C".to_string()]);
    assert_eq!(out.text, "hi");
    let all = broadcast_message(&clients, "hi", None);
    assert_eq!(all.recipients.len(), 3);
}

#[test]
fn closed_channel_does_not_stop_the_others() {
    let mut clients = registry();
    let mut b = Client::new("B", "bob");
    b.disconnect();
    add_client(&mut clients, "B".to_string(), b);
    let out = broadcast_message(&clients, "edit", None);
    assert_eq!(out.recipients, vec!["A".to_string(), "C".to_string()]);
    assert_eq!(get_client_count(&clients), 3);
}

#[test]
fn add_overwrites_and_remove_is_idempotent() {
    let mut clients = registry();
    add_client(&mut clients, "A".to_string(), Client::new("A", "alicia"));
    assert_eq!(get_client_count(&clients), 3);
    assert_eq!(get_client_by_id(&clients, "A").unwrap().username, "alicia");
    remove_client(&mut clients, "B");
    remove_client(&mut clients, "B");
    remove_client(&mut clients, "missing");
    assert_eq!(get_client_count(&clients), 2);
    assert!(get_client_by_id(&clients, "B").is_none());
    assert_eq!(
        list_clients(&clients),
        vec![("A".to_string(), "alicia".to_string()), ("C".to_string(), "carol".to_string())]
    );
}

#[test]
fn personalized_message_names_the_sender() {
    let clients = registry();
    let out = broadcast_personalized_message(&clients, "hello", "dave");
    assert_eq!(out.text, "dave says: hello");
    assert_eq!(out.recipients.len(), 3);
}
