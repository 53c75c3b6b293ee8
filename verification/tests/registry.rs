use ws_chat::codec::generate_websocket_response;
use ws_chat::message::WebSocketMessage;
use ws_chat::registry::{ChatClient, SessionRegistry};

fn registry_of(ids: &[u128]) -> SessionRegistry {
    let mut registry = SessionRegistry::new();
    for id in ids {
        registry.insert(ChatClient::new(*id, "Anonymous".to_string()));
    }
    registry
}

#[test]
fn client_keeps_what_it_was_made_of() {
    let client = ChatClient::new(42, "Ann".to_string());
    assert_eq!(client.uuid, 42);
    assert_eq!(client.username, "Ann");
}

#[test]
fn registry_starts_empty() {
    let registry = SessionRegistry::new();
    assert_eq!(registry.len(), 0);
    assert!(!registry.contains(1));
    assert_eq!(registry.username_of(1), None);
    assert_eq!(registry.recipients(1), Vec::<u128>::new());
}

#[test]
fn insert_appends() {
    let registry = registry_of(&[3, 1, 2]);
    assert_eq!(registry.len(), 3);
    assert!(registry.contains(1) && registry.contains(2) && registry.contains(3));
    assert!(!registry.contains(4));
    assert_eq!(registry.recipients(0), vec![3, 1, 2]);
}

#[test]
fn remove_deletes_the_session() {
    let mut registry = registry_of(&[1, 2, 3]);
    registry.remove(2);
    assert_eq!(registry.len(), 2);
    assert!(!registry.contains(2));
    assert_eq!(registry.recipients(0), vec![1, 3]);
}

#[test]
fn remove_of_an_unknown_session_changes_nothing() {
    let mut registry = registry_of(&[1, 2, 3]);
    registry.remove(9);
    assert_eq!(registry.recipients(0), vec![1, 2, 3]);
    registry.remove(2);
    registry.remove(2);
    assert_eq!(registry.recipients(0), vec![1, 3]);
    let mut empty = SessionRegistry::new();
    empty.remove(1);
    assert_eq!(empty.len(), 0);
}

#[test]
fn remove_takes_every_session_of_that_identifier() {
    let mut registry = registry_of(&[1, 2, 1, 3, 1]);
    registry.remove(1);
    assert_eq!(registry.recipients(0), vec![2, 3]);
}

#[test]
fn rename_changes_the_name_in_place() {
    let mut registry = registry_of(&[1, 2, 3]);
    registry.rename(2, "Bob");
    assert_eq!(registry.username_of(1), Some("Anonymous".to_string()));
    assert_eq!(registry.username_of(2), Some("Bob".to_string()));
    assert_eq!(registry.username_of(3), Some("Anonymous".to_string()));
    assert_eq!(registry.recipients(0), vec![1, 2, 3]);
}

#[test]
fn rename_of_an_unknown_session_changes_nothing() {
    let mut registry = registry_of(&[1, 2]);
    registry.rename(9, "Bob");
    assert_eq!(registry.username_of(1), Some("Anonymous".to_string()));
    assert_eq!(registry.username_of(2), Some("Anonymous".to_string()));
    assert_eq!(registry.username_of(9), None);
    assert_eq!(registry.len(), 2);
}

#[test]
fn recipients_are_all_but_the_sender() {
    let registry = registry_of(&[1, 2, 3]);
    assert_eq!(registry.recipients(1), vec![2, 3]);
    assert_eq!(registry.recipients(2), vec![1, 3]);
    assert_eq!(registry.recipients(3), vec![1, 2]);
    assert_eq!(registry_of(&[1]).recipients(1), Vec::<u128>::new());
}

#[test]
fn broadcast_frames_once_for_all_but_the_sender() {
    let registry = registry_of(&[1, 2, 3]);
    let broadcast = registry.broadcast_message(
        WebSocketMessage::new("message".to_string(), "Anonymous: hello".to_string()),
        1,
    );
    assert_eq!(broadcast.recipients, vec![2, 3]);
    assert_eq!(
        broadcast.frame,
        generate_websocket_response(WebSocketMessage::new(
            "message".to_string(),
            "Anonymous: hello".to_string()
        ))
    );
    assert_eq!(broadcast.frame[0], 0x81);
}

#[test]
fn broadcast_leaves_out_a_removed_session() {
    let mut registry = registry_of(&[1, 2, 3]);
    registry.remove(3);
    let broadcast = registry
        .broadcast_message(WebSocketMessage::new("message".to_string(), "x".to_string()), 1);
    assert_eq!(broadcast.recipients, vec![2]);
}
