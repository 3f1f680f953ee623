use chat_app_rs::domain::ClientId;
use chat_app_rs::pusher::{MessagePushError, MessagePusher, WebSocketMessagePusher};
use tokio::sync::mpsc;

#[test]
fn test_push_to_success() {
    let mut pusher = WebSocketMessagePusher::new();
    let (tx, mut rx) = mpsc::unbounded_channel();
    let client_id = ClientId::new("alice".to_string()).unwrap();
    pusher.register_client(client_id.clone(), tx);

    let result = pusher.push_to(&client_id, "Hello");

    assert!(result.is_ok());
    let received = rx.try_recv().ok();
    assert_eq!(received, Some("Hello".to_string()));
}

#[test]
fn test_push_to_client_not_found() {
    let mut pusher = WebSocketMessagePusher::new();
    let client_id = ClientId::new("nonexistent".to_string()).unwrap();

    let result = pusher.push_to(&client_id, "Hello");

    assert!(result.is_err());
    assert!(matches!(result.unwrap_err(), MessagePushError::ClientNotFound(_)));
}

#[test]
fn test_broadcast_success() {
    let mut pusher = WebSocketMessagePusher::new();
    let (tx1, mut rx1) = mpsc::unbounded_channel();
    let (tx2, mut rx2) = mpsc::unbounded_channel();
    let alice = ClientId::new("alice".to_string()).unwrap();
    let bob = ClientId::new("bob".to_string()).unwrap();
    pusher.register_client(alice.clone(), tx1);
    pusher.register_client(bob.clone(), tx2);

    let targets = vec![alice, bob];
    let result = pusher.broadcast(targets, "Broadcast message");

    assert!(result.is_ok());
    assert_eq!(rx1.try_recv().ok(), Some("Broadcast message".to_string()));
    assert_eq!(rx2.try_recv().ok(), Some("Broadcast message".to_string()));
}

#[test]
fn test_broadcast_partial_failure() {
    let mut pusher = WebSocketMessagePusher::new();
    let (tx1, mut rx1) = mpsc::unbounded_channel();
    let alice = ClientId::new("alice".to_string()).unwrap();
    let nonexistent = ClientId::new("nonexistent".to_string()).unwrap();
    pusher.register_client(alice.clone(), tx1);

    let targets = vec![alice.clone(), nonexistent];
    let result = pusher.broadcast(targets, "Broadcast message");

    assert!(result.is_ok());
    assert_eq!(rx1.try_recv().ok(), Some("Broadcast message".to_string()));
}

#[test]
fn test_broadcast_empty_targets() {
    let mut pusher = WebSocketMessagePusher::new();
    let result = pusher.broadcast(vec![], "Message");
    assert!(result.is_ok());
}

#[test]
fn closed_channel_fails_push_but_not_broadcast() {
    let mut pusher = WebSocketMessagePusher::new();
    let (tx1, rx1) = mpsc::unbounded_channel();
    let (tx2, mut rx2) = mpsc::unbounded_channel();
    let alice = ClientId::new("alice".to_string()).unwrap();
    let bob = ClientId::new("bob".to_string()).unwrap();
    pusher.register_client(alice.clone(), tx1);
    pusher.register_client(bob.clone(), tx2);
    drop(rx1);

    assert_eq!(pusher.push_to(&alice, "x"), Err(MessagePushError::PushFailed("channel closed".to_string())));
    assert!(pusher.broadcast(vec![alice, bob], "y").is_ok());
    assert_eq!(rx2.try_recv().ok(), Some("y".to_string()));
}

#[test]
fn registering_again_replaces_the_channel() {
    let mut pusher = WebSocketMessagePusher::new();
    let (tx1, mut rx1) = mpsc::unbounded_channel();
    let (tx2, mut rx2) = mpsc::unbounded_channel();
    let alice = ClientId::new("alice".to_string()).unwrap();
    pusher.register_client(alice.clone(), tx1);
    pusher.register_client(alice.clone(), tx2);

    assert!(pusher.push_to(&alice, "z").is_ok());
    assert!(rx1.try_recv().is_err());
    assert_eq!(rx2.try_recv().ok(), Some("z".to_string()));

    pusher.unregister_client(&alice);
    assert_eq!(pusher.push_to(&alice, "z"), Err(MessagePushError::ClientNotFound("alice".to_string())));
    pusher.unregister_client(&alice);
}

#[test]
fn broadcast_hands_the_payload_once_per_listing_in_order() {
    let mut pusher = WebSocketMessagePusher::new();
    let (tx1, mut rx1) = mpsc::unbounded_channel();
    let (tx2, mut rx2) = mpsc::unbounded_channel();
    let alice = ClientId::new("alice".to_string()).unwrap();
    let bob = ClientId::new("bob".to_string()).unwrap();
    pusher.register_client(alice.clone(), tx1);
    pusher.register_client(bob.clone(), tx2);

    assert!(pusher.broadcast(vec![alice.clone(), alice.clone()], "first").is_ok());
    assert!(pusher.broadcast(vec![alice], "second").is_ok());

    assert_eq!(rx1.try_recv().ok(), Some("first".to_string()));
    assert_eq!(rx1.try_recv().ok(), Some("first".to_string()));
    assert_eq!(rx1.try_recv().ok(), Some("second".to_string()));
    assert!(rx1.try_recv().is_err());
    assert!(rx2.try_recv().is_err());
}
