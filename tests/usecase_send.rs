use chat_app_rs::domain::{ClientId, MessageContent, RoomId, Timestamp};
use chat_app_rs::pusher::{MessagePusher, WebSocketMessagePusher};
use chat_app_rs::repository::{InMemoryRoomRepository, RoomRepository};
use chat_app_rs::room::Room;
use chat_app_rs::time::get_jst_timestamp;
use chat_app_rs::usecase::{SendMessageError, SendMessageUseCase};

fn create_test_repository() -> InMemoryRoomRepository {
    let room = Room::new(
        RoomId::new("default".to_string()).unwrap(),
        Timestamp::new(get_jst_timestamp()),
    );
    InMemoryRoomRepository::new(room)
}

fn create_test_repository_with_capacity(message_capacity: usize) -> InMemoryRoomRepository {
    let room = Room::with_capacity(
        RoomId::new("default".to_string()).unwrap(),
        Timestamp::new(get_jst_timestamp()),
        100,
        message_capacity,
    );
    InMemoryRoomRepository::new(room)
}

#[test]
fn test_send_message_success() {
    let mut repository = create_test_repository();
    let mut message_pusher = WebSocketMessagePusher::new();
    let usecase = SendMessageUseCase::new();

    let timestamp = get_jst_timestamp();
    let alice = ClientId::new("alice".to_string()).unwrap();
    let bob = ClientId::new("bob".to_string()).unwrap();
    let charlie = ClientId::new("charlie".to_string()).unwrap();
    repository.add_participant(alice.clone(), Timestamp::new(timestamp)).unwrap();
    repository.add_participant(bob.clone(), Timestamp::new(timestamp)).unwrap();
    repository.add_participant(charlie.clone(), Timestamp::new(timestamp)).unwrap();

    let content = MessageContent::new("Hello!".to_string()).unwrap();
    let result = usecase.execute(
        &mut repository,
        &mut message_pusher,
        alice.clone(),
        content,
        r#"{\"type\":\"chat\",\"client_id\":\"alice\",\"content\":\"Hello!\"}"#.to_string(),
    );

    assert!(result.is_ok());
    let broadcast_targets = result.unwrap();
    assert_eq!(broadcast_targets.len(), 2);
    assert!(broadcast_targets.contains(&bob));
    assert!(broadcast_targets.contains(&charlie));
    assert!(!broadcast_targets.contains(&alice));

    let room = repository.get_room().unwrap();
    assert_eq!(room.messages().len(), 1);
    assert_eq!(room.messages()[0].from, alice);
    assert_eq!(room.messages()[0].content.as_str(), "Hello!");
}

#[test]
fn test_send_message_no_broadcast_targets() {
    let mut repository = create_test_repository();
    let mut message_pusher = WebSocketMessagePusher::new();
    let usecase = SendMessageUseCase::new();

    let timestamp = get_jst_timestamp();
    let alice = ClientId::new("alice".to_string()).unwrap();
    repository.add_participant(alice.clone(), Timestamp::new(timestamp)).unwrap();

    let content = MessageContent::new("Hello!".to_string()).unwrap();
    let result = usecase.execute(
        &mut repository,
        &mut message_pusher,
        alice.clone(),
        content,
        r#"{\"type\":\"chat\",\"client_id\":\"alice\",\"content\":\"Hello!\"}"#.to_string(),
    );

    assert!(result.is_ok());
    let broadcast_targets = result.unwrap();
    assert_eq!(broadcast_targets.len(), 0);
    let room = repository.get_room().unwrap();
    assert_eq!(room.messages().len(), 1);
}

#[test]
fn test_send_message_capacity_exceeded() {
    let mut repository = create_test_repository_with_capacity(2);
    let mut message_pusher = WebSocketMessagePusher::new();
    let usecase = SendMessageUseCase::new();

    let timestamp = get_jst_timestamp();
    let alice = ClientId::new("alice".to_string()).unwrap();
    repository.add_participant(alice.clone(), Timestamp::new(timestamp)).unwrap();

    let msg1 = MessageContent::new("Message 1".to_string()).unwrap();
    usecase
        .execute(&mut repository, &mut message_pusher, alice.clone(), msg1, r#"{"type":"chat"}"#.to_string())
        .unwrap();
    let msg2 = MessageContent::new("Message 2".to_string()).unwrap();
    usecase
        .execute(&mut repository, &mut message_pusher, alice.clone(), msg2, r#"{"type":"chat"}"#.to_string())
        .unwrap();

    let msg3 = MessageContent::new("Message 3".to_string()).unwrap();
    let result =
        usecase.execute(&mut repository, &mut message_pusher, alice.clone(), msg3, r#"{"type":"chat"}"#.to_string());

    assert_eq!(result, Err(SendMessageError::MessageCapacityExceeded));
    let room = repository.get_room().unwrap();
    assert_eq!(room.messages().len(), 2);
}

#[test]
fn test_get_broadcast_targets_multiple_clients() {
    let mut repository = create_test_repository();
    let usecase = SendMessageUseCase::new();

    let timestamp = get_jst_timestamp();
    let alice = ClientId::new("alice".to_string()).unwrap();
    let bob = ClientId::new("bob".to_string()).unwrap();
    let charlie = ClientId::new("charlie".to_string()).unwrap();
    repository.add_participant(alice.clone(), Timestamp::new(timestamp)).unwrap();
    repository.add_participant(bob.clone(), Timestamp::new(timestamp)).unwrap();
    repository.add_participant(charlie.clone(), Timestamp::new(timestamp)).unwrap();

    let result = usecase.get_broadcast_targets(&repository, &bob);

    assert_eq!(result.len(), 2);
    assert!(result.contains(&alice));
    assert!(result.contains(&charlie));
    assert!(!result.contains(&bob));
}

#[test]
fn send_at_records_the_instant_and_delivers_to_the_others() {
    let mut repository = create_test_repository();
    let mut message_pusher = WebSocketMessagePusher::new();
    let usecase = SendMessageUseCase::new();
    let alice = ClientId::new("alice".to_string()).unwrap();
    let bob = ClientId::new("bob".to_string()).unwrap();
    let (tx1, mut rx1) = tokio::sync::mpsc::unbounded_channel();
    let (tx2, mut rx2) = tokio::sync::mpsc::unbounded_channel();
    repository.add_participant(alice.clone(), Timestamp::new(1)).unwrap();
    repository.add_participant(bob.clone(), Timestamp::new(2)).unwrap();
    message_pusher.register_client(alice.clone(), tx1);
    message_pusher.register_client(bob.clone(), tx2);

    let content = MessageContent::new("hi".to_string()).unwrap();
    let result = usecase.execute_at(
        &mut repository,
        &mut message_pusher,
        alice.clone(),
        content,
        "payload".to_string(),
        Timestamp::new(4242),
    );

    assert_eq!(result.unwrap(), vec![bob]);
    assert_eq!(rx2.try_recv().ok(), Some("payload".to_string()));
    assert!(rx1.try_recv().is_err());
    let room = repository.get_room().unwrap();
    assert_eq!(room.messages()[0].timestamp, Timestamp::new(4242));
}

#[test]
fn full_history_drops_the_message_before_any_delivery() {
    let mut repository = create_test_repository_with_capacity(0);
    let mut message_pusher = WebSocketMessagePusher::new();
    let usecase = SendMessageUseCase::new();
    let alice = ClientId::new("alice".to_string()).unwrap();
    let bob = ClientId::new("bob".to_string()).unwrap();
    let (tx2, mut rx2) = tokio::sync::mpsc::unbounded_channel();
    repository.add_participant(alice.clone(), Timestamp::new(1)).unwrap();
    repository.add_participant(bob.clone(), Timestamp::new(2)).unwrap();
    message_pusher.register_client(bob, tx2);

    let content = MessageContent::new("hi".to_string()).unwrap();
    let result = usecase.execute_at(&mut repository, &mut message_pusher, alice, content, "p".to_string(), Timestamp::new(3));

    assert_eq!(result, Err(SendMessageError::MessageCapacityExceeded));
    assert!(rx2.try_recv().is_err());
    assert_eq!(repository.get_room().unwrap().messages().len(), 0);
}
