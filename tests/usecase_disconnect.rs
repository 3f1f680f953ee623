use chat_app_rs::domain::{ClientId, RoomId, Timestamp};
use chat_app_rs::pusher::{MessagePusher, WebSocketMessagePusher};
use chat_app_rs::repository::{InMemoryRoomRepository, RoomRepository};
use chat_app_rs::room::Room;
use chat_app_rs::time::get_jst_timestamp;
use chat_app_rs::usecase::{DisconnectError, DisconnectParticipantUseCase};

fn create_test_repository() -> InMemoryRoomRepository {
    let room = Room::new(
        RoomId::new("default".to_string()).unwrap(),
        Timestamp::new(get_jst_timestamp()),
    );
    InMemoryRoomRepository::new(room)
}

#[test]
fn test_disconnect_participant_success() {
    let mut repository = create_test_repository();
    let mut message_pusher = WebSocketMessagePusher::new();
    let usecase = DisconnectParticipantUseCase::new();

    let timestamp = get_jst_timestamp();
    let alice = ClientId::new("alice".to_string()).unwrap();
    let bob = ClientId::new("bob".to_string()).unwrap();
    let charlie = ClientId::new("charlie".to_string()).unwrap();
    repository.add_participant(alice.clone(), Timestamp::new(timestamp)).unwrap();
    repository.add_participant(bob.clone(), Timestamp::new(timestamp)).unwrap();
    repository.add_participant(charlie.clone(), Timestamp::new(timestamp)).unwrap();

    let result = usecase.execute(&mut repository, &mut message_pusher, alice.clone());

    assert!(result.is_ok());
    let notify_targets = result.unwrap();
    assert_eq!(notify_targets.len(), 2);
    let bob_id = ClientId::new("bob".to_string()).unwrap();
    let charlie_id = ClientId::new("charlie".to_string()).unwrap();
    assert!(notify_targets.contains(&bob_id));
    assert!(notify_targets.contains(&charlie_id));
    assert!(!notify_targets.contains(&alice));
    assert_eq!(repository.count_connected_clients(), 2);
}

#[test]
fn test_disconnect_last_participant() {
    let mut repository = create_test_repository();
    let mut message_pusher = WebSocketMessagePusher::new();
    let usecase = DisconnectParticipantUseCase::new();

    let timestamp = get_jst_timestamp();
    let alice = ClientId::new("alice".to_string()).unwrap();
    repository.add_participant(alice.clone(), Timestamp::new(timestamp)).unwrap();

    let result = usecase.execute(&mut repository, &mut message_pusher, alice.clone());

    assert!(result.is_ok());
    let notify_targets = result.unwrap();
    assert_eq!(notify_targets.len(), 0);
    assert_eq!(repository.count_connected_clients(), 0);
}

#[test]
fn test_disconnect_nonexistent_participant() {
    let mut repository = create_test_repository();
    let mut message_pusher = WebSocketMessagePusher::new();
    let usecase = DisconnectParticipantUseCase::new();

    let nonexistent = ClientId::new("nonexistent".to_string()).unwrap();
    let result = usecase.execute(&mut repository, &mut message_pusher, nonexistent);

    assert!(result.is_err());
}

#[test]
fn test_count_remaining_participants() {
    let mut repository = create_test_repository();
    let mut message_pusher = WebSocketMessagePusher::new();
    let usecase = DisconnectParticipantUseCase::new();

    let timestamp = get_jst_timestamp();
    let alice = ClientId::new("alice".to_string()).unwrap();
    let bob = ClientId::new("bob".to_string()).unwrap();
    let charlie = ClientId::new("charlie".to_string()).unwrap();
    repository.add_participant(alice.clone(), Timestamp::new(timestamp)).unwrap();
    repository.add_participant(bob.clone(), Timestamp::new(timestamp)).unwrap();
    repository.add_participant(charlie.clone(), Timestamp::new(timestamp)).unwrap();

    let count = usecase.count_remaining_participants(&repository);
    assert_eq!(count, 3);

    usecase.execute(&mut repository, &mut message_pusher, alice.clone()).unwrap();
    let count_after = usecase.count_remaining_participants(&repository);
    assert_eq!(count_after, 2);
}

#[test]
fn unknown_departure_is_not_found_and_changes_nothing() {
    let mut repository = create_test_repository();
    let mut message_pusher = WebSocketMessagePusher::new();
    let usecase = DisconnectParticipantUseCase::new();
    repository.add_participant(ClientId::new("alice".to_string()).unwrap(), Timestamp::new(1)).unwrap();

    let result = usecase.execute(&mut repository, &mut message_pusher, ClientId::new("bob".to_string()).unwrap());

    assert_eq!(result, Err(DisconnectError::NotFound));
    assert_eq!(repository.count_connected_clients(), 1);
}

#[test]
fn departure_unregisters_the_channel_and_notifies_the_rest() {
    let mut repository = create_test_repository();
    let mut message_pusher = WebSocketMessagePusher::new();
    let usecase = DisconnectParticipantUseCase::new();
    let alice = ClientId::new("alice".to_string()).unwrap();
    let bob = ClientId::new("bob".to_string()).unwrap();
    let (tx1, _rx1) = tokio::sync::mpsc::unbounded_channel();
    let (tx2, mut rx2) = tokio::sync::mpsc::unbounded_channel();
    repository.add_participant(alice.clone(), Timestamp::new(1)).unwrap();
    repository.add_participant(bob.clone(), Timestamp::new(2)).unwrap();
    message_pusher.register_client(alice.clone(), tx1);
    message_pusher.register_client(bob.clone(), tx2);

    let targets = usecase.execute(&mut repository, &mut message_pusher, alice.clone()).unwrap();
    assert_eq!(targets, vec![bob.clone()]);
    assert!(message_pusher.push_to(&alice, "x").is_err());

    let sent = usecase.broadcast_participant_left(&mut message_pusher, targets, "left");
    assert!(sent.is_ok());
    assert_eq!(rx2.try_recv().ok(), Some("left".to_string()));
}

#[test]
fn notify_targets_keep_everyone_but_the_excluded() {
    let mut repository = create_test_repository();
    let usecase = DisconnectParticipantUseCase::new();
    for name in ["alice", "bob", "charlie"].iter() {
        repository.add_participant(ClientId::new(name.to_string()).unwrap(), Timestamp::new(1)).unwrap();
    }
    let targets = usecase.get_notify_targets(&repository, &ClientId::new("bob".to_string()).unwrap());
    let names: Vec<&str> = targets.iter().map(|c| c.as_str()).collect();
    assert_eq!(names, vec!["alice", "charlie"]);
}
