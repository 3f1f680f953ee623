use chat_app_rs::dto::ParticipantInfo;
use chat_app_rs::formatter::MessageFormatter;

#[test]
fn test_format_room_connected_with_empty_participants() {
    let participants = vec![];
    let current_client_id = "alice";
    let result = MessageFormatter::format_room_connected(&participants, current_client_id);
    assert!(result.contains("Participants:"));
    assert!(result.contains("(No participants)"));
    assert!(result.contains("============================================================"));
}

#[test]
fn test_format_room_connected_with_single_participant() {
    let participants = vec![ParticipantInfo { client_id: "alice".to_string(), connected_at: 1672498800000 }];
    let current_client_id = "alice";
    let result = MessageFormatter::format_room_connected(&participants, current_client_id);
    assert!(result.contains("alice (me)"));
    assert!(result.contains("entered at"));
    assert!(result.contains("2023-01-01"));
}

#[test]
fn test_format_room_connected_with_multiple_participants() {
    let participants = vec![
        ParticipantInfo { client_id: "alice".to_string(), connected_at: 1672498800000 },
        ParticipantInfo { client_id: "bob".to_string(), connected_at: 1672498900000 },
    ];
    let current_client_id = "alice";
    let result = MessageFormatter::format_room_connected(&participants, current_client_id);
    assert!(result.contains("alice (me)"));
    assert!(result.contains("bob - entered at"));
    assert!(!result.contains("bob (me)"));
}

#[test]
fn test_format_participant_joined() {
    let client_id = "bob";
    let connected_at = 1672498800000;
    let result = MessageFormatter::format_participant_joined(client_id, connected_at);
    assert!(result.contains("+ bob"));
    assert!(result.contains("entered at"));
    assert!(result.contains("2023-01-01"));
}

#[test]
fn test_format_participant_left() {
    let client_id = "charlie";
    let disconnected_at = 1672498800000;
    let result = MessageFormatter::format_participant_left(client_id, disconnected_at);
    assert!(result.contains("- charlie"));
    assert!(result.contains("left at"));
    assert!(result.contains("2023-01-01"));
}

#[test]
fn test_format_chat_message() {
    let from = "alice";
    let content = "Hello, world!";
    let sent_at = 1672498800000;
    let result = MessageFormatter::format_chat_message(from, content, sent_at);
    assert!(result.contains("@alice:"));
    assert!(result.contains("Hello, world!"));
    assert!(result.contains("sent at"));
    assert!(result.contains("2023-01-01"));
    assert!(result.contains("------------------------------------------------------------"));
}

#[test]
fn test_format_sent_confirmation() {
    let sent_at = 1672498800000;
    let result = MessageFormatter::format_sent_confirmation(sent_at);
    assert!(result.contains("sent at"));
    assert!(result.contains("2023-01-01"));
}

#[test]
fn test_format_binary_message() {
    let byte_count = 1024;
    let result = MessageFormatter::format_binary_message(byte_count);
    assert!(result.contains("1024 bytes"));
    assert!(result.contains("Received"));
}

#[test]
fn test_format_raw_message() {
    let text = "unknown message format";
    let result = MessageFormatter::format_raw_message(text);
    assert!(result.contains("unknown message format"));
    assert!(result.contains("Received:"));
}

#[test]
fn room_snapshot_text_is_exact() {
    let participants = vec![
        ParticipantInfo { client_id: "alice".to_string(), connected_at: 1672498800000 },
        ParticipantInfo { client_id: "bob".to_string(), connected_at: 1672498800123 },
    ];
    let result = MessageFormatter::format_room_connected(&participants, "bob");
    let rule = "=".repeat(60);
    let expected = format!(
        "\n\n{rule}\nParticipants:\nalice - entered at 2023-01-01T00:00:00+09:00\nbob (me) - entered at 2023-01-01T00:00:00.123+09:00\n{rule}\n"
    );
    assert_eq!(result, expected);
}

#[test]
fn empty_snapshot_text_is_exact() {
    let result = MessageFormatter::format_room_connected(&[], "alice");
    let rule = "=".repeat(60);
    assert_eq!(result, format!("\n\n{rule}\nParticipants:\n(No participants)\n{rule}\n"));
}

#[test]
fn notices_are_exact() {
    assert_eq!(
        MessageFormatter::format_participant_joined("bob", 1672498800000),
        "\n+ bob entered at 2023-01-01T00:00:00+09:00\n"
    );
    assert_eq!(
        MessageFormatter::format_participant_left("charlie", 1672498800000),
        "\n- charlie left at 2023-01-01T00:00:00+09:00\n"
    );
    assert_eq!(
        MessageFormatter::format_sent_confirmation(1672498800000),
        "sent at 2023-01-01T00:00:00+09:00\n"
    );
}

#[test]
fn chat_text_is_exact() {
    let dash = "-".repeat(60);
    assert_eq!(
        MessageFormatter::format_chat_message("alice", "Hi", 1672498800000),
        format!("\n\n{dash}\n@alice: Hi\nsent at 2023-01-01T00:00:00+09:00\n{dash}\n")
    );
}

#[test]
fn byte_counts_are_written_in_decimal() {
    assert_eq!(MessageFormatter::format_binary_message(0), "\n← Received 0 bytes of binary data\n");
    assert_eq!(MessageFormatter::format_binary_message(7), "\n← Received 7 bytes of binary data\n");
    assert_eq!(MessageFormatter::format_binary_message(10), "\n← Received 10 bytes of binary data\n");
    assert_eq!(
        MessageFormatter::format_binary_message(usize::MAX),
        format!("\n← Received {} bytes of binary data\n", usize::MAX)
    );
    assert_eq!(MessageFormatter::format_raw_message("x"), "\n← Received: x\n");
}
