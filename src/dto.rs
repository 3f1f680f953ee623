//! The frames exchanged with clients, as plain values, and their conversion
//! to and from the room's entities. Their text encoding lives outside the
//! library.

use vstd::prelude::*;

use crate::domain::{
    valid_client_id, valid_message, ChatMessage as Entry, ClientId, MessageContent, Participant,
    Timestamp, ValueError,
};

verus! {

/// The kind of a frame.
#[derive(Debug, Clone, Copy, PartialEq, Eq, Structural)]
pub enum MessageType {
    Chat,
    RoomConnected,
    ParticipantJoined,
    ParticipantLeft,
}

/// A chat frame, in either direction.
#[derive(Debug, Clone)]
pub struct ChatMessage {
    pub message_type: MessageType,
    pub client_id: String,
    pub content: String,
    pub timestamp: i64,
}

/// One participant of a room snapshot.
#[derive(Debug, Clone)]
pub struct ParticipantInfo {
    pub client_id: String,
    pub connected_at: i64,
}

/// The snapshot sent once to a newly admitted client.
#[derive(Debug, Clone)]
pub struct RoomConnectedMessage {
    pub message_type: MessageType,
    pub participants: Vec<ParticipantInfo>,
}

/// The notice that a participant joined.
#[derive(Debug, Clone)]
pub struct ParticipantJoinedMessage {
    pub message_type: MessageType,
    pub client_id: String,
    pub connected_at: i64,
}

/// The notice that a participant left.
#[derive(Debug, Clone)]
pub struct ParticipantLeftMessage {
    pub message_type: MessageType,
    pub client_id: String,
    pub disconnected_at: i64,
}

/// The query of an admission request: the handle the client asks for.
#[derive(Debug, Clone)]
pub struct ConnectQuery {
    pub client_id: String,
}

impl ConnectQuery {
    /// The requested handle, validated.
    pub fn into_client_id(self) -> (r: Result<ClientId, ValueError>)
        ensures
            r is Ok <==> valid_client_id(self.client_id@),
            r matches Ok(id) ==> id@ == self.client_id@,
    {
        ClientId::new(self.client_id)
    }
}

impl ChatMessage {
    /// The frame of a history entry.
    pub fn from_entry(m: Entry) -> (r: ChatMessage)
        ensures
            r.message_type == MessageType::Chat,
            r.client_id@ == m.from@,
            r.content@ == m.content@,
            r.timestamp == m.timestamp.millis,
    {
        ChatMessage {
            message_type: MessageType::Chat,
            client_id: m.from.into_string(),
            content: m.content.into_string(),
            timestamp: m.timestamp.value(),
        }
    }

    /// The history entry of a frame, if its handle and body are valid.
    pub fn to_entry(self) -> (r: Result<Entry, ValueError>)
        ensures
            r is Ok <==> valid_client_id(self.client_id@) && valid_message(self.content@),
            r matches Ok(m) ==> m.from@ == self.client_id@ && m.content@ == self.content@
                && m.timestamp.millis == self.timestamp,
    {
        let from = ClientId::new(self.client_id)?;
        let content = MessageContent::new(self.content)?;
        Ok(Entry::new(from, content, Timestamp::new(self.timestamp)))
    }

    /// The frame that an inbound text stands for: the decoded frame when the
    /// text decoded, otherwise the raw text as a chat from an unknown sender
    /// at instant zero.
    pub fn lenient(decoded: Option<ChatMessage>, raw: &str) -> (r: ChatMessage)
        ensures
            decoded matches Some(d) ==> r.client_id@ == d.client_id@ && r.content@ == d.content@
                && r.timestamp == d.timestamp,
            decoded is None ==> r.client_id@ == "unknown"@ && r.content@ == raw@
                && r.timestamp == 0,
            r.message_type == MessageType::Chat,
    {
        match decoded {
            Some(d) => ChatMessage {
                message_type: MessageType::Chat,
                client_id: d.client_id,
                content: d.content,
                timestamp: d.timestamp,
            },
            None => ChatMessage {
                message_type: MessageType::Chat,
                client_id: "unknown".to_string(),
                content: raw.to_string(),
                timestamp: 0,
            },
        }
    }
}

impl ParticipantInfo {
    /// The snapshot line of a participant.
    pub fn from_participant(p: Participant) -> (r: ParticipantInfo)
        ensures
            r.client_id@ == p.id@,
            r.connected_at == p.connected_at.millis,
    {
        ParticipantInfo { client_id: p.id.into_string(), connected_at: p.connected_at.value() }
    }

    /// The participant of a snapshot line, if its handle is valid.
    pub fn to_participant(self) -> (r: Result<Participant, ValueError>)
        ensures
            r is Ok <==> valid_client_id(self.client_id@),
            r matches Ok(p) ==> p.id@ == self.client_id@ && p.connected_at.millis
                == self.connected_at,
    {
        let id = ClientId::new(self.client_id)?;
        Ok(Participant::new(id, Timestamp::new(self.connected_at)))
    }
}

impl RoomConnectedMessage {
    /// The snapshot of `participants`, in their order.
    pub fn from_participants(participants: Vec<Participant>) -> (r: RoomConnectedMessage)
        ensures
            r.message_type == MessageType::RoomConnected,
            r.participants@.len() == participants@.len(),
            forall|i: int|
                0 <= i < participants@.len() ==> (#[trigger] r.participants@[i]).client_id@
                    == participants@[i].id@ && r.participants@[i].connected_at
                    == participants@[i].connected_at.millis,
    {
        let mut out: Vec<ParticipantInfo> = Vec::new();
        let mut i: usize = 0;
        while i < participants.len()
            invariant
                i <= participants@.len(),
                out@.len() == i,
                forall|j: int|
                    0 <= j < i ==> (#[trigger] out@[j]).client_id@ == participants@[j].id@
                        && out@[j].connected_at == participants@[j].connected_at.millis,
            decreases participants@.len() - i,
        {
            let p = &participants[i];
            out.push(
                ParticipantInfo { client_id: p.id.to_owned_string(), connected_at: p.connected_at.value() },
            );
            i = i + 1;
        }
        RoomConnectedMessage { message_type: MessageType::RoomConnected, participants: out }
    }
}

impl ParticipantJoinedMessage {
    pub fn new(client_id: &ClientId, connected_at: Timestamp) -> (r: ParticipantJoinedMessage)
        ensures
            r.message_type == MessageType::ParticipantJoined,
            r.client_id@ == client_id@,
            r.connected_at == connected_at.millis,
    {
        ParticipantJoinedMessage {
            message_type: MessageType::ParticipantJoined,
            client_id: client_id.to_owned_string(),
            connected_at: connected_at.value(),
        }
    }
}

impl ParticipantLeftMessage {
    pub fn new(client_id: &ClientId, disconnected_at: Timestamp) -> (r: ParticipantLeftMessage)
        ensures
            r.message_type == MessageType::ParticipantLeft,
            r.client_id@ == client_id@,
            r.disconnected_at == disconnected_at.millis,
    {
        ParticipantLeftMessage {
            message_type: MessageType::ParticipantLeft,
            client_id: client_id.to_owned_string(),
            disconnected_at: disconnected_at.value(),
        }
    }
}

} // verus!
