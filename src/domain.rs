//! Value types and entities of the room: handles, message bodies, instants,
//! participants and history entries.

use vstd::prelude::*;

verus! {

/// Longest accepted client handle, in characters.
pub const CLIENT_ID_MAX_CHARS: usize = 50;

/// Longest accepted message body, in characters.
pub const MESSAGE_MAX_CHARS: usize = 1000;

/// Longest accepted room identifier, in characters.
pub const ROOM_ID_MAX_CHARS: usize = 64;

pub open spec fn valid_client_id(s: Seq<char>) -> bool {
    1 <= s.len() <= CLIENT_ID_MAX_CHARS
}

pub open spec fn valid_message(s: Seq<char>) -> bool {
    1 <= s.len() <= MESSAGE_MAX_CHARS
}

pub open spec fn valid_room_id(s: Seq<char>) -> bool {
    1 <= s.len() <= ROOM_ID_MAX_CHARS
}

/// Why a raw string was refused as a value type.
#[derive(Debug, Clone, Copy, PartialEq, Eq, Structural)]
pub enum ValueError {
    Empty,
    TooLong,
}

/// The error that `new` gives for a string of `len` characters and the given bound.
pub open spec fn length_error(len: nat, max: nat) -> ValueError {
    if len == 0 {
        ValueError::Empty
    } else {
        ValueError::TooLong
    }
}

/// Character length of `s`, checked against `1..=max`.
fn check_length(s: &str, max: usize) -> (r: Result<(), ValueError>)
    ensures
        r is Ok <==> 1 <= s@.len() <= max,
        r is Err ==> r == Err::<(), ValueError>(length_error(s@.len(), max as nat)),
{
    let n = s.unicode_len();
    if n == 0 {
        Err(ValueError::Empty)
    } else if n > max {
        Err(ValueError::TooLong)
    } else {
        Ok(())
    }
}

/// A validated client handle: non-empty, at most `CLIENT_ID_MAX_CHARS` characters.
#[derive(Debug)]
pub struct ClientId {
    value: String,
}

impl View for ClientId {
    type V = Seq<char>;

    closed spec fn view(&self) -> Seq<char> {
        self.value@
    }
}

impl ClientId {
    #[verifier::type_invariant]
    spec fn inv(&self) -> bool {
        valid_client_id(self.value@)
    }

    pub fn new(value: String) -> (r: Result<ClientId, ValueError>)
        ensures
            r is Ok <==> valid_client_id(value@),
            r matches Ok(id) ==> id@ == value@,
            r is Err ==> r == Err::<ClientId, ValueError>(
                length_error(value@.len(), CLIENT_ID_MAX_CHARS as nat),
            ),
    {
        match check_length(value.as_str(), CLIENT_ID_MAX_CHARS) {
            Ok(()) => Ok(ClientId { value }),
            Err(e) => Err(e),
        }
    }

    pub fn as_str(&self) -> (r: &str)
        ensures
            r@ == self@,
    {
        self.value.as_str()
    }

    pub fn into_string(self) -> (r: String)
        ensures
            r@ == self@,
    {
        self.value
    }

    /// The handle as an owned string.
    pub fn to_owned_string(&self) -> (r: String)
        ensures
            r@ == self@,
    {
        self.value.clone()
    }

    /// Exact-match comparison of two handles.
    pub fn same_as(&self, other: &ClientId) -> (r: bool)
        ensures
            r == (self@ == other@),
    {
        self.value == other.value
    }
}

impl Clone for ClientId {
    fn clone(&self) -> (r: Self)
        ensures
            r == *self,
    {
        proof {
            use_type_invariant(self);
        }
        ClientId { value: self.value.clone() }
    }
}

impl PartialEq for ClientId {
    fn eq(&self, other: &ClientId) -> (r: bool) {
        self.value == other.value
    }
}

impl Eq for ClientId {
}

impl vstd::std_specs::cmp::PartialEqSpecImpl for ClientId {
    open spec fn obeys_eq_spec() -> bool {
        true
    }

    open spec fn eq_spec(&self, other: &ClientId) -> bool {
        self@ == other@
    }
}

/// A validated message body: non-empty, at most `MESSAGE_MAX_CHARS` characters.
#[derive(Debug)]
pub struct MessageContent {
    value: String,
}

impl View for MessageContent {
    type V = Seq<char>;

    closed spec fn view(&self) -> Seq<char> {
        self.value@
    }
}

impl MessageContent {
    #[verifier::type_invariant]
    spec fn inv(&self) -> bool {
        valid_message(self.value@)
    }

    pub fn new(value: String) -> (r: Result<MessageContent, ValueError>)
        ensures
            r is Ok <==> valid_message(value@),
            r matches Ok(c) ==> c@ == value@,
            r is Err ==> r == Err::<MessageContent, ValueError>(
                length_error(value@.len(), MESSAGE_MAX_CHARS as nat),
            ),
    {
        match check_length(value.as_str(), MESSAGE_MAX_CHARS) {
            Ok(()) => Ok(MessageContent { value }),
            Err(e) => Err(e),
        }
    }

    pub fn as_str(&self) -> (r: &str)
        ensures
            r@ == self@,
    {
        self.value.as_str()
    }

    pub fn into_string(self) -> (r: String)
        ensures
            r@ == self@,
    {
        self.value
    }
}

impl Clone for MessageContent {
    fn clone(&self) -> (r: Self)
        ensures
            r == *self,
    {
        proof {
            use_type_invariant(self);
        }
        MessageContent { value: self.value.clone() }
    }
}

impl PartialEq for MessageContent {
    fn eq(&self, other: &MessageContent) -> (r: bool) {
        self.value == other.value
    }
}

impl Eq for MessageContent {
}

impl vstd::std_specs::cmp::PartialEqSpecImpl for MessageContent {
    open spec fn obeys_eq_spec() -> bool {
        true
    }

    open spec fn eq_spec(&self, other: &MessageContent) -> bool {
        self@ == other@
    }
}

/// A validated room identifier: non-empty, at most `ROOM_ID_MAX_CHARS` characters.
#[derive(Debug)]
pub struct RoomId {
    value: String,
}

impl View for RoomId {
    type V = Seq<char>;

    closed spec fn view(&self) -> Seq<char> {
        self.value@
    }
}

impl RoomId {
    #[verifier::type_invariant]
    spec fn inv(&self) -> bool {
        valid_room_id(self.value@)
    }

    pub fn new(value: String) -> (r: Result<RoomId, ValueError>)
        ensures
            r is Ok <==> valid_room_id(value@),
            r matches Ok(id) ==> id@ == value@,
            r is Err ==> r == Err::<RoomId, ValueError>(
                length_error(value@.len(), ROOM_ID_MAX_CHARS as nat),
            ),
    {
        match check_length(value.as_str(), ROOM_ID_MAX_CHARS) {
            Ok(()) => Ok(RoomId { value }),
            Err(e) => Err(e),
        }
    }

    pub fn as_str(&self) -> (r: &str)
        ensures
            r@ == self@,
    {
        self.value.as_str()
    }
}

impl Clone for RoomId {
    fn clone(&self) -> (r: Self)
        ensures
            r == *self,
    {
        proof {
            use_type_invariant(self);
        }
        RoomId { value: self.value.clone() }
    }
}

/// A point in time: milliseconds since the Unix epoch.
#[derive(Debug, Clone, Copy, PartialEq, Eq, Structural)]
pub struct Timestamp {
    pub millis: i64,
}

impl Timestamp {
    pub fn new(millis: i64) -> (r: Timestamp)
        ensures
            r.millis == millis,
    {
        Timestamp { millis }
    }

    pub fn value(&self) -> (r: i64)
        ensures
            r == self.millis,
    {
        self.millis
    }
}

/// A connected client's membership record.
#[derive(Debug)]
pub struct Participant {
    pub id: ClientId,
    pub connected_at: Timestamp,
}

impl Participant {
    pub fn new(id: ClientId, connected_at: Timestamp) -> (r: Participant)
        ensures
            r.id == id,
            r.connected_at == connected_at,
    {
        Participant { id, connected_at }
    }
}

impl Clone for Participant {
    fn clone(&self) -> (r: Self)
        ensures
            r == *self,
    {
        Participant { id: self.id.clone(), connected_at: self.connected_at }
    }
}

impl PartialEq for Participant {
    fn eq(&self, other: &Participant) -> (r: bool) {
        self.id.same_as(&other.id) && self.connected_at.millis == other.connected_at.millis
    }
}

impl vstd::std_specs::cmp::PartialEqSpecImpl for Participant {
    open spec fn obeys_eq_spec() -> bool {
        true
    }

    open spec fn eq_spec(&self, other: &Participant) -> bool {
        self.id@ == other.id@ && self.connected_at == other.connected_at
    }
}

/// An entry of the room's message history.
#[derive(Debug)]
pub struct ChatMessage {
    pub from: ClientId,
    pub content: MessageContent,
    pub timestamp: Timestamp,
}

impl ChatMessage {
    pub fn new(from: ClientId, content: MessageContent, timestamp: Timestamp) -> (r: ChatMessage)
        ensures
            r.from == from,
            r.content == content,
            r.timestamp == timestamp,
    {
        ChatMessage { from, content, timestamp }
    }
}

impl Clone for ChatMessage {
    fn clone(&self) -> (r: Self)
        ensures
            r == *self,
    {
        ChatMessage {
            from: self.from.clone(),
            content: self.content.clone(),
            timestamp: self.timestamp,
        }
    }
}

impl PartialEq for ChatMessage {
    fn eq(&self, other: &ChatMessage) -> (r: bool) {
        self.from.same_as(&other.from) && self.content == other.content
            && self.timestamp.millis == other.timestamp.millis
    }
}

impl vstd::std_specs::cmp::PartialEqSpecImpl for ChatMessage {
    open spec fn obeys_eq_spec() -> bool {
        true
    }

    open spec fn eq_spec(&self, other: &ChatMessage) -> bool {
        self.from@ == other.from@ && self.content@ == other.content@ && self.timestamp
            == other.timestamp
    }
}

} // verus!
