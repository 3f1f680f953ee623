//! The room store: the one place through which the room is read and changed.

use vstd::prelude::*;

use crate::domain::{ChatMessage, ClientId, MessageContent, Participant, Timestamp};
use crate::room::{
    admitted, appended, copy_participants, handles, ids, without_id, Room, RoomState,
};

verus! {

/// Why the store refused an operation.
#[derive(Debug, Clone, Copy, PartialEq, Eq, Structural)]
pub enum RepositoryError {
    ParticipantCapacityExceeded,
    MessageCapacityExceeded,
    RoomNotFound,
}

/// Access to one room. Each operation is whole: a caller sees the room
/// before it or after it, never in between.
pub trait RoomRepository {
    /// The room as the store holds it.
    spec fn state(&self) -> RoomState;

    /// A copy of the room.
    fn get_room(&self) -> (r: Result<Room, RepositoryError>)
        ensures
            r matches Ok(room) ==> room@ == self.state(),
    ;

    /// Records `client_id` as connected at `timestamp`, within capacity.
    fn add_participant(&mut self, client_id: ClientId, timestamp: Timestamp) -> (r: Result<
        (),
        RepositoryError,
    >)
        requires
            old(self).state().wf(),
        ensures
            final(self).state().wf(),
            admitted(
                old(self).state(),
                (Participant { id: client_id, connected_at: timestamp }),
                final(self).state(),
                r is Ok,
            ),
            r is Err ==> r == Err::<(), RepositoryError>(
                RepositoryError::ParticipantCapacityExceeded,
            ),
    ;

    /// Takes `client_id` out of the room; an absent handle is no error.
    fn remove_participant(&mut self, client_id: &ClientId) -> (r: Result<(), RepositoryError>)
        requires
            old(self).state().wf(),
        ensures
            final(self).state().wf(),
            r is Ok,
            final(self).state() == old(self).state().with_participants(
                without_id(old(self).state().participants, client_id@),
            ),
    ;

    /// The handles of all connected participants.
    fn get_all_connected_client_ids(&self) -> (r: Vec<ClientId>)
        ensures
            handles(r@) == ids(self.state().participants),
    ;

    /// Appends a message to the history, within capacity.
    fn add_message(
        &mut self,
        from_client_id: ClientId,
        content: MessageContent,
        timestamp: Timestamp,
    ) -> (r: Result<(), RepositoryError>)
        requires
            old(self).state().wf(),
        ensures
            final(self).state().wf(),
            appended(
                old(self).state(),
                (ChatMessage { from: from_client_id, content, timestamp }),
                final(self).state(),
                r is Ok,
            ),
            r is Err ==> r == Err::<(), RepositoryError>(RepositoryError::MessageCapacityExceeded),
    ;

    /// How many participants are connected.
    fn count_connected_clients(&self) -> (r: usize)
        ensures
            r == self.state().participants.len(),
    ;

    /// A copy of the participant list.
    fn get_participants(&self) -> (r: Vec<Participant>)
        ensures
            r@ == self.state().participants,
    ;
}

/// A store that keeps the room in memory.
pub struct InMemoryRoomRepository {
    room: Room,
}

impl InMemoryRoomRepository {
    pub fn new(room: Room) -> (r: InMemoryRoomRepository)
        ensures
            r.state() == room@,
    {
        InMemoryRoomRepository { room }
    }
}

impl RoomRepository for InMemoryRoomRepository {
    closed spec fn state(&self) -> RoomState {
        self.room@
    }

    fn get_room(&self) -> (r: Result<Room, RepositoryError>)
        ensures
            r is Ok,
    {
        Ok(self.room.clone())
    }

    fn add_participant(&mut self, client_id: ClientId, timestamp: Timestamp) -> (r: Result<
        (),
        RepositoryError,
    >) {
        let participant = Participant::new(client_id, timestamp);
        match self.room.add_participant(participant) {
            Ok(()) => Ok(()),
            Err(_) => Err(RepositoryError::ParticipantCapacityExceeded),
        }
    }

    fn remove_participant(&mut self, client_id: &ClientId) -> (r: Result<(), RepositoryError>) {
        self.room.remove_participant(client_id);
        Ok(())
    }

    fn get_all_connected_client_ids(&self) -> (r: Vec<ClientId>) {
        self.room.connected_ids()
    }

    fn add_message(
        &mut self,
        from_client_id: ClientId,
        content: MessageContent,
        timestamp: Timestamp,
    ) -> (r: Result<(), RepositoryError>) {
        let message = ChatMessage::new(from_client_id, content, timestamp);
        match self.room.add_message(message) {
            Ok(()) => Ok(()),
            Err(_) => Err(RepositoryError::MessageCapacityExceeded),
        }
    }

    fn count_connected_clients(&self) -> (r: usize) {
        self.room.participant_count()
    }

    fn get_participants(&self) -> (r: Vec<Participant>) {
        copy_participants(self.room.participants())
    }
}

} // verus!
