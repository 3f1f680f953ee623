//! The three externally triggered operations: admission, departure and
//! sending a message. Each composes the room store and the broadcast hub and
//! owns the order of their steps.

use vstd::prelude::*;

use crate::domain::{ChatMessage, ClientId, MessageContent, Participant, Timestamp};
use crate::ordering::{sort_by_handle, sorted_by_handle};
use crate::pusher::{deliveries, MessagePusher, PusherChannel};
use crate::repository::RoomRepository;
use crate::room::{handles, ids, omit, without_id, RoomState};
use crate::time::get_jst_timestamp;

verus! {

/// Why an admission was refused.
#[derive(Debug, Clone, PartialEq, Eq)]
pub enum ConnectError {
    /// The handle is already connected; retrying will not help.
    DuplicateClientId(String),
    /// The room is full; a later attempt may succeed.
    RoomCapacityExceeded,
}

/// Why a departure was refused.
#[derive(Debug, Clone, Copy, PartialEq, Eq, Structural)]
pub enum DisconnectError {
    /// The handle is not connected.
    NotFound,
}

/// Why a message was not recorded.
#[derive(Debug, Clone, PartialEq, Eq)]
pub enum SendMessageError {
    /// The history is full; the message is dropped.
    MessageCapacityExceeded,
    /// The hub as a whole failed.
    BroadcastFailed(String),
}

/// The outcome of an admission of `id` at `at`: a connected handle is refused
/// as a duplicate and a full room as over capacity, both with nothing changed;
/// otherwise the participant is appended and its channel registered.
pub open spec fn connect_outcome(
    pre: RoomState,
    hub: Map<Seq<char>, PusherChannel>,
    id: ClientId,
    sender: PusherChannel,
    at: Timestamp,
    r: Result<Timestamp, ConnectError>,
    post: RoomState,
    hub_post: Map<Seq<char>, PusherChannel>,
) -> bool {
    if pre.is_connected(id@) {
        &&& r matches Err(ConnectError::DuplicateClientId(s)) && s@ == id@
        &&& post == pre
        &&& hub_post == hub
    } else if pre.participants.len() >= pre.participant_capacity {
        &&& r == Err::<Timestamp, ConnectError>(ConnectError::RoomCapacityExceeded)
        &&& post == pre
        &&& hub_post == hub
    } else {
        &&& r == Ok::<Timestamp, ConnectError>(at)
        &&& post == pre.with_participants(
            pre.participants.push(Participant { id, connected_at: at }),
        )
        &&& hub_post == hub.insert(id@, sender)
    }
}

/// The outcome of the departure of `id`: an unknown handle is refused with
/// nothing changed; otherwise the handles to notify are all the others, taken
/// before the removal, and the participant and its channel are gone.
pub open spec fn disconnect_outcome(
    pre: RoomState,
    hub: Map<Seq<char>, PusherChannel>,
    id: Seq<char>,
    r: Result<Vec<ClientId>, DisconnectError>,
    post: RoomState,
    hub_post: Map<Seq<char>, PusherChannel>,
) -> bool {
    if !pre.is_connected(id) {
        &&& r == Err::<Vec<ClientId>, DisconnectError>(DisconnectError::NotFound)
        &&& post == pre
        &&& hub_post == hub
    } else {
        &&& r matches Ok(targets) && handles(targets@) == omit(ids(pre.participants), id)
        &&& post == pre.with_participants(without_id(pre.participants, id))
        &&& hub_post == hub.remove(id)
    }
}

/// The outcome of sending `content` from `from` at `at` with the encoded
/// frame `payload`: a full history refuses it with nothing changed and
/// nothing handed to the hub; otherwise it is appended, the targets are every
/// connected handle but the sender's, and the hub hands `payload` to each
/// target that has a channel, in target order.
pub open spec fn send_outcome(
    pre: RoomState,
    hub: Map<Seq<char>, PusherChannel>,
    handed: Seq<(Seq<char>, Seq<char>)>,
    from: ClientId,
    content: MessageContent,
    payload: Seq<char>,
    at: Timestamp,
    r: Result<Vec<ClientId>, SendMessageError>,
    post: RoomState,
    handed_post: Seq<(Seq<char>, Seq<char>)>,
) -> bool {
    if pre.messages.len() >= pre.message_capacity {
        &&& r == Err::<Vec<ClientId>, SendMessageError>(SendMessageError::MessageCapacityExceeded)
        &&& post == pre
        &&& handed_post == handed
    } else {
        &&& r matches Ok(targets) && handles(targets@) == omit(ids(pre.participants), from@)
            && handed_post == handed + deliveries(hub, handles(targets@), payload)
        &&& post == pre.with_messages(
            pre.messages.push(ChatMessage { from, content, timestamp: at }),
        )
    }
}

/// The handles of `all` but `exclude`, order kept.
fn all_except(all: Vec<ClientId>, exclude: &ClientId) -> (r: Vec<ClientId>)
    ensures
        handles(r@) == omit(handles(all@), exclude@),
{
    let mut out: Vec<ClientId> = Vec::new();
    let mut i: usize = 0;
    while i < all.len()
        invariant
            i <= all@.len(),
            handles(out@) == omit(handles(all@.take(i as int)), exclude@),
        decreases all@.len() - i,
    {
        let ghost before = out@;
        proof {
            assert(handles(all@.take(i as int + 1)).drop_last() =~= handles(all@.take(i as int)));
            assert(handles(all@.take(i as int + 1)).last() == all@[i as int]@);
        }
        if !all[i].same_as(exclude) {
            out.push(all[i].clone());
            assert(handles(out@) =~= handles(before).push(all@[i as int]@));
        }
        i = i + 1;
    }
    assert(all@.take(all@.len() as int) =~= all@);
    out
}

/// Whether some element of `all` has handle `id`.
fn contains_id(all: &Vec<ClientId>, id: &ClientId) -> (r: bool)
    ensures
        r == handles(all@).contains(id@),
{
    let mut i: usize = 0;
    while i < all.len()
        invariant
            i <= all@.len(),
            forall|j: int| 0 <= j < i ==> #[trigger] all@[j]@ != id@,
        decreases all@.len() - i,
    {
        if all[i].same_as(id) {
            assert(handles(all@)[i as int] == id@);
            return true;
        }
        i = i + 1;
    }
    assert(!handles(all@).contains(id@)) by {
        if handles(all@).contains(id@) {
            let j = choose|j: int| 0 <= j < handles(all@).len() && handles(all@)[j] == id@;
            assert(all@[j]@ == id@);
        }
    }
    false
}

/// Admission of a new connection.
pub struct ConnectParticipantUseCase;

impl ConnectParticipantUseCase {
    pub fn new() -> (r: ConnectParticipantUseCase) {
        ConnectParticipantUseCase
    }

    /// Admits `client_id` at `connected_at`: duplicate check, then the store
    /// insert, then the hub registration, so that a refused attempt never
    /// reaches the hub.
    pub fn execute_at<R: RoomRepository, P: MessagePusher>(
        &self,
        repository: &mut R,
        message_pusher: &mut P,
        client_id: ClientId,
        sender: PusherChannel,
        connected_at: Timestamp,
    ) -> (r: Result<Timestamp, ConnectError>)
        requires
            old(repository).state().wf(),
            old(message_pusher).wf(),
        ensures
            final(repository).state().wf(),
            final(message_pusher).wf(),
            connect_outcome(
                old(repository).state(),
                old(message_pusher).channels(),
                client_id,
                sender,
                connected_at,
                r,
                final(repository).state(),
                final(message_pusher).channels(),
            ),
            final(message_pusher).handed() == old(message_pusher).handed(),
    {
        let connected = repository.get_all_connected_client_ids();
        if contains_id(&connected, &client_id) {
            return Err(ConnectError::DuplicateClientId(client_id.to_owned_string()));
        }
        match repository.add_participant(client_id.clone(), connected_at) {
            Ok(()) => {},
            Err(_) => {
                return Err(ConnectError::RoomCapacityExceeded);
            },
        }
        message_pusher.register_client(client_id, sender);
        Ok(connected_at)
    }

    /// Admits `client_id` at the current instant of the system clock.
    pub fn execute<R: RoomRepository, P: MessagePusher>(
        &self,
        repository: &mut R,
        message_pusher: &mut P,
        client_id: ClientId,
        sender: PusherChannel,
    ) -> (r: Result<Timestamp, ConnectError>)
        requires
            old(repository).state().wf(),
            old(message_pusher).wf(),
        ensures
            final(repository).state().wf(),
            final(message_pusher).wf(),
            exists|at: Timestamp|
                connect_outcome(
                    old(repository).state(),
                    old(message_pusher).channels(),
                    client_id,
                    sender,
                    at,
                    r,
                    final(repository).state(),
                    final(message_pusher).channels(),
                ),
            final(message_pusher).handed() == old(message_pusher).handed(),
    {
        let connected_at = Timestamp::new(get_jst_timestamp());
        self.execute_at(repository, message_pusher, client_id, sender, connected_at)
    }

    /// The connected participants, sorted by handle.
    pub fn build_participant_list<R: RoomRepository>(&self, repository: &R) -> (r: Vec<
        Participant,
    >)
        requires
            repository.state().wf(),
        ensures
            r@.len() == repository.state().participants.len(),
            sorted_by_handle(r@),
            forall|p: Participant| r@.contains(p) <==> repository.state().participants.contains(p),
    {
        let participants = repository.get_participants();
        sort_by_handle(&participants)
    }

    /// Who hears that `new_client_id` joined: everyone connected but itself.
    pub fn get_join_targets<R: RoomRepository>(&self, repository: &R, new_client_id: &ClientId) -> (r: Vec<
        ClientId,
    >)
        ensures
            handles(r@) == omit(ids(repository.state().participants), new_client_id@),
    {
        all_except(repository.get_all_connected_client_ids(), new_client_id)
    }

    /// Tells everyone connected but `new_client_id` that it joined: the hub
    /// hands `message` to each of them that has a channel, and to no one else.
    pub fn broadcast_participant_joined<R: RoomRepository, P: MessagePusher>(
        &self,
        repository: &R,
        message_pusher: &mut P,
        new_client_id: &ClientId,
        message: &str,
    ) -> (r: Result<(), String>)
        requires
            old(message_pusher).wf(),
        ensures
            final(message_pusher).wf(),
            final(message_pusher).channels() == old(message_pusher).channels(),
            final(message_pusher).handed() == old(message_pusher).handed() + deliveries(
                old(message_pusher).channels(),
                omit(ids(repository.state().participants), new_client_id@),
                message@,
            ),
            r is Ok,
    {
        let targets = self.get_join_targets(repository, new_client_id);
        match message_pusher.broadcast(targets, message) {
            Ok(()) => Ok(()),
            Err(_) => Err("broadcast failed".to_string()),
        }
    }
}

/// Departure of a connection.
pub struct DisconnectParticipantUseCase;

impl DisconnectParticipantUseCase {
    pub fn new() -> (r: DisconnectParticipantUseCase) {
        DisconnectParticipantUseCase
    }

    /// Takes `client_id` out of the room and the hub, and gives the handles
    /// that should hear that it left.
    pub fn execute<R: RoomRepository, P: MessagePusher>(
        &self,
        repository: &mut R,
        message_pusher: &mut P,
        client_id: ClientId,
    ) -> (r: Result<Vec<ClientId>, DisconnectError>)
        requires
            old(repository).state().wf(),
            old(message_pusher).wf(),
        ensures
            final(repository).state().wf(),
            final(message_pusher).wf(),
            disconnect_outcome(
                old(repository).state(),
                old(message_pusher).channels(),
                client_id@,
                r,
                final(repository).state(),
                final(message_pusher).channels(),
            ),
            final(message_pusher).handed() == old(message_pusher).handed(),
    {
        let connected = repository.get_all_connected_client_ids();
        if !contains_id(&connected, &client_id) {
            return Err(DisconnectError::NotFound);
        }
        let notify_targets = self.get_notify_targets(repository, &client_id);
        let _ = repository.remove_participant(&client_id);
        message_pusher.unregister_client(&client_id);
        Ok(notify_targets)
    }

    /// Everyone connected but `exclude_client_id`.
    pub fn get_notify_targets<R: RoomRepository>(
        &self,
        repository: &R,
        exclude_client_id: &ClientId,
    ) -> (r: Vec<ClientId>)
        ensures
            handles(r@) == omit(ids(repository.state().participants), exclude_client_id@),
    {
        all_except(repository.get_all_connected_client_ids(), exclude_client_id)
    }

    /// How many participants are still connected.
    pub fn count_remaining_participants<R: RoomRepository>(&self, repository: &R) -> (r: usize)
        ensures
            r == repository.state().participants.len(),
    {
        repository.count_connected_clients()
    }

    /// Tells `target_ids` that a participant left: the hub hands `message` to
    /// each of them that has a channel, in order, and to no one else.
    pub fn broadcast_participant_left<P: MessagePusher>(
        &self,
        message_pusher: &mut P,
        target_ids: Vec<ClientId>,
        message: &str,
    ) -> (r: Result<(), String>)
        requires
            old(message_pusher).wf(),
        ensures
            final(message_pusher).wf(),
            final(message_pusher).channels() == old(message_pusher).channels(),
            final(message_pusher).handed() == old(message_pusher).handed() + deliveries(
                old(message_pusher).channels(),
                handles(target_ids@),
                message@,
            ),
            r is Ok,
    {
        match message_pusher.broadcast(target_ids, message) {
            Ok(()) => Ok(()),
            Err(_) => Err("broadcast failed".to_string()),
        }
    }
}

/// Sending a chat message.
pub struct SendMessageUseCase;

impl SendMessageUseCase {
    pub fn new() -> (r: SendMessageUseCase) {
        SendMessageUseCase
    }

    /// Records the message at `timestamp`, then hands `json_message` to every
    /// connected handle but the sender's. A full history fails before any
    /// delivery is tried.
    pub fn execute_at<R: RoomRepository, P: MessagePusher>(
        &self,
        repository: &mut R,
        message_pusher: &mut P,
        from_client_id: ClientId,
        content: MessageContent,
        json_message: String,
        timestamp: Timestamp,
    ) -> (r: Result<Vec<ClientId>, SendMessageError>)
        requires
            old(repository).state().wf(),
            old(message_pusher).wf(),
        ensures
            final(repository).state().wf(),
            final(message_pusher).wf(),
            final(message_pusher).channels() == old(message_pusher).channels(),
            send_outcome(
                old(repository).state(),
                old(message_pusher).channels(),
                old(message_pusher).handed(),
                from_client_id,
                content,
                json_message@,
                timestamp,
                r,
                final(repository).state(),
                final(message_pusher).handed(),
            ),
    {
        let sender = from_client_id.clone();
        match repository.add_message(from_client_id, content, timestamp) {
            Ok(()) => {},
            Err(_) => {
                return Err(SendMessageError::MessageCapacityExceeded);
            },
        }
        let broadcast_targets = self.get_broadcast_targets(repository, &sender);
        let addressed = copy_ids(&broadcast_targets);
        match message_pusher.broadcast(broadcast_targets, json_message.as_str()) {
            Ok(()) => Ok(addressed),
            Err(e) => Err(SendMessageError::BroadcastFailed(describe_push_error(e))),
        }
    }

    /// Sends at the current instant of the system clock.
    pub fn execute<R: RoomRepository, P: MessagePusher>(
        &self,
        repository: &mut R,
        message_pusher: &mut P,
        from_client_id: ClientId,
        content: MessageContent,
        json_message: String,
    ) -> (r: Result<Vec<ClientId>, SendMessageError>)
        requires
            old(repository).state().wf(),
            old(message_pusher).wf(),
        ensures
            final(repository).state().wf(),
            final(message_pusher).wf(),
            final(message_pusher).channels() == old(message_pusher).channels(),
            exists|at: Timestamp|
                send_outcome(
                    old(repository).state(),
                    old(message_pusher).channels(),
                    old(message_pusher).handed(),
                    from_client_id,
                    content,
                    json_message@,
                    at,
                    r,
                    final(repository).state(),
                    final(message_pusher).handed(),
                ),
    {
        let timestamp = Timestamp::new(get_jst_timestamp());
        self.execute_at(repository, message_pusher, from_client_id, content, json_message, timestamp)
    }

    /// Everyone connected but `exclude_client_id`.
    pub fn get_broadcast_targets<R: RoomRepository>(
        &self,
        repository: &R,
        exclude_client_id: &ClientId,
    ) -> (r: Vec<ClientId>)
        ensures
            handles(r@) == omit(ids(repository.state().participants), exclude_client_id@),
    {
        all_except(repository.get_all_connected_client_ids(), exclude_client_id)
    }
}

fn describe_push_error(e: crate::pusher::MessagePushError) -> String {
    match e {
        crate::pusher::MessagePushError::ClientNotFound(s) => s,
        crate::pusher::MessagePushError::PushFailed(s) => s,
    }
}

/// A copy of `v`, element by element.
fn copy_ids(v: &Vec<ClientId>) -> (r: Vec<ClientId>)
    ensures
        r@ == v@,
{
    let mut out: Vec<ClientId> = Vec::new();
    let mut i: usize = 0;
    while i < v.len()
        invariant
            i <= v@.len(),
            out@ == v@.take(i as int),
        decreases v@.len() - i,
    {
        out.push(v[i].clone());
        i = i + 1;
        assert(out@ =~= v@.take(i as int));
    }
    assert(v@.take(v@.len() as int) =~= v@);
    out
}

} // verus!
