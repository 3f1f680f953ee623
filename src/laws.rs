//! Properties of the room operations that span several calls or hold for
//! every input, proved from the operations' contracts.

use vstd::prelude::*;

use crate::domain::{ClientId, MessageContent, Participant, Timestamp};
use crate::ordering::{lemma_lex_irreflexive, lemma_lex_transitive, sorted_by_handle};
use crate::pusher::{deliveries, lemma_deliveries_contains, PusherChannel};
use crate::room::{
    handles, ids, lemma_ids_without, lemma_omit_contains, lemma_omit_len,
    lemma_without_len, omit, unique, RoomState,
};
use crate::usecase::{
    connect_outcome, disconnect_outcome, send_outcome, ConnectError, DisconnectError,
    SendMessageError,
};

verus! {

/// Admissions of pairwise distinct handles into an empty room, no more of them
/// than its capacity, all succeed, and afterwards the room holds exactly as
/// many participants as there were admissions.
pub proof fn law_distinct_admissions_succeed(
    states: Seq<RoomState>,
    hubs: Seq<Map<Seq<char>, PusherChannel>>,
    clients: Seq<ClientId>,
    senders: Seq<PusherChannel>,
    times: Seq<Timestamp>,
    results: Seq<Result<Timestamp, ConnectError>>,
)
    requires
        states.len() == clients.len() + 1,
        hubs.len() == clients.len() + 1,
        senders.len() == clients.len(),
        times.len() == clients.len(),
        results.len() == clients.len(),
        states[0].participants.len() == 0,
        unique(handles(clients)),
        clients.len() <= states[0].participant_capacity,
        forall|k: int|
            0 <= k < clients.len() ==> connect_outcome(
                #[trigger] states[k],
                hubs[k],
                clients[k],
                senders[k],
                times[k],
                results[k],
                states[k + 1],
                hubs[k + 1],
            ),
    ensures
        forall|k: int| 0 <= k < clients.len() ==> #[trigger] results[k] is Ok,
        states[clients.len() as int].participants.len() == clients.len(),
{
    lemma_admissions_prefix(states, hubs, clients, senders, times, results, clients.len() as int);
    assert(ids(states[clients.len() as int].participants).len() == clients.len());
}

proof fn lemma_admissions_prefix(
    states: Seq<RoomState>,
    hubs: Seq<Map<Seq<char>, PusherChannel>>,
    clients: Seq<ClientId>,
    senders: Seq<PusherChannel>,
    times: Seq<Timestamp>,
    results: Seq<Result<Timestamp, ConnectError>>,
    n: int,
)
    requires
        0 <= n <= clients.len(),
        states.len() == clients.len() + 1,
        hubs.len() == clients.len() + 1,
        senders.len() == clients.len(),
        times.len() == clients.len(),
        results.len() == clients.len(),
        states[0].participants.len() == 0,
        unique(handles(clients)),
        clients.len() <= states[0].participant_capacity,
        forall|k: int|
            0 <= k < clients.len() ==> connect_outcome(
                #[trigger] states[k],
                hubs[k],
                clients[k],
                senders[k],
                times[k],
                results[k],
                states[k + 1],
                hubs[k + 1],
            ),
    ensures
        forall|k: int| 0 <= k < n ==> #[trigger] results[k] is Ok,
        ids(states[n].participants) == handles(clients.take(n)),
        states[n].participant_capacity == states[0].participant_capacity,
    decreases n,
{
    if n == 0 {
        assert(ids(states[0].participants) =~= handles(clients.take(0)));
    } else {
        lemma_admissions_prefix(states, hubs, clients, senders, times, results, n - 1);
        let pre = states[n - 1];
        let c = clients[n - 1];
        assert(connect_outcome(
            states[n - 1],
            hubs[n - 1],
            clients[n - 1],
            senders[n - 1],
            times[n - 1],
            results[n - 1],
            states[n],
            hubs[n],
        ));
        assert(!pre.is_connected(c@)) by {
            if pre.is_connected(c@) {
                let i = choose|i: int|
                    0 <= i < ids(pre.participants).len() && ids(pre.participants)[i] == c@;
                assert(handles(clients.take(n - 1))[i] == c@);
                assert(handles(clients)[i] == handles(clients)[n - 1]);
            }
        }
        assert(ids(pre.participants).len() == n - 1);
        assert(pre.participants.len() < pre.participant_capacity);
        let p = Participant { id: c, connected_at: times[n - 1] };
        assert(states[n].participants == pre.participants.push(p));
        assert(ids(pre.participants.push(p)) =~= ids(pre.participants).push(c@));
        assert(handles(clients.take(n)) =~= handles(clients.take(n - 1)).push(c@));
    }
}

/// A handle that was just admitted is refused as a duplicate when admitted
/// again, and the count of connected participants stays the same.
pub proof fn law_readmission_is_duplicate(
    s0: RoomState,
    h0: Map<Seq<char>, PusherChannel>,
    first: ClientId,
    second: ClientId,
    sender1: PusherChannel,
    sender2: PusherChannel,
    t1: Timestamp,
    t2: Timestamp,
    r1: Result<Timestamp, ConnectError>,
    s1: RoomState,
    h1: Map<Seq<char>, PusherChannel>,
    r2: Result<Timestamp, ConnectError>,
    s2: RoomState,
    h2: Map<Seq<char>, PusherChannel>,
)
    requires
        first@ == second@,
        connect_outcome(s0, h0, first, sender1, t1, r1, s1, h1),
        r1 is Ok,
        connect_outcome(s1, h1, second, sender2, t2, r2, s2, h2),
    ensures
        r2 matches Err(ConnectError::DuplicateClientId(s)) && s@ == second@,
        s2.participants.len() == s1.participants.len(),
{
    let p = Participant { id: first, connected_at: t1 };
    assert(ids(s1.participants)[s1.participants.len() - 1] == second@) by {
        assert(s1.participants[s1.participants.len() - 1] == p);
    }
}

/// Admitting a new handle into a full room is refused as over capacity, and
/// the room keeps exactly its capacity of participants.
pub proof fn law_full_room_refuses(
    s0: RoomState,
    h0: Map<Seq<char>, PusherChannel>,
    client: ClientId,
    sender: PusherChannel,
    at: Timestamp,
    r: Result<Timestamp, ConnectError>,
    s1: RoomState,
    h1: Map<Seq<char>, PusherChannel>,
)
    requires
        s0.participants.len() == s0.participant_capacity,
        !s0.is_connected(client@),
        connect_outcome(s0, h0, client, sender, at, r, s1, h1),
    ensures
        r == Err::<Timestamp, ConnectError>(ConnectError::RoomCapacityExceeded),
        s1.participants.len() == s1.participant_capacity,
{
}

/// The departure of a connected handle notifies exactly all the other
/// connected handles and lowers the count by one.
pub proof fn law_departure_notifies_others(
    s0: RoomState,
    h0: Map<Seq<char>, PusherChannel>,
    client: Seq<char>,
    r: Result<Vec<ClientId>, DisconnectError>,
    s1: RoomState,
    h1: Map<Seq<char>, PusherChannel>,
)
    requires
        s0.wf(),
        s0.is_connected(client),
        disconnect_outcome(s0, h0, client, r, s1, h1),
    ensures
        r is Ok,
        forall|x: Seq<char>|
            handles(r->Ok_0@).contains(x) <==> (s0.is_connected(x) && x != client),
        handles(r->Ok_0@).len() == s0.participants.len() - 1,
        s1.participants.len() == s0.participants.len() - 1,
{
    lemma_omit_contains(ids(s0.participants), client);
    lemma_omit_len(ids(s0.participants), client);
    lemma_ids_without(s0.participants, client);
    lemma_without_len(s0.participants, client);
}

/// The departure of the only participant notifies no one.
pub proof fn law_last_departure_notifies_no_one(
    s0: RoomState,
    h0: Map<Seq<char>, PusherChannel>,
    client: Seq<char>,
    r: Result<Vec<ClientId>, DisconnectError>,
    s1: RoomState,
    h1: Map<Seq<char>, PusherChannel>,
)
    requires
        s0.wf(),
        s0.participants.len() == 1,
        s0.is_connected(client),
        disconnect_outcome(s0, h0, client, r, s1, h1),
    ensures
        r matches Ok(targets) && targets@.len() == 0,
        s1.participants.len() == 0,
{
    law_departure_notifies_others(s0, h0, client, r, s1, h1);
}

/// The departure of a handle that is not connected is refused and changes
/// nothing.
pub proof fn law_unknown_departure_refused(
    s0: RoomState,
    h0: Map<Seq<char>, PusherChannel>,
    client: Seq<char>,
    r: Result<Vec<ClientId>, DisconnectError>,
    s1: RoomState,
    h1: Map<Seq<char>, PusherChannel>,
)
    requires
        !s0.is_connected(client),
        disconnect_outcome(s0, h0, client, r, s1, h1),
    ensures
        r == Err::<Vec<ClientId>, DisconnectError>(DisconnectError::NotFound),
        s1.participants.len() == s0.participants.len(),
{
}

/// Sending within capacity appends exactly one entry with the sender and the
/// content, and addresses every connected handle but the sender's; the frame
/// is handed to exactly those of them that have a channel. With the sender
/// alone in the room no one is addressed.
pub proof fn law_send_appends_and_addresses_others(
    s0: RoomState,
    hub: Map<Seq<char>, PusherChannel>,
    handed0: Seq<(Seq<char>, Seq<char>)>,
    from: ClientId,
    content: MessageContent,
    payload: Seq<char>,
    at: Timestamp,
    r: Result<Vec<ClientId>, SendMessageError>,
    s1: RoomState,
    handed1: Seq<(Seq<char>, Seq<char>)>,
)
    requires
        s0.messages.len() < s0.message_capacity,
        send_outcome(s0, hub, handed0, from, content, payload, at, r, s1, handed1),
    ensures
        handed1.subrange(0, handed0.len() as int) == handed0,
        forall|x: Seq<char>, q: Seq<char>|
            handed1.subrange(handed0.len() as int, handed1.len() as int).contains((x, q)) <==> (
            s0.is_connected(x) && x != from@ && hub.contains_key(x) && q == payload),
        r is Ok,
        s1.messages.len() == s0.messages.len() + 1,
        s1.messages.last().from@ == from@,
        s1.messages.last().content@ == content@,
        s1.messages.drop_last() == s0.messages,
        forall|x: Seq<char>| handles(r->Ok_0@).contains(x) <==> (s0.is_connected(x) && x != from@),
        ids(s0.participants) == seq![from@] ==> r->Ok_0@.len() == 0,
{
    lemma_omit_contains(ids(s0.participants), from@);
    let fresh = deliveries(hub, handles(r->Ok_0@), payload);
    lemma_deliveries_contains(hub, handles(r->Ok_0@), payload);
    assert(handed1.subrange(0, handed0.len() as int) =~= handed0);
    assert(handed1.subrange(handed0.len() as int, handed1.len() as int) =~= fresh);
    assert(s1.messages.drop_last() =~= s0.messages);
    if ids(s0.participants) == seq![from@] {
        let e = seq![from@].drop_last();
        assert(e =~= Seq::<Seq<char>>::empty());
        assert(omit(e, from@) == e);
        assert(seq![from@].last() == from@);
        assert(omit(seq![from@], from@) == e);
    }
}

/// The join notice of `newcomer` is handed to every other connected handle
/// that has a channel, and to no one else: never to the newcomer itself.
pub proof fn law_join_notice_reaches_the_others(
    s: RoomState,
    hub: Map<Seq<char>, PusherChannel>,
    newcomer: Seq<char>,
    message: Seq<char>,
    handed0: Seq<(Seq<char>, Seq<char>)>,
    handed1: Seq<(Seq<char>, Seq<char>)>,
)
    requires
        handed1 == handed0 + deliveries(hub, omit(ids(s.participants), newcomer), message),
    ensures
        forall|x: Seq<char>, q: Seq<char>|
            handed1.subrange(handed0.len() as int, handed1.len() as int).contains((x, q)) <==> (
            s.is_connected(x) && x != newcomer && hub.contains_key(x) && q == message),
{
    lemma_omit_contains(ids(s.participants), newcomer);
    lemma_deliveries_contains(hub, omit(ids(s.participants), newcomer), message);
    assert(handed1.subrange(handed0.len() as int, handed1.len() as int) =~= deliveries(
        hub,
        omit(ids(s.participants), newcomer),
        message,
    ));
}

/// After a departure, the leave notice sent to the targets it returned is
/// handed to every handle connected just before the removal, other than the
/// one that left, that still has a channel; it reaches no one else.
pub proof fn law_leave_notice_reaches_the_others(
    s0: RoomState,
    h0: Map<Seq<char>, PusherChannel>,
    client: Seq<char>,
    r: Result<Vec<ClientId>, DisconnectError>,
    s1: RoomState,
    h1: Map<Seq<char>, PusherChannel>,
    message: Seq<char>,
    handed0: Seq<(Seq<char>, Seq<char>)>,
    handed1: Seq<(Seq<char>, Seq<char>)>,
)
    requires
        disconnect_outcome(s0, h0, client, r, s1, h1),
        r is Ok,
        handed1 == handed0 + deliveries(h1, handles(r->Ok_0@), message),
    ensures
        forall|x: Seq<char>, q: Seq<char>|
            handed1.subrange(handed0.len() as int, handed1.len() as int).contains((x, q)) <==> (
            s0.is_connected(x) && x != client && h0.contains_key(x) && q == message),
{
    lemma_omit_contains(ids(s0.participants), client);
    lemma_deliveries_contains(h1, handles(r->Ok_0@), message);
    assert(handed1.subrange(handed0.len() as int, handed1.len() as int) =~= deliveries(
        h1,
        handles(r->Ok_0@),
        message,
    ));
}

/// Sending into a full history is refused, hands nothing to the hub, and
/// leaves the history at its capacity.
pub proof fn law_full_history_refuses(
    s0: RoomState,
    hub: Map<Seq<char>, PusherChannel>,
    handed0: Seq<(Seq<char>, Seq<char>)>,
    from: ClientId,
    content: MessageContent,
    payload: Seq<char>,
    at: Timestamp,
    r: Result<Vec<ClientId>, SendMessageError>,
    s1: RoomState,
    handed1: Seq<(Seq<char>, Seq<char>)>,
)
    requires
        s0.messages.len() == s0.message_capacity,
        send_outcome(s0, hub, handed0, from, content, payload, at, r, s1, handed1),
    ensures
        r == Err::<Vec<ClientId>, SendMessageError>(SendMessageError::MessageCapacityExceeded),
        s1.messages.len() == s0.message_capacity,
        handed1 == handed0,
{
}

/// Two listings sorted by handle that hold the same participants are equal,
/// whatever order the participants were admitted in.
pub proof fn law_sorted_listing_is_unique(a: Seq<Participant>, b: Seq<Participant>)
    requires
        sorted_by_handle(a),
        sorted_by_handle(b),
        a.len() == b.len(),
        forall|p: Participant| a.contains(p) <==> b.contains(p),
    ensures
        a == b,
{
    if a.len() > 0 {
        lemma_sorted_agree_upto(a, b, a.len() - 1);
    }
    assert(a =~= b);
}

proof fn lemma_sorted_agree_upto(a: Seq<Participant>, b: Seq<Participant>, i: int)
    requires
        sorted_by_handle(a),
        sorted_by_handle(b),
        a.len() == b.len(),
        0 <= i < a.len(),
        forall|p: Participant| a.contains(p) <==> b.contains(p),
    ensures
        forall|k: int| 0 <= k <= i ==> a[k] == b[k],
    decreases i,
{
    if i > 0 {
        lemma_sorted_agree_upto(a, b, i - 1);
    }
    assert(a.contains(a[i]));
    let j = choose|j: int| 0 <= j < b.len() && b[j] == a[i];
    assert(b.contains(b[i]));
    let m = choose|m: int| 0 <= m < a.len() && a[m] == b[i];
    if j < i {
        assert(a[j] == b[j]);
        assert(lex_lt_at(a, j, i));
        lemma_lex_irreflexive(a[i].id@);
    }
    if m < i {
        assert(a[m] == b[m]);
        assert(lex_lt_at(b, m, i));
        lemma_lex_irreflexive(b[i].id@);
    }
    if j > i && m > i {
        // b[i] < b[j] == a[i] < a[m] == b[i]
        assert(lex_lt_at(b, i, j));
        assert(lex_lt_at(a, i, m));
        lemma_lex_transitive(b[i].id@, a[i].id@, b[i].id@);
        lemma_lex_irreflexive(b[i].id@);
    }
    if j > i && m == i {
        assert(a[i] == b[i]);
    }
}

spec fn lex_lt_at(s: Seq<Participant>, i: int, j: int) -> bool {
    crate::ordering::lex_lt(s[i].id@, s[j].id@)
}

} // verus!
