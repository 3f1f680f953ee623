//! The room aggregate: the connected participants, keyed by handle, and a
//! bounded, append-only message history.

use vstd::prelude::*;

use crate::domain::{ChatMessage, ClientId, Participant, RoomId, Timestamp};

verus! {

/// Participant capacity of a room made by `Room::new`.
pub const DEFAULT_PARTICIPANT_CAPACITY: usize = 100;

/// Message capacity of a room made by `Room::new`.
pub const DEFAULT_MESSAGE_CAPACITY: usize = 1000;

/// The handles of `ps`, in order.
pub open spec fn ids(ps: Seq<Participant>) -> Seq<Seq<char>> {
    ps.map_values(|p: Participant| p.id@)
}

/// The handles of a list of client ids, in order.
pub open spec fn handles(cs: Seq<ClientId>) -> Seq<Seq<char>> {
    cs.map_values(|c: ClientId| c@)
}

/// No handle occurs twice in `s`.
pub open spec fn unique(s: Seq<Seq<char>>) -> bool {
    forall|i: int, j: int| 0 <= i < s.len() && 0 <= j < s.len() && i != j ==> s[i] != s[j]
}

/// `s` with every occurrence of `k` taken out, order kept.
pub open spec fn omit(s: Seq<Seq<char>>, k: Seq<char>) -> Seq<Seq<char>>
    decreases s.len(),
{
    if s.len() == 0 {
        s
    } else {
        let rest = omit(s.drop_last(), k);
        if s.last() == k {
            rest
        } else {
            rest.push(s.last())
        }
    }
}

/// `ps` without the participant whose handle is `k`, order kept.
pub open spec fn without_id(ps: Seq<Participant>, k: Seq<char>) -> Seq<Participant>
    decreases ps.len(),
{
    if ps.len() == 0 {
        ps
    } else {
        let rest = without_id(ps.drop_last(), k);
        if ps.last().id@ == k {
            rest
        } else {
            rest.push(ps.last())
        }
    }
}

/// What a room holds, as plain values.
pub ghost struct RoomState {
    pub id: Seq<char>,
    pub created_at: Timestamp,
    pub participants: Seq<Participant>,
    pub messages: Seq<ChatMessage>,
    pub participant_capacity: nat,
    pub message_capacity: nat,
}

impl RoomState {
    /// Handles are unique and both capacities hold.
    pub open spec fn wf(self) -> bool {
        &&& unique(ids(self.participants))
        &&& self.participants.len() <= self.participant_capacity
        &&& self.messages.len() <= self.message_capacity
    }

    pub open spec fn is_connected(self, k: Seq<char>) -> bool {
        ids(self.participants).contains(k)
    }

    /// The same room with other participants.
    pub open spec fn with_participants(self, ps: Seq<Participant>) -> RoomState {
        RoomState { participants: ps, ..self }
    }

    /// The same room with another history.
    pub open spec fn with_messages(self, ms: Seq<ChatMessage>) -> RoomState {
        RoomState { messages: ms, ..self }
    }
}

pub proof fn lemma_omit_absent(s: Seq<Seq<char>>, k: Seq<char>)
    requires
        !s.contains(k),
    ensures
        omit(s, k) == s,
    decreases s.len(),
{
    if s.len() > 0 {
        assert(!s.drop_last().contains(k)) by {
            if s.drop_last().contains(k) {
                let i = choose|i: int| 0 <= i < s.drop_last().len() && s.drop_last()[i] == k;
                assert(s[i] == k);
            }
        }
        lemma_omit_absent(s.drop_last(), k);
        assert(s.last() != k) by {
            assert(s[s.len() - 1] == s.last());
        }
        assert(s.drop_last().push(s.last()) =~= s);
    }
}

/// Taking a present handle out of a list without repeats shortens it by one.
pub proof fn lemma_omit_len(s: Seq<Seq<char>>, k: Seq<char>)
    requires
        unique(s),
        s.contains(k),
    ensures
        omit(s, k).len() == s.len() - 1,
    decreases s.len(),
{
    let d = s.drop_last();
    assert(unique(d));
    if s.last() == k {
        assert(!d.contains(k)) by {
            if d.contains(k) {
                let i = choose|i: int| 0 <= i < d.len() && d[i] == k;
                assert(s[i] == s[s.len() - 1]);
            }
        }
        lemma_omit_absent(d, k);
    } else {
        let i = choose|i: int| 0 <= i < s.len() && s[i] == k;
        assert(i != s.len() - 1);
        assert(d[i] == k);
        lemma_omit_len(d, k);
    }
}

/// What `omit` keeps: every element but `k`.
pub proof fn lemma_omit_contains(s: Seq<Seq<char>>, k: Seq<char>)
    ensures
        forall|x: Seq<char>| omit(s, k).contains(x) <==> (s.contains(x) && x != k),
    decreases s.len(),
{
    if s.len() > 0 {
        let d = s.drop_last();
        lemma_omit_contains(d, k);
        assert forall|x: Seq<char>| omit(s, k).contains(x) <==> (s.contains(x) && x != k) by {
            if s.contains(x) && x != k {
                let i = choose|i: int| 0 <= i < s.len() && s[i] == x;
                if i < s.len() - 1 {
                    assert(d[i] == x);
                    assert(d.contains(x));
                    assert(omit(d, k).contains(x));
                    if s.last() != k {
                        let j = choose|j: int| 0 <= j < omit(d, k).len() && omit(d, k)[j] == x;
                        assert(omit(s, k)[j] == x);
                    }
                } else {
                    assert(omit(s, k)[omit(s, k).len() - 1] == x);
                }
            }
            if omit(s, k).contains(x) {
                let j = choose|j: int| 0 <= j < omit(s, k).len() && omit(s, k)[j] == x;
                if s.last() != k && j == omit(s, k).len() - 1 {
                    assert(s[s.len() - 1] == x);
                } else {
                    assert(omit(d, k)[j] == x);
                    assert(d.contains(x));
                    let i = choose|i: int| 0 <= i < d.len() && d[i] == x;
                    assert(s[i] == x);
                }
            }
        }
    }
}

/// Taking a handle out of a list without repeats leaves one without repeats.
pub proof fn lemma_omit_unique(s: Seq<Seq<char>>, k: Seq<char>)
    requires
        unique(s),
    ensures
        unique(omit(s, k)),
    decreases s.len(),
{
    if s.len() > 0 {
        let d = s.drop_last();
        assert(unique(d));
        lemma_omit_unique(d, k);
        if s.last() != k {
            lemma_omit_contains(d, k);
            assert(!omit(d, k).contains(s.last())) by {
                if d.contains(s.last()) {
                    let i = choose|i: int| 0 <= i < d.len() && d[i] == s.last();
                    assert(s[i] == s[s.len() - 1]);
                }
            }
            let o = omit(s, k);
            assert forall|i: int, j: int| 0 <= i < o.len() && 0 <= j < o.len() && i != j implies o[i]
                != o[j] by {
                if i == o.len() - 1 {
                    assert(o[j] == omit(d, k)[j]);
                } else if j == o.len() - 1 {
                    assert(o[i] == omit(d, k)[i]);
                }
            }
        }
    }
}

/// The handles left after taking a participant out are the handles with it omitted.
pub proof fn lemma_ids_without(ps: Seq<Participant>, k: Seq<char>)
    ensures
        ids(without_id(ps, k)) == omit(ids(ps), k),
    decreases ps.len(),
{
    if ps.len() > 0 {
        lemma_ids_without(ps.drop_last(), k);
        assert(ids(ps).drop_last() =~= ids(ps.drop_last()));
        assert(ids(ps).last() == ps.last().id@);
        if ps.last().id@ != k {
            assert(ids(without_id(ps, k)) =~= ids(without_id(ps.drop_last(), k)).push(ps.last().id@));
        }
    }
}

/// How a room changes when `p` is offered as a participant, and whether it
/// accepts: a present handle keeps its place and gets the new record, a new
/// handle is appended while there is room, and a full room stays as it was.
pub open spec fn admitted(pre: RoomState, p: Participant, post: RoomState, ok: bool) -> bool {
    &&& post == pre.with_participants(post.participants)
    &&& pre.is_connected(p.id@) ==> ok && exists|i: int|
        0 <= i < pre.participants.len() && pre.participants[i].id@ == p.id@ && post.participants
            == pre.participants.update(i, p)
    &&& !pre.is_connected(p.id@) && pre.participants.len() < pre.participant_capacity ==> ok
        && post.participants == pre.participants.push(p)
    &&& !pre.is_connected(p.id@) && pre.participants.len() >= pre.participant_capacity ==> !ok
        && post == pre
}

/// How the history changes when `m` is offered, and whether it is accepted:
/// appended while there is room, refused with nothing changed when full.
pub open spec fn appended(pre: RoomState, m: ChatMessage, post: RoomState, ok: bool) -> bool {
    &&& pre.messages.len() < pre.message_capacity ==> ok && post == pre.with_messages(
        pre.messages.push(m),
    )
    &&& pre.messages.len() >= pre.message_capacity ==> !ok && post == pre
}

/// Why the room refused an insertion.
#[derive(Debug, Clone, Copy, PartialEq, Eq, Structural)]
pub enum RoomError {
    ParticipantCapacityExceeded,
    MessageCapacityExceeded,
}

/// Taking out a participant never lengthens the list.
pub proof fn lemma_without_len(ps: Seq<Participant>, k: Seq<char>)
    ensures
        without_id(ps, k).len() <= ps.len(),
        ids(without_id(ps, k)).len() == without_id(ps, k).len(),
    decreases ps.len(),
{
    if ps.len() > 0 {
        lemma_without_len(ps.drop_last(), k);
    }
}

/// A room: participants keyed by handle, and a bounded history.
pub struct Room {
    id: RoomId,
    created_at: Timestamp,
    participants: Vec<Participant>,
    messages: Vec<ChatMessage>,
    participant_capacity: usize,
    message_capacity: usize,
}

impl View for Room {
    type V = RoomState;

    closed spec fn view(&self) -> RoomState {
        RoomState {
            id: self.id@,
            created_at: self.created_at,
            participants: self.participants@,
            messages: self.messages@,
            participant_capacity: self.participant_capacity as nat,
            message_capacity: self.message_capacity as nat,
        }
    }
}

impl Room {
    pub open spec fn wf(&self) -> bool {
        self@.wf()
    }

    /// An empty room with the default capacities.
    pub fn new(id: RoomId, created_at: Timestamp) -> (r: Room)
        ensures
            r.wf(),
            r@.id == id@,
            r@.created_at == created_at,
            r@.participants.len() == 0,
            r@.messages.len() == 0,
            r@.participant_capacity == DEFAULT_PARTICIPANT_CAPACITY,
            r@.message_capacity == DEFAULT_MESSAGE_CAPACITY,
    {
        Room::with_capacity(id, created_at, DEFAULT_PARTICIPANT_CAPACITY, DEFAULT_MESSAGE_CAPACITY)
    }

    /// An empty room with the given capacities.
    pub fn with_capacity(
        id: RoomId,
        created_at: Timestamp,
        participant_capacity: usize,
        message_capacity: usize,
    ) -> (r: Room)
        ensures
            r.wf(),
            r@.id == id@,
            r@.created_at == created_at,
            r@.participants.len() == 0,
            r@.messages.len() == 0,
            r@.participant_capacity == participant_capacity,
            r@.message_capacity == message_capacity,
    {
        let r = Room {
            id,
            created_at,
            participants: Vec::new(),
            messages: Vec::new(),
            participant_capacity,
            message_capacity,
        };
        proof {
            assert(ids(r.participants@) =~= Seq::<Seq<char>>::empty());
        }
        r
    }

    /// Records `p` as connected. A handle that is already present keeps its
    /// place and gets the new record; a new handle is appended unless the room
    /// is full.
    pub fn add_participant(&mut self, p: Participant) -> (r: Result<(), RoomError>)
        requires
            old(self).wf(),
        ensures
            final(self).wf(),
            admitted(old(self)@, p, final(self)@, r is Ok),
            r is Err ==> r == Err::<(), RoomError>(RoomError::ParticipantCapacityExceeded),
    {
        let ghost old_ps = self.participants@;
        let mut i: usize = 0;
        while i < self.participants.len()
            invariant
                old(self).wf(),
                self@ == old(self)@,
                self.participants@ == old_ps,
                i <= old_ps.len(),
                forall|j: int| 0 <= j < i ==> old_ps[j].id@ != p.id@,
            decreases old_ps.len() - i,
        {
            if self.participants[i].id.same_as(&p.id) {
                self.participants.set(i, p);
                proof {
                    let n = self.participants@;
                    assert(old_ps[i as int].id@ == p.id@);
                    assert(ids(old_ps)[i as int] == p.id@);
                    assert(ids(n) =~= ids(old_ps));
                    assert(ids(old_ps).contains(p.id@));
                }
                return Ok(());
            }
            i = i + 1;
        }
        proof {
            assert(!ids(old_ps).contains(p.id@)) by {
                if ids(old_ps).contains(p.id@) {
                    let j = choose|j: int| 0 <= j < ids(old_ps).len() && ids(old_ps)[j] == p.id@;
                    assert(old_ps[j].id@ == p.id@);
                }
            }
        }
        if self.participants.len() < self.participant_capacity {
            self.participants.push(p);
            proof {
                assert(ids(self.participants@) =~= ids(old_ps).push(p.id@));
            }
            Ok(())
        } else {
            Err(RoomError::ParticipantCapacityExceeded)
        }
    }

    /// Takes out the participant with handle `id`; nothing happens when absent.
    pub fn remove_participant(&mut self, id: &ClientId)
        requires
            old(self).wf(),
        ensures
            final(self).wf(),
            final(self)@ == old(self)@.with_participants(
                without_id(old(self)@.participants, id@),
            ),
    {
        let ghost old_ps = self.participants@;
        let mut kept: Vec<Participant> = Vec::new();
        let mut i: usize = 0;
        while i < self.participants.len()
            invariant
                self@ == old(self)@,
                self.participants@ == old_ps,
                i <= old_ps.len(),
                kept@ == without_id(old_ps.take(i as int), id@),
            decreases old_ps.len() - i,
        {
            let ghost pre = old_ps.take(i as int);
            assert(old_ps.take(i as int + 1).drop_last() =~= pre);
            if !self.participants[i].id.same_as(id) {
                kept.push(self.participants[i].clone());
            }
            i = i + 1;
        }
        assert(old_ps.take(old_ps.len() as int) =~= old_ps);
        proof {
            lemma_ids_without(old_ps, id@);
            lemma_omit_unique(ids(old_ps), id@);
            lemma_without_len(old_ps, id@);
        }
        self.participants = kept;
    }

    /// Appends `m` to the history unless it is full.
    pub fn add_message(&mut self, m: ChatMessage) -> (r: Result<(), RoomError>)
        requires
            old(self).wf(),
        ensures
            final(self).wf(),
            appended(old(self)@, m, final(self)@, r is Ok),
            r is Err ==> r == Err::<(), RoomError>(RoomError::MessageCapacityExceeded),
    {
        if self.messages.len() < self.message_capacity {
            self.messages.push(m);
            Ok(())
        } else {
            Err(RoomError::MessageCapacityExceeded)
        }
    }

    /// The handles of the connected participants, in order.
    pub fn connected_ids(&self) -> (r: Vec<ClientId>)
        ensures
            handles(r@) == ids(self@.participants),
    {
        let mut out: Vec<ClientId> = Vec::new();
        let mut i: usize = 0;
        while i < self.participants.len()
            invariant
                i <= self.participants@.len(),
                handles(out@) =~= ids(self.participants@.take(i as int)),
            decreases self.participants@.len() - i,
        {
            let c = self.participants[i].id.clone();
            assert(c@ == self.participants@[i as int].id@);
            let ghost before = out@;
            out.push(c);
            proof {
                assert(handles(out@) =~= handles(before).push(c@));
                assert(ids(self.participants@.take(i as int + 1)) =~= ids(
                    self.participants@.take(i as int),
                ).push(c@));
            }
            i = i + 1;
        }
        assert(self.participants@.take(self.participants@.len() as int) =~= self.participants@);
        out
    }

    pub fn participant_count(&self) -> (r: usize)
        ensures
            r == self@.participants.len(),
    {
        self.participants.len()
    }

    pub fn id(&self) -> (r: &RoomId)
        ensures
            r@ == self@.id,
    {
        &self.id
    }

    pub fn created_at(&self) -> (r: Timestamp)
        ensures
            r == self@.created_at,
    {
        self.created_at
    }

    pub fn participant_capacity(&self) -> (r: usize)
        ensures
            r == self@.participant_capacity,
    {
        self.participant_capacity
    }

    pub fn message_capacity(&self) -> (r: usize)
        ensures
            r == self@.message_capacity,
    {
        self.message_capacity
    }

    pub fn participants(&self) -> (r: &Vec<Participant>)
        ensures
            r@ == self@.participants,
    {
        &self.participants
    }

    pub fn messages(&self) -> (r: &Vec<ChatMessage>)
        ensures
            r@ == self@.messages,
    {
        &self.messages
    }
}

/// A copy of `v`, element by element.
pub fn copy_participants(v: &Vec<Participant>) -> (r: Vec<Participant>)
    ensures
        r@ == v@,
{
    let mut out: Vec<Participant> = Vec::new();
    let mut i: usize = 0;
    while i < v.len()
        invariant
            i <= v@.len(),
            out@ == v@.take(i as int),
        decreases v@.len() - i,
    {
        out.push(v[i].clone());
        i = i + 1;
        assert(out@ =~= v@.take(i as int));
    }
    assert(v@.take(v@.len() as int) =~= v@);
    out
}

/// A copy of `v`, element by element.
pub fn copy_messages(v: &Vec<ChatMessage>) -> (r: Vec<ChatMessage>)
    ensures
        r@ == v@,
{
    let mut out: Vec<ChatMessage> = Vec::new();
    let mut i: usize = 0;
    while i < v.len()
        invariant
            i <= v@.len(),
            out@ == v@.take(i as int),
        decreases v@.len() - i,
    {
        out.push(v[i].clone());
        i = i + 1;
        assert(out@ =~= v@.take(i as int));
    }
    assert(v@.take(v@.len() as int) =~= v@);
    out
}

impl Clone for Room {
    fn clone(&self) -> (r: Self)
        ensures
            r@ == self@,
    {
        Room {
            id: self.id.clone(),
            created_at: self.created_at,
            participants: copy_participants(&self.participants),
            messages: copy_messages(&self.messages),
            participant_capacity: self.participant_capacity,
            message_capacity: self.message_capacity,
        }
    }
}

} // verus!
