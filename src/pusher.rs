//! The broadcast hub: which live delivery channel reaches which handle, with
//! single-target push and best-effort fan-out.

use vstd::prelude::*;

use crate::domain::ClientId;

verus! {

/// tokio's `mpsc::UnboundedSender`, carried through the hub as an opaque value.
#[verifier::external_type_specification]
#[verifier::external_body]
#[verifier::reject_recursive_types(T)]
pub struct ExUnboundedSender<T>(tokio::sync::mpsc::UnboundedSender<T>);

/// The outbound delivery handle of one connection.
pub type PusherChannel = tokio::sync::mpsc::UnboundedSender<String>;

/// Relies on tokio's `UnboundedSender::send`: the payload is queued unless the
/// receiving half has been closed or dropped, which gives an error. Which of
/// the two happens depends on the receiver, so nothing is promised.
#[verifier::external_body]
fn deliver(channel: &PusherChannel, payload: String) -> (r: Result<(), String>) {
    match channel.send(payload) {
        Ok(()) => Ok(()),
        Err(e) => Err(e.to_string()),
    }
}

/// Why a push failed.
#[derive(Debug, Clone, PartialEq, Eq)]
pub enum MessagePushError {
    /// No channel is registered for this handle.
    ClientNotFound(String),
    /// The channel is registered but its receiving half is gone.
    PushFailed(String),
}

/// The payloads handed to the channels of `targets`, in target order: one
/// `(handle, payload)` entry for each target that has a channel in `chs`.
pub open spec fn deliveries(
    chs: Map<Seq<char>, PusherChannel>,
    targets: Seq<Seq<char>>,
    payload: Seq<char>,
) -> Seq<(Seq<char>, Seq<char>)>
    decreases targets.len(),
{
    if targets.len() == 0 {
        Seq::empty()
    } else {
        let rest = deliveries(chs, targets.drop_last(), payload);
        if chs.contains_key(targets.last()) {
            rest.push((targets.last(), payload))
        } else {
            rest
        }
    }
}

/// What `deliveries` holds: the payload, once for each target that has a
/// channel, and nothing for any other handle.
pub proof fn lemma_deliveries_contains(
    chs: Map<Seq<char>, PusherChannel>,
    targets: Seq<Seq<char>>,
    payload: Seq<char>,
)
    ensures
        forall|x: Seq<char>, q: Seq<char>|
            deliveries(chs, targets, payload).contains((x, q)) <==> (targets.contains(x)
                && chs.contains_key(x) && q == payload),
    decreases targets.len(),
{
    if targets.len() > 0 {
        let d = targets.drop_last();
        let rest = deliveries(chs, d, payload);
        lemma_deliveries_contains(chs, d, payload);
        assert forall|x: Seq<char>, q: Seq<char>|
            deliveries(chs, targets, payload).contains((x, q)) <==> (targets.contains(x)
                && chs.contains_key(x) && q == payload) by {
            let all = deliveries(chs, targets, payload);
            if targets.contains(x) && chs.contains_key(x) && q == payload {
                let i = choose|i: int| 0 <= i < targets.len() && targets[i] == x;
                if i < targets.len() - 1 {
                    assert(d[i] == x);
                    assert(d.contains(x));
                    assert(rest.contains((x, q)));
                    let j = choose|j: int| 0 <= j < rest.len() && rest[j] == (x, q);
                    assert(all[j] == (x, q));
                } else {
                    assert(all[all.len() - 1] == (x, q));
                }
            }
            if all.contains((x, q)) {
                let j = choose|j: int| 0 <= j < all.len() && all[j] == (x, q);
                if chs.contains_key(targets.last()) && j == all.len() - 1 {
                    assert(targets[targets.len() - 1] == x);
                } else {
                    assert(rest[j] == (x, q));
                    assert(rest.contains((x, q)));
                    let i = choose|i: int| 0 <= i < d.len() && d[i] == x;
                    assert(targets[i] == x);
                }
            }
        }
    }
}

/// Delivery to live clients by handle.
pub trait MessagePusher {
    /// The registered channel of each handle.
    spec fn channels(&self) -> Map<Seq<char>, PusherChannel>;

    /// Every payload handed to a channel so far, oldest first, as
    /// `(handle, payload)`: the payload went to the channel that `channels`
    /// held for that handle at the time.
    spec fn handed(&self) -> Seq<(Seq<char>, Seq<char>)>;

    spec fn wf(&self) -> bool;

    /// Associates `client_id` with `sender`, replacing an earlier association.
    fn register_client(&mut self, client_id: ClientId, sender: PusherChannel)
        requires
            old(self).wf(),
        ensures
            final(self).wf(),
            final(self).channels() == old(self).channels().insert(client_id@, sender),
            final(self).handed() == old(self).handed(),
    ;

    /// Drops the association of `client_id`, if any.
    fn unregister_client(&mut self, client_id: &ClientId)
        requires
            old(self).wf(),
        ensures
            final(self).wf(),
            final(self).channels() == old(self).channels().remove(client_id@),
            final(self).handed() == old(self).handed(),
    ;

    /// Hands `content` to the channel of `client_id` alone; fails when it has
    /// no channel.
    fn push_to(&mut self, client_id: &ClientId, content: &str) -> (r: Result<(), MessagePushError>)
        requires
            old(self).wf(),
        ensures
            final(self).wf(),
            final(self).channels() == old(self).channels(),
            final(self).handed() == old(self).handed() + deliveries(
                old(self).channels(),
                seq![client_id@],
                content@,
            ),
            !old(self).channels().contains_key(client_id@) <==> r is Err && r->Err_0
                is ClientNotFound,
            r matches Err(MessagePushError::ClientNotFound(s)) ==> s@ == client_id@,
    ;

    /// Hands `content` to the channel of each target that has one, in target
    /// order; a target without a channel is skipped and never makes the whole
    /// call fail.
    fn broadcast(&mut self, targets: Vec<ClientId>, content: &str) -> (r: Result<
        (),
        MessagePushError,
    >)
        requires
            old(self).wf(),
        ensures
            final(self).wf(),
            final(self).channels() == old(self).channels(),
            final(self).handed() == old(self).handed() + deliveries(
                old(self).channels(),
                crate::room::handles(targets@),
                content@,
            ),
            r is Ok,
    ;
}

struct Registration {
    id: ClientId,
    channel: PusherChannel,
}

/// Whether `k` is registered in `s`.
spec fn has_key(s: Seq<Registration>, k: Seq<char>) -> bool {
    exists|i: int| 0 <= i < s.len() && #[trigger] s[i].id@ == k
}

spec fn keys_unique(s: Seq<Registration>) -> bool {
    forall|i: int, j: int|
        0 <= i < s.len() && 0 <= j < s.len() && i != j ==> #[trigger] s[i].id@ != #[trigger] s[j].id@
}

spec fn as_map(s: Seq<Registration>) -> Map<Seq<char>, PusherChannel> {
    Map::new(
        |k: Seq<char>| has_key(s, k),
        |k: Seq<char>| s[choose|i: int| 0 <= i < s.len() && #[trigger] s[i].id@ == k].channel,
    )
}

/// In a list without repeated keys, the key at `i` maps to the channel at `i`.
proof fn lemma_as_map_at(s: Seq<Registration>, i: int)
    requires
        keys_unique(s),
        0 <= i < s.len(),
    ensures
        as_map(s).contains_key(s[i].id@),
        as_map(s)[s[i].id@] == s[i].channel,
{
    let k = s[i].id@;
    assert(has_key(s, k));
    let j = choose|j: int| 0 <= j < s.len() && #[trigger] s[j].id@ == k;
    assert(j == i);
}

/// The hub over tokio channels.
pub struct WebSocketMessagePusher {
    entries: Vec<Registration>,
    handed: Ghost<Seq<(Seq<char>, Seq<char>)>>,
}

impl WebSocketMessagePusher {
    /// A hub with no registrations.
    pub fn new() -> (r: WebSocketMessagePusher)
        ensures
            r.wf(),
            r.channels() == Map::<Seq<char>, PusherChannel>::empty(),
            r.handed() == Seq::<(Seq<char>, Seq<char>)>::empty(),
    {
        let r = WebSocketMessagePusher { entries: Vec::new(), handed: Ghost(Seq::empty()) };
        assert(r.channels() =~= Map::<Seq<char>, PusherChannel>::empty());
        r
    }

    /// Where `client_id` is registered, if it is.
    fn position(&self, client_id: &ClientId) -> (r: Option<usize>)
        ensures
            r matches Some(i) ==> i < self.entries@.len() && self.entries@[i as int].id@
                == client_id@,
            r is None ==> !has_key(self.entries@, client_id@),
    {
        let mut i: usize = 0;
        while i < self.entries.len()
            invariant
                i <= self.entries@.len(),
                forall|j: int| 0 <= j < i ==> #[trigger] self.entries@[j].id@ != client_id@,
            decreases self.entries@.len() - i,
        {
            if self.entries[i].id.same_as(client_id) {
                return Some(i);
            }
            i = i + 1;
        }
        None
    }
}

impl MessagePusher for WebSocketMessagePusher {
    closed spec fn channels(&self) -> Map<Seq<char>, PusherChannel> {
        as_map(self.entries@)
    }

    closed spec fn handed(&self) -> Seq<(Seq<char>, Seq<char>)> {
        self.handed@
    }

    closed spec fn wf(&self) -> bool {
        keys_unique(self.entries@)
    }

    fn register_client(&mut self, client_id: ClientId, sender: PusherChannel) {
        let ghost pre = self.entries@;
        let ghost k = client_id@;
        match self.position(&client_id) {
            Some(i) => {
                self.entries.set(i, Registration { id: client_id, channel: sender });
                proof {
                    lemma_register(pre, i as int, self.entries@, k, sender);
                }
            },
            None => {
                self.entries.push(Registration { id: client_id, channel: sender });
                proof {
                    lemma_register(pre, pre.len() as int, self.entries@, k, sender);
                }
            },
        }
    }

    fn unregister_client(&mut self, client_id: &ClientId) {
        let ghost pre = self.entries@;
        let ghost k = client_id@;
        match self.position(client_id) {
            Some(i) => {
                let _gone = self.entries.remove(i);
                proof {
                    let post = self.entries@;
                    assert(post =~= pre.remove(i as int));
                    pre.remove_ensures(i as int);
                    assert(keys_unique(post)) by {
                        assert forall|a: int, b: int|
                            0 <= a < post.len() && 0 <= b < post.len() && a != b implies #[trigger] post[a].id@
                            != #[trigger] post[b].id@ by {
                            let pa = if a < i { a } else { a + 1 };
                            let pb = if b < i { b } else { b + 1 };
                            assert(post[a] == pre[pa]);
                            assert(post[b] == pre[pb]);
                        }
                    }
                    assert forall|key: Seq<char>| #[trigger]
                        as_map(post).contains_key(key) == as_map(pre).remove(k).contains_key(key)
                            && (as_map(post).contains_key(key) ==> as_map(post)[key] == as_map(
                            pre,
                        ).remove(k)[key]) by {
                        if has_key(post, key) {
                            let j = choose|j: int| 0 <= j < post.len() && #[trigger] post[j].id@
                                == key;
                            let pj = if j < i { j } else { j + 1 };
                            assert(post[j] == pre[pj]);
                            assert(key != k);
                            lemma_as_map_at(pre, pj);
                            lemma_as_map_at(post, j);
                        } else if key != k && has_key(pre, key) {
                            let j = choose|j: int| 0 <= j < pre.len() && #[trigger] pre[j].id@ == key;
                            assert(j != i);
                            let q = if j < i { j } else { j - 1 };
                            assert(post[q] == pre[j]);
                        }
                    }
                    assert(as_map(post) =~= as_map(pre).remove(k));
                }
            },
            None => {
                assert(as_map(pre) =~= as_map(pre).remove(k));
            },
        }
    }

    fn push_to(&mut self, client_id: &ClientId, content: &str) -> (r: Result<
        (),
        MessagePushError,
    >) {
        let ghost k = client_id@;
        proof {
            let t = seq![k];
            assert(t.drop_last() =~= Seq::<Seq<char>>::empty());
            assert(t.last() == k);
            assert(deliveries(self.channels(), t.drop_last(), content@)
                =~= Seq::<(Seq<char>, Seq<char>)>::empty());
        }
        match self.position(client_id) {
            Some(i) => {
                proof {
                    assert(has_key(self.entries@, k));
                }
                let payload = content.to_string();
                assert(payload@ == content@);
                let sent = deliver(&self.entries[i].channel, payload);
                self.handed = Ghost(self.handed@.push((k, content@)));
                assert(self.handed@ =~= old(self).handed@ + seq![(k, content@)]);
                match sent {
                    Ok(()) => Ok(()),
                    Err(e) => Err(MessagePushError::PushFailed(e)),
                }
            },
            None => {
                assert(self.handed@ =~= old(self).handed@ + Seq::<(Seq<char>, Seq<char>)>::empty());
                Err(MessagePushError::ClientNotFound(client_id.to_owned_string()))
            },
        }
    }

    fn broadcast(&mut self, targets: Vec<ClientId>, content: &str) -> (r: Result<
        (),
        MessagePushError,
    >) {
        let ghost chs = self.channels();
        let ghost start = self.handed@;
        let ghost hs = crate::room::handles(targets@);
        let mut k: usize = 0;
        assert(self.handed@ =~= start + deliveries(chs, hs.take(0), content@));
        while k < targets.len()
            invariant
                k <= targets@.len(),
                hs == crate::room::handles(targets@),
                keys_unique(self.entries@),
                as_map(self.entries@) == chs,
                self.handed@ == start + deliveries(chs, hs.take(k as int), content@),
            decreases targets@.len() - k,
        {
            let ghost before = self.handed@;
            proof {
                assert(hs.take(k as int + 1).drop_last() =~= hs.take(k as int));
                assert(hs.take(k as int + 1).last() == targets@[k as int]@);
            }
            if let Some(i) = self.position(&targets[k]) {
                proof {
                    assert(has_key(self.entries@, targets@[k as int]@));
                }
                let payload = content.to_string();
                assert(payload@ == content@);
                // A closed channel is skipped: the other targets still get the payload.
                let _ = deliver(&self.entries[i].channel, payload);
                self.handed = Ghost(self.handed@.push((targets@[k as int]@, content@)));
                assert(self.handed@ =~= start + deliveries(chs, hs.take(k as int + 1), content@));
            }
            k = k + 1;
        }
        assert(hs.take(targets@.len() as int) =~= hs);
        Ok(())
    }
}

/// Setting the registration at `i` (or appending it at the end) to `(k, sender)`
/// maps `k` to `sender` and leaves every other key as it was.
proof fn lemma_register(
    pre: Seq<Registration>,
    i: int,
    post: Seq<Registration>,
    k: Seq<char>,
    sender: PusherChannel,
)
    requires
        keys_unique(pre),
        0 <= i <= pre.len(),
        i < pre.len() ==> pre[i].id@ == k,
        i == pre.len() ==> !has_key(pre, k),
        post.len() == if i < pre.len() {
            pre.len()
        } else {
            pre.len() + 1
        },
        post[i].id@ == k,
        post[i].channel == sender,
        forall|j: int| 0 <= j < pre.len() && j != i ==> post[j] == pre[j],
    ensures
        keys_unique(post),
        as_map(post) == as_map(pre).insert(k, sender),
{
    assert(keys_unique(post)) by {
        assert forall|a: int, b: int|
            0 <= a < post.len() && 0 <= b < post.len() && a != b implies #[trigger] post[a].id@
            != #[trigger] post[b].id@ by {
            if a == i {
                if b < pre.len() {
                    assert(post[b] == pre[b]);
                    if i == pre.len() {
                        assert(!has_key(pre, k));
                    }
                }
            } else if b == i {
                if a < pre.len() {
                    assert(post[a] == pre[a]);
                    if i == pre.len() {
                        assert(!has_key(pre, k));
                    }
                }
            } else {
                assert(post[a] == pre[a]);
                assert(post[b] == pre[b]);
            }
        }
    }
    assert forall|key: Seq<char>| #[trigger]
        as_map(post).contains_key(key) == as_map(pre).insert(k, sender).contains_key(key) && (as_map(
            post,
        ).contains_key(key) ==> as_map(post)[key] == as_map(pre).insert(k, sender)[key]) by {
        if key == k {
            lemma_as_map_at(post, i);
        } else if has_key(pre, key) {
            let j = choose|j: int| 0 <= j < pre.len() && #[trigger] pre[j].id@ == key;
            assert(post[j] == pre[j]);
            lemma_as_map_at(pre, j);
            lemma_as_map_at(post, j);
        } else if has_key(post, key) {
            let j = choose|j: int| 0 <= j < post.len() && #[trigger] post[j].id@ == key;
            assert(post[j] == pre[j]);
        }
    }
    assert(as_map(post) =~= as_map(pre).insert(k, sender));
}

} // verus!
