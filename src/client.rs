//! Decisions of the chat client: what a failed connection means and whether
//! to try again.

use vstd::prelude::*;
use vstd::string::StringExecFns;

verus! {

/// Why a client session ended badly.
#[derive(Debug, Clone, PartialEq, Eq)]
pub enum ClientError {
    /// The handle is already connected; retrying will not help.
    DuplicateClientId(String),
    /// The connection failed or was lost.
    ConnectionError(String),
}

impl ClientError {
    /// The text shown for this error.
    pub fn message(&self) -> (r: String)
        ensures
            self matches ClientError::DuplicateClientId(id) ==> r@ == "Client ID '"@ + id@
                + "' is already connected"@,
            self matches ClientError::ConnectionError(m) ==> r@ == "Connection error: "@ + m@,
    {
        match self {
            ClientError::DuplicateClientId(id) => {
                let mut out = String::from_str("Client ID '");
                out.append(id.as_str());
                out.append("' is already connected");
                out
            },
            ClientError::ConnectionError(m) => {
                let mut out = String::from_str("Connection error: ");
                out.append(m.as_str());
                out
            },
        }
    }
}

/// `t` occurs in `s` at position `i`.
pub open spec fn occurs_at(s: Seq<char>, t: Seq<char>, i: int) -> bool {
    0 <= i && i + t.len() <= s.len() && s.subrange(i, i + t.len()) == t
}

/// `t` occurs somewhere in `s`.
pub open spec fn occurs_in(s: Seq<char>, t: Seq<char>) -> bool {
    exists|i: int| occurs_at(s, t, i)
}

/// Whether `t` occurs in `s`.
pub fn contains_text(s: &str, t: &str) -> (r: bool)
    ensures
        r == occurs_in(s@, t@),
{
    let n = s.unicode_len();
    let m = t.unicode_len();
    if m > n {
        assert forall|i: int| !occurs_at(s@, t@, i) by {}
        return false;
    }
    let mut i: usize = 0;
    while i <= n - m
        invariant
            n == s@.len(),
            m == t@.len(),
            m <= n,
            i <= n - m + 1,
            forall|k: int| 0 <= k < i ==> !occurs_at(s@, t@, k),
        decreases n - m + 1 - i,
    {
        let mut j: usize = 0;
        let mut same = true;
        while j < m
            invariant
                n == s@.len(),
                m == t@.len(),
                i + m <= n,
                j <= m,
                same == (forall|q: int| 0 <= q < j ==> s@[i + q] == t@[q]),
            decreases m - j,
        {
            if s.get_char(i + j) != t.get_char(j) {
                same = false;
            }
            j = j + 1;
        }
        if same {
            assert(s@.subrange(i as int, i + m) =~= t@);
            assert(occurs_at(s@, t@, i as int));
            return true;
        }
        assert(!occurs_at(s@, t@, i as int)) by {
            if occurs_at(s@, t@, i as int) {
                assert forall|q: int| 0 <= q < m implies s@[i + q] == t@[q] by {
                    assert(s@.subrange(i as int, i + m)[q] == s@[i + q]);
                }
            }
        }
        i = i + 1;
    }
    assert forall|k: int| !occurs_at(s@, t@, k) by {
        if 0 <= k < i {
        }
    }
    false
}

/// The error for a refused connection attempt with the given error text:
/// a conflict (the text names status 409 or "Conflict") means the handle is
/// taken; anything else is a connection error carrying the text.
pub fn connect_failure(error_text: String, client_id: &str) -> (r: ClientError)
    ensures
        occurs_in(error_text@, "409"@) || occurs_in(error_text@, "Conflict"@) ==> (r matches ClientError::DuplicateClientId(
            id,
        ) && id@ == client_id@),
        !(occurs_in(error_text@, "409"@) || occurs_in(error_text@, "Conflict"@)) ==> (r matches ClientError::ConnectionError(
            m,
        ) && m@ == error_text@),
{
    if contains_text(error_text.as_str(), "409") || contains_text(error_text.as_str(), "Conflict") {
        ClientError::DuplicateClientId(String::from_str(client_id))
    } else {
        ClientError::ConnectionError(error_text)
    }
}

/// Whether `error` ends the client at once.
pub fn should_exit_immediately(error: &ClientError) -> (r: bool)
    ensures
        r == (error is DuplicateClientId),
{
    match error {
        ClientError::DuplicateClientId(_) => true,
        ClientError::ConnectionError(_) => false,
    }
}

/// Whether to reconnect after `error` on the attempt numbered
/// `current_attempt` (from zero): never after a duplicate handle, otherwise
/// while attempts remain.
pub fn should_attempt_reconnect(error: &ClientError, current_attempt: u32, max_attempts: u32) -> (r:
    bool)
    ensures
        r == (!(error is DuplicateClientId) && current_attempt < max_attempts),
{
    if should_exit_immediately(error) {
        return false;
    }
    current_attempt < max_attempts
}

/// What the client does after a session ends.
#[derive(Debug, Clone, Copy, PartialEq, Eq, Structural)]
pub enum ClientStep {
    /// The session ended normally: stop.
    Finish,
    /// Stop with a failure status.
    GiveUp,
    /// Wait, then connect again; `reconnect_count` failures so far.
    Retry { reconnect_count: u32 },
}

/// The decision after a session that ended with `outcome`, when
/// `reconnect_count` earlier sessions had already failed.
pub fn after_session(outcome: &Result<(), ClientError>, reconnect_count: u32, max_attempts: u32) -> (r:
    ClientStep)
    ensures
        outcome is Ok ==> r == ClientStep::Finish,
        outcome matches Err(e) ==> (e is DuplicateClientId ==> r == ClientStep::GiveUp),
        outcome matches Err(e) ==> (!(e is DuplicateClientId) ==> (if reconnect_count as int + 1
            >= max_attempts as int {
            r == ClientStep::GiveUp
        } else {
            r == (ClientStep::Retry { reconnect_count: (reconnect_count + 1) as u32 })
        })),
{
    match outcome {
        Ok(()) => ClientStep::Finish,
        Err(e) => {
            if should_exit_immediately(e) {
                ClientStep::GiveUp
            } else if reconnect_count >= max_attempts || max_attempts - reconnect_count <= 1 {
                ClientStep::GiveUp
            } else {
                ClientStep::Retry { reconnect_count: reconnect_count + 1 }
            }
        },
    }
}

} // verus!
