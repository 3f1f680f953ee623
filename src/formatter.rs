//! Text shown to a person at a client: room snapshots, join and leave
//! notices, chat messages and what could not be read.

use vstd::prelude::*;
use vstd::string::StringExecFns;

use crate::dto::ParticipantInfo;
use crate::time::{displayable, rfc3339_at, timestamp_to_jst_rfc3339, JST_OFFSET_SECS};

verus! {

/// An instant as the formatter writes it.
pub open spec fn shown(millis: i64) -> Seq<char> {
    rfc3339_at(millis as int, JST_OFFSET_SECS as int)
}

/// The decimal digit `d`.
pub open spec fn digit_char(d: nat) -> char {
    ((d + 48) as u8) as char
}

/// `n` written in decimal, without leading zeros.
pub open spec fn decimal(n: nat) -> Seq<char>
    decreases n,
{
    if n < 10 {
        seq![digit_char(n)]
    } else {
        decimal(n / 10).push(digit_char(n % 10))
    }
}

/// The snapshot line of one participant; the reader's own line is marked.
pub open spec fn participant_line(p: ParticipantInfo, me: Seq<char>) -> Seq<char> {
    p.client_id@ + (if p.client_id@ == me {
        " (me)"@
    } else {
        ""@
    }) + " - entered at "@ + shown(p.connected_at) + "\n"@
}

/// The snapshot lines of `ps`, in order.
pub open spec fn participant_lines(ps: Seq<ParticipantInfo>, me: Seq<char>) -> Seq<char>
    decreases ps.len(),
{
    if ps.len() == 0 {
        Seq::empty()
    } else {
        participant_lines(ps.drop_last(), me) + participant_line(ps.last(), me)
    }
}

pub open spec fn room_connected_text(ps: Seq<ParticipantInfo>, me: Seq<char>) -> Seq<char> {
    "\n\n============================================================\n"@ + "Participants:\n"@ + (if ps.len() == 0 {
        "(No participants)\n"@
    } else {
        participant_lines(ps, me)
    }) + "============================================================\n"@
}

pub open spec fn chat_text(from: Seq<char>, content: Seq<char>, sent_at: i64) -> Seq<char> {
    "\n\n------------------------------------------------------------\n"@ + "@"@ + from + ": "@ + content + "\n"@ + "sent at "@ + shown(sent_at)
        + "\n"@ + "------------------------------------------------------------\n"@
}

/// The one-character string of the digit `d`.
fn digit_str(d: usize) -> (r: &'static str)
    requires
        d < 10,
    ensures
        r@ == seq![digit_char(d as nat)],
{
    proof {
        reveal_strlit("0"); reveal_strlit("1"); reveal_strlit("2"); reveal_strlit("3"); reveal_strlit("4"); reveal_strlit("5"); reveal_strlit("6"); reveal_strlit("7"); reveal_strlit("8"); reveal_strlit("9");
    }
    match d {
        0 => "0",
        1 => "1",
        2 => "2",
        3 => "3",
        4 => "4",
        5 => "5",
        6 => "6",
        7 => "7",
        8 => "8",
        9 => "9",
        _ => "9",
    }
}

/// Appends `n` in decimal to `out`.
fn append_decimal(out: &mut String, n: usize)
    ensures
        final(out)@ == old(out)@ + decimal(n as nat),
    decreases n,
{
    if n >= 10 {
        append_decimal(out, n / 10);
    }
    out.append(digit_str(n % 10));
    proof {
        if n >= 10 {
            assert(decimal(n as nat) == decimal((n / 10) as nat).push(digit_char((n % 10) as nat)));
        }
    }
}

/// Formats the messages a client shows.
pub struct MessageFormatter;

impl MessageFormatter {
    /// The snapshot of the room: every participant with the instant it
    /// entered, the reader's own entry marked.
    pub fn format_room_connected(participants: &[ParticipantInfo], current_client_id: &str) -> (r:
        String)
        requires
            forall|i: int|
                0 <= i < participants@.len() ==> displayable(
                    (#[trigger] participants@[i]).connected_at as int,
                ),
        ensures
            r@ == room_connected_text(participants@, current_client_id@),
    {
        let mut output = String::new();
        output.append("\n\n============================================================\n");
        output.append("Participants:\n");
        if participants.len() == 0 {
            output.append("(No participants)\n");
        } else {
            let ghost head = output@;
            let me = String::from_str(current_client_id);
            let mut i: usize = 0;
            while i < participants.len()
                invariant
                    i <= participants@.len(),
                    forall|j: int|
                        0 <= j < participants@.len() ==> displayable(
                            (#[trigger] participants@[j]).connected_at as int,
                        ),
                    me@ == current_client_id@,
                    output@ == head + participant_lines(
                        participants@.take(i as int),
                        current_client_id@,
                    ),
                decreases participants@.len() - i,
            {
                let p = &participants[i];
                let ghost before = output@;
                output.append(p.client_id.as_str());
                if p.client_id == me {
                    output.append(" (me)");
                } else {
                    output.append("");
                }
                output.append(" - entered at ");
                let stamp = timestamp_to_jst_rfc3339(p.connected_at);
                output.append(stamp.as_str());
                output.append("\n");
                proof {
                    let t = participants@.take(i as int + 1);
                    assert(t.drop_last() =~= participants@.take(i as int));
                    assert(t.last() == participants@[i as int]);
                    assert(output@ =~= before + participant_line(*p, current_client_id@));
                }
                i = i + 1;
            }
            assert(participants@.take(participants@.len() as int) =~= participants@);
        }
        output.append("============================================================\n");
        output
    }

    /// The notice that `client_id` joined at `connected_at`.
    pub fn format_participant_joined(client_id: &str, connected_at: i64) -> (r: String)
        requires
            displayable(connected_at as int),
        ensures
            r@ == "\n+ "@ + client_id@ + " entered at "@ + shown(connected_at) + "\n"@,
    {
        let timestamp_str = timestamp_to_jst_rfc3339(connected_at);
        let mut out = String::from_str("\n+ ");
        out.append(client_id);
        out.append(" entered at ");
        out.append(timestamp_str.as_str());
        out.append("\n");
        out
    }

    /// The notice that `client_id` left at `disconnected_at`.
    pub fn format_participant_left(client_id: &str, disconnected_at: i64) -> (r: String)
        requires
            displayable(disconnected_at as int),
        ensures
            r@ == "\n- "@ + client_id@ + " left at "@ + shown(disconnected_at) + "\n"@,
    {
        let timestamp_str = timestamp_to_jst_rfc3339(disconnected_at);
        let mut out = String::from_str("\n- ");
        out.append(client_id);
        out.append(" left at ");
        out.append(timestamp_str.as_str());
        out.append("\n");
        out
    }

    /// A chat message from `from`, framed by rules.
    pub fn format_chat_message(from: &str, content: &str, sent_at: i64) -> (r: String)
        requires
            displayable(sent_at as int),
        ensures
            r@ == chat_text(from@, content@, sent_at),
    {
        let timestamp_str = timestamp_to_jst_rfc3339(sent_at);
        let mut out = String::from_str("\n\n------------------------------------------------------------\n");
        out.append("@");
        out.append(from);
        out.append(": ");
        out.append(content);
        out.append("\n");
        out.append("sent at ");
        out.append(timestamp_str.as_str());
        out.append("\n");
        out.append("------------------------------------------------------------\n");
        out
    }

    /// The confirmation that a message went out at `sent_at`.
    pub fn format_sent_confirmation(sent_at: i64) -> (r: String)
        requires
            displayable(sent_at as int),
        ensures
            r@ == "sent at "@ + shown(sent_at) + "\n"@,
    {
        let timestamp_str = timestamp_to_jst_rfc3339(sent_at);
        let mut out = String::from_str("sent at ");
        out.append(timestamp_str.as_str());
        out.append("\n");
        out
    }

    /// The notice that `byte_count` bytes of binary data arrived.
    pub fn format_binary_message(byte_count: usize) -> (r: String)
        ensures
            r@ == "\n← Received "@ + decimal(byte_count as nat) + " bytes of binary data\n"@,
    {
        let mut out = String::from_str("\n← Received ");
        append_decimal(&mut out, byte_count);
        out.append(" bytes of binary data\n");
        out
    }

    /// Text that did not decode as any known frame.
    pub fn format_raw_message(text: &str) -> (r: String)
        ensures
            r@ == "\n← Received: "@ + text@ + "\n"@,
    {
        let mut out = String::from_str("\n← Received: ");
        out.append(text);
        out.append("\n");
        out
    }
}

} // verus!
