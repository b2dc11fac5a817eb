//! Chat sessions: the records kept per session and how they are turned back
//! into a conversation.

use vstd::prelude::*;
use vstd::string::*;
use crate::ai::types::{AgentStep, ChatMessage};
use crate::text::{chars_of, eq_lit, string_of};

verus! {

/// Session metadata shown to the user.
#[derive(Debug, Clone)]
pub struct SessionInfo {
    pub id: i64,
    pub channel: String,
    pub cluster_id: i64,
    pub title: String,
    pub created_at: String,
    pub last_active_at: String,
}

/// One persisted turn: a user message, or an answer with its step trace.
#[derive(Debug, Clone)]
pub struct MessageRecord {
    pub id: i64,
    pub role: String,
    pub content: String,
    pub steps: Vec<AgentStep>,
    /// The current user's rating (`up` / `down`), when loaded.
    pub feedback: Option<String>,
}

/// The title of a new session: the first 60 characters of its first message.
pub fn session_title(first_message: &str) -> (r: String)
    ensures
        r@ == first_message@.take(if first_message@.len() < 60 {
            first_message@.len() as int
        } else {
            60
        }),
{
    let v = chars_of(first_message);
    let n: usize = if v.len() < 60 {
        v.len()
    } else {
        60
    };
    let head = vstd::slice::slice_subrange(v.as_slice(), 0, n);
    assert(head@ =~= first_message@.take(n as int));
    string_of(head)
}

/// A role that belongs to the rebuilt conversation.
pub open spec fn conversational(role: Seq<char>) -> bool {
    role == "user"@ || role == "assistant"@
}

/// The (role, content) pairs of the user and assistant records, in order.
pub open spec fn conversation(records: Seq<MessageRecord>) -> Seq<(Seq<char>, Seq<char>)>
    decreases records.len(),
{
    if records.len() == 0 {
        Seq::empty()
    } else {
        let r = conversation(records.drop_last());
        let m = records.last();
        if conversational(m.role@) {
            r.push((m.role@, m.content@))
        } else {
            r
        }
    }
}

/// A message as its (role, content) pair.
pub open spec fn message_pair(m: ChatMessage) -> (Seq<char>, Seq<char>) {
    (m.role@, m.content@)
}

/// The conversation handed to the model from persisted records: the user
/// and assistant turns in order, as plain messages (tool traces stay in the
/// records).
pub fn to_chat_messages(records: &[MessageRecord]) -> (r: Vec<ChatMessage>)
    ensures
        r@.map_values(|m: ChatMessage| message_pair(m)) == conversation(records@),
        forall|i: int|
            0 <= i < r@.len() ==> (#[trigger] r@[i]).tool_calls is None && r@[i].tool_call_id
                is None,
{
    let mut out: Vec<ChatMessage> = Vec::new();
    let mut i: usize = 0;
    while i < records.len()
        invariant
            i <= records.len(),
            out@.map_values(|m: ChatMessage| message_pair(m)) == conversation(
                records@.take(i as int),
            ),
            forall|k: int|
                0 <= k < out@.len() ==> (#[trigger] out@[k]).tool_calls is None
                    && out@[k].tool_call_id is None,
        decreases records.len() - i,
    {
        let m = &records[i];
        proof {
            assert(records@.take(i + 1).drop_last() =~= records@.take(i as int));
            assert(records@.take(i + 1).last() == records@[i as int]);
        }
        let role = chars_of(m.role.as_str());
        if eq_lit(role.as_slice(), "user") || eq_lit(role.as_slice(), "assistant") {
            let ghost before = out@.map_values(|x: ChatMessage| message_pair(x));
            out.push(
                ChatMessage {
                    role: string_of(role.as_slice()),
                    content: string_of(chars_of(m.content.as_str()).as_slice()),
                    tool_calls: None,
                    tool_call_id: None,
                },
            );
            assert(out@.map_values(|x: ChatMessage| message_pair(x)) =~= before.push(
                (m.role@, m.content@),
            ));
        }
        i += 1;
    }
    assert(records@.take(records.len() as int) =~= records@);
    out
}

/// The database operation that records a rating.
#[derive(Debug, Clone, Copy, PartialEq, Eq)]
pub enum FeedbackOp {
    /// Remove the user's rating of the message.
    Delete,
    /// Change the existing rating in place.
    Update,
    /// Add a rating row.
    Insert,
}

/// The first operation of setting a rating: clearing (`None`) deletes, any
/// rating first tries an update.
pub fn feedback_first_op(rating: &Option<String>) -> (r: FeedbackOp)
    ensures
        r == (if rating is None {
            FeedbackOp::Delete
        } else {
            FeedbackOp::Update
        }),
{
    match rating {
        None => FeedbackOp::Delete,
        Some(_) => FeedbackOp::Update,
    }
}

/// What follows an update that changed `rows_affected` rows: an insert when
/// there was no row to change, else nothing.
pub fn feedback_after_update(rows_affected: u64) -> (r: Option<FeedbackOp>)
    ensures
        r == (if rows_affected == 0 {
            Some(FeedbackOp::Insert)
        } else {
            None::<FeedbackOp>
        }),
{
    if rows_affected == 0 {
        Some(FeedbackOp::Insert)
    } else {
        None
    }
}

} // verus!
