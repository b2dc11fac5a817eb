//! Conversation types of the AI channel: messages, tool calls, completions
//! and the recorded steps of an agent turn.

use vstd::prelude::*;
use vstd::string::*;
use crate::text::{chars_of, string_of};

verus! {

/// `s` cut to its first `n` characters, with `...` appended when cut.
pub open spec fn truncated(s: Seq<char>, n: nat) -> Seq<char> {
    if s.len() <= n {
        s
    } else {
        s.take(n as int) + "..."@
    }
}

/// Shortens a text to at most `n` characters (never splitting a character),
/// marking a cut with `...`.
pub fn truncate(s: &str, n: usize) -> (r: String)
    ensures
        r@ == truncated(s@, n as nat),
{
    let v = chars_of(s);
    if v.len() <= n {
        String::from_str(s)
    } else {
        let head = vstd::slice::slice_subrange(v.as_slice(), 0, n);
        let mut r = string_of(head);
        r.append("...");
        assert(head@ =~= s@.take(n as int));
        r
    }
}

/// A tool call emitted by the model.
#[derive(Debug, Clone)]
pub struct ToolCallDelta {
    pub id: String,
    pub name: String,
    /// JSON-encoded arguments.
    pub arguments: String,
}

/// One message of a chat conversation.
#[derive(Debug, Clone)]
pub struct ChatMessage {
    pub role: String,
    pub content: String,
    pub tool_calls: Option<Vec<ToolCallDelta>>,
    pub tool_call_id: Option<String>,
}

impl ChatMessage {
    /// Whether the wire form of the message carries `content`: always,
    /// except for an empty content beside tool calls (strict gateways refuse
    /// it there).
    pub fn emits_content(&self) -> (r: bool)
        ensures
            r == (self.content@.len() > 0 || self.tool_calls is None),
    {
        !self.content.as_str().is_empty() || self.tool_calls.is_none()
    }
}

/// A plain message (no tool calls) with the given role and content.
pub fn plain_message(role: &str, content: String) -> (r: ChatMessage)
    ensures
        r.role@ == role@,
        r.content@ == content@,
        r.tool_calls is None,
        r.tool_call_id is None,
{
    ChatMessage { role: String::from_str(role), content, tool_calls: None, tool_call_id: None }
}

/// The model's reply to one chat call.
#[derive(Debug, Clone)]
pub struct ChatCompletion {
    pub content: Option<String>,
    pub tool_calls: Vec<ToolCallDelta>,
    pub usage_tokens: i64,
    pub finish_reason: Option<String>,
}

/// A JSON document handed through unread (tool arguments of a recorded step).
#[verifier::external_type_specification]
#[verifier::external_body]
pub struct ExJsonValue(serde_json::Value);

/// One recorded step of an agent run.
#[derive(Debug, Clone)]
pub struct AgentStep {
    /// `reasoning`, `tool`, `tool_result`, `end` or `error`.
    pub kind: String,
    pub label: String,
    pub detail: String,
    pub args: Option<serde_json::Value>,
    pub result: Option<String>,
    pub duration_ms: i64,
    /// `ok`, `pending` or `error`.
    pub status: String,
}

impl AgentStep {
    /// A reasoning step carrying the model's thinking text.
    pub fn reasoning(detail: String) -> (r: AgentStep)
        ensures
            r.kind@ == "reasoning"@,
            r.label@ == "reasoning"@,
            r.detail@ == detail@,
            r.args is None,
            r.result is None,
            r.duration_ms == 0,
            r.status@ == "ok"@,
    {
        AgentStep {
            kind: String::from_str("reasoning"),
            label: String::from_str("reasoning"),
            detail,
            args: None,
            result: None,
            duration_ms: 0,
            status: String::from_str("ok"),
        }
    }

    /// A pending call of tool `name` with its arguments.
    pub fn tool(name: &str, args: serde_json::Value) -> (r: AgentStep)
        ensures
            r.kind@ == "tool"@,
            r.label@ == name@,
            r.detail@ == Seq::<char>::empty(),
            r.args == Some(args),
            r.result is None,
            r.duration_ms == 0,
            r.status@ == "pending"@,
    {
        AgentStep {
            kind: String::from_str("tool"),
            label: String::from_str(name),
            detail: String::new(),
            args: Some(args),
            result: None,
            duration_ms: 0,
            status: String::from_str("pending"),
        }
    }

    /// The result of tool `name`, produced in `duration_ms` milliseconds.
    pub fn tool_result(name: &str, result: String, duration_ms: i64) -> (r: AgentStep)
        ensures
            r.kind@ == "tool_result"@,
            r.label@ == name@,
            r.detail@ == Seq::<char>::empty(),
            r.args is None,
            r.result matches Some(x) && x@ == result@,
            r.duration_ms == duration_ms,
            r.status@ == "ok"@,
    {
        AgentStep {
            kind: String::from_str("tool_result"),
            label: String::from_str(name),
            detail: String::new(),
            args: None,
            result: Some(result),
            duration_ms,
            status: String::from_str("ok"),
        }
    }

    /// A failed step of tool `name` with its error text.
    pub fn error(name: &str, error: &str) -> (r: AgentStep)
        ensures
            r.kind@ == "error"@,
            r.label@ == name@,
            r.detail@ == Seq::<char>::empty(),
            r.args is None,
            r.result matches Some(x) && x@ == error@,
            r.duration_ms == 0,
            r.status@ == "error"@,
    {
        AgentStep {
            kind: String::from_str("error"),
            label: String::from_str(name),
            detail: String::new(),
            args: None,
            result: Some(String::from_str(error)),
            duration_ms: 0,
            status: String::from_str("error"),
        }
    }

    /// The step that closes a turn.
    pub fn end() -> (r: AgentStep)
        ensures
            r.kind@ == "end"@,
            r.label@ == "turn_end"@,
            r.detail@ == Seq::<char>::empty(),
            r.args is None,
            r.result is None,
            r.duration_ms == 0,
            r.status@ == "ok"@,
    {
        AgentStep {
            kind: String::from_str("end"),
            label: String::from_str("turn_end"),
            detail: String::new(),
            args: None,
            result: None,
            duration_ms: 0,
            status: String::from_str("ok"),
        }
    }
}

/// The outcome of one agent turn.
#[derive(Debug, Clone)]
pub struct AgentResult {
    pub steps: Vec<AgentStep>,
    pub final_answer: String,
    pub usage_tokens: i64,
}

} // verus!
