//! Request shaping and reply reading of the OpenAI-compatible chat client.
//!
//! The transport (HTTP, JSON encoding) is the caller's; what is decided here
//! is where a request goes, which budget and timeout it carries, how a
//! failure is reported and what completion a decoded reply gives.

use vstd::prelude::*;
use vstd::string::*;
use crate::ai::stream::{call_view, call_views};
use crate::ai::types::{truncate, truncated, ChatCompletion, ToolCallDelta};
use crate::text::{chars_of, concat2, strip_suffix_all, string_of, strip_suffix_all_exec, trim, trim_exec};

verus! {

/// The chat-completions endpoint under an API base, whatever number of
/// trailing slashes the base has.
pub fn completions_url(api_base: &str) -> (r: String)
    ensures
        r@ == strip_suffix_all(api_base@, "/"@) + "/chat/completions"@,
{
    let base = strip_suffix_all_exec(chars_of(api_base).as_slice(), "/");
    let mut r = string_of(base.as_slice());
    r.append("/chat/completions");
    r
}

/// The output budget of a request: the provider's `max_tokens`, at least 1.
pub fn output_budget(max_tokens: i32) -> (r: u32)
    ensures
        r == (if max_tokens < 1 {
            1
        } else {
            max_tokens as int
        }),
{
    if max_tokens < 1 {
        1
    } else {
        max_tokens as u32
    }
}

/// The timeout of a request in seconds: the provider's, at least 30.
pub fn request_timeout_secs(timeout_seconds: i32) -> (r: u64)
    ensures
        r == (if timeout_seconds < 30 {
            30
        } else {
            timeout_seconds as int
        }),
{
    if timeout_seconds < 30 {
        30
    } else {
        timeout_seconds as u64
    }
}

/// A provider can serve requests when it is enabled and has a key.
pub fn provider_available(enabled: bool, api_key: &Option<String>) -> (r: bool)
    ensures
        r == (enabled && api_key is Some),
{
    enabled && api_key.is_some()
}

/// The error text of a refused request: the HTTP status and the first 500
/// characters of the body.
pub fn api_error_text(status: &str, body: &str) -> (r: String)
    ensures
        r@ == "LLM API error "@ + status@ + ": "@ + truncated(body@, 500),
{
    let mut r = concat2("LLM API error ", status);
    r.append(": ");
    let t = truncate(body, 500);
    r.append(t.as_str());
    r
}

/// The first choice of a decoded (non-streamed) reply.
#[derive(Debug, Clone)]
pub struct ReplyChoice {
    pub content: Option<String>,
    pub tool_calls: Vec<ToolCallDelta>,
    pub finish_reason: Option<String>,
}

/// The calls of `s` whose name is not blank, in order.
pub open spec fn routable(s: Seq<(Seq<char>, Seq<char>, Seq<char>)>) -> Seq<
    (Seq<char>, Seq<char>, Seq<char>),
>
    decreases s.len(),
{
    if s.len() == 0 {
        Seq::empty()
    } else {
        let r = routable(s.drop_last());
        if trim(s.last().1).len() > 0 {
            r.push(s.last())
        } else {
            r
        }
    }
}

/// The completion of a decoded reply: its first choice, with the calls that
/// have a blank name dropped (they cannot be routed), and the reply's token
/// usage. A reply without choices is an error.
pub fn completion_from_reply(choices: Vec<ReplyChoice>, total_tokens: i64) -> (r: Result<
    ChatCompletion,
    String,
>)
    ensures
        choices@.len() == 0 <==> r is Err,
        r matches Err(e) ==> e@ == "LLM response has no choices"@,
        r matches Ok(c) ==> {
            let first = choices@[0];
            &&& c.content == first.content
            &&& call_views(c.tool_calls@) == routable(call_views(first.tool_calls@))
            &&& c.usage_tokens == total_tokens
            &&& c.finish_reason == first.finish_reason
        },
{
    let mut choices = choices;
    if choices.len() == 0 {
        return Err(String::from_str("LLM response has no choices"));
    }
    let first = choices.remove(0);
    let ghost src = call_views(first.tool_calls@);
    let mut input = first.tool_calls;
    let n = input.len();
    let mut kept: Vec<ToolCallDelta> = Vec::new();
    let mut i: usize = 0;
    while i < n
        invariant
            n == src.len(),
            i <= n,
            input@.len() == n - i,
            call_views(input@) == src.skip(i as int),
            call_views(kept@) == routable(src.take(i as int)),
        decreases n - i,
    {
        let ghost iv = call_views(input@);
        let t = input.remove(0);
        proof {
            assert(call_views(input@) =~= iv.drop_first());
            assert(src.skip(i as int).drop_first() =~= src.skip(i + 1));
            assert(src.take(i + 1).drop_last() =~= src.take(i as int));
            assert(src[i as int] == iv[0]);
        }
        let trimmed = trim_exec(chars_of(t.name.as_str()).as_slice());
        if trimmed.len() > 0 {
            let ghost kv = call_views(kept@);
            kept.push(t);
            assert(call_views(kept@) =~= kv.push(call_view(kept@.last())));
        }
        i += 1;
    }
    assert(src.take(n as int) =~= src);
    Ok(
        ChatCompletion {
            content: first.content,
            tool_calls: kept,
            usage_tokens: total_tokens,
            finish_reason: first.finish_reason,
        },
    )
}

} // verus!
