//! How the LLM client reads the replies of an OpenAI-compatible API: which
//! error a refused or unreadable reply is, what content and token usage an
//! accepted one carries, and how a connection probe ends. The HTTP exchange
//! itself is the caller's.

use vstd::prelude::*;
use vstd::string::*;
use crate::llm::models::LLMError;
use crate::text::{chars_of, concat2, parse_u64, parsed_u64, strip_suffix_all, strip_suffix_all_exec, string_of};

verus! {

/// Seconds to wait after a rate-limited reply without a usable `retry-after`.
pub const DEFAULT_RETRY_AFTER_SECS: u64 = 60;

/// The error of a provider without an API key.
pub fn missing_key_error() -> (r: LLMError)
    ensures
        r matches LLMError::ApiError(m) && m@ == "API key not configured"@,
{
    LLMError::ApiError(String::from_str("API key not configured"))
}

/// The endpoint listing a provider's models (the connection probe).
pub fn models_url(api_base: &str) -> (r: String)
    ensures
        r@ == strip_suffix_all(api_base@, "/"@) + "/models"@,
{
    let base = strip_suffix_all_exec(chars_of(api_base).as_slice(), "/");
    let mut r = string_of(base.as_slice());
    r.append("/models");
    r
}

/// The wait of a rate-limited reply: its `retry-after` seconds, else 60.
pub open spec fn retry_wait(retry_after: Option<Seq<char>>) -> u64 {
    match retry_after {
        Some(t) => match parsed_u64(t) {
            Some(n) => n,
            None => DEFAULT_RETRY_AFTER_SECS,
        },
        None => DEFAULT_RETRY_AFTER_SECS,
    }
}

/// The text of an optional reply body, `Unknown error` when it could not be
/// read.
pub open spec fn body_text(body: Option<Seq<char>>) -> Seq<char> {
    match body {
        Some(b) => b,
        None => "Unknown error"@,
    }
}

/// An HTTP status in the success range.
pub open spec fn success_status(status: u16) -> bool {
    200 <= status < 300
}

/// The error of a completion reply: 429 is rate limiting (for the
/// `retry-after` seconds, else 60), another non-success status is an API
/// error quoting the status and the body; a success is no error.
pub fn reply_error(status: u16, status_text: &str, retry_after: Option<&str>, body: Option<&str>) -> (r:
    Option<LLMError>)
    ensures
        status == 429 ==> (r matches Some(LLMError::RateLimited(n)) && n == retry_wait(
            match retry_after {
                Some(t) => Some(t@),
                None => None,
            },
        )),
        status != 429 && !success_status(status) ==> (r matches Some(LLMError::ApiError(m)) && m@
            == "API error "@ + status_text@ + ": "@ + body_text(
            match body {
                Some(b) => Some(b@),
                None => None,
            },
        )),
        status != 429 && success_status(status) ==> r is None,
{
    if status == 429 {
        let wait = match retry_after {
            Some(t) => match parse_u64(t) {
                Some(n) => n,
                None => DEFAULT_RETRY_AFTER_SECS,
            },
            None => DEFAULT_RETRY_AFTER_SECS,
        };
        return Some(LLMError::RateLimited(wait));
    }
    if status >= 200 && status < 300 {
        return None;
    }
    let mut m = concat2("API error ", status_text);
    m.append(": ");
    match body {
        Some(b) => m.append(b),
        None => m.append("Unknown error"),
    }
    Some(LLMError::ApiError(m))
}

/// The error of a failed transport: a timeout is reported with the
/// provider's timeout, anything else as an API error with its text.
pub fn transport_error(is_timeout: bool, text: &str, timeout_seconds: i32) -> (r: LLMError)
    ensures
        is_timeout ==> r == LLMError::Timeout(timeout_seconds as u64),
        !is_timeout ==> (r matches LLMError::ApiError(m) && m@ == text@),
{
    if is_timeout {
        LLMError::Timeout(timeout_seconds as u64)
    } else {
        LLMError::ApiError(String::from_str(text))
    }
}

/// The content of an accepted reply: the first choice's message content,
/// an error when there is no choice or it has no content.
pub fn reply_content(first_content: Option<Option<String>>) -> (r: Result<String, LLMError>)
    ensures
        match first_content {
            Some(Some(c)) => r matches Ok(x) && x@ == c@,
            _ => r matches Err(LLMError::ParseError(m)) && m@ == "Empty response from LLM"@,
        },
{
    match first_content {
        Some(Some(c)) => Ok(c),
        _ => Err(LLMError::ParseError(String::from_str("Empty response from LLM"))),
    }
}

/// The error of content that does not decode as the expected response.
pub fn undecodable_content(detail: &str, content: &str) -> (r: LLMError)
    ensures
        r matches LLMError::ParseError(m) && m@ == "Failed to parse LLM response: "@ + detail@
            + ". Content: "@ + content@,
{
    let mut m = concat2("Failed to parse LLM response: ", detail);
    m.append(". Content: ");
    m.append(content);
    LLMError::ParseError(m)
}

/// Prompt and completion tokens of a reply, 0 each without usage.
pub fn token_usage(usage: Option<(i32, i32)>) -> (r: (i32, i32))
    ensures
        r == (match usage {
            Some(u) => u,
            None => (0i32, 0i32),
        }),
{
    match usage {
        Some(u) => u,
        None => (0, 0),
    }
}

/// What a connection probe does after the models listing answered.
#[derive(Debug, Clone, Copy, PartialEq, Eq)]
pub enum ProbeStep {
    /// The provider answered: the connection works.
    Reachable,
    /// 401: the key is refused.
    InvalidKey,
    /// Any other refusal: try a one-token chat instead.
    TryChat,
}

/// The step after the models listing answered with `status`.
pub fn models_probe_step(status: u16) -> (r: ProbeStep)
    ensures
        status == 401 ==> r == ProbeStep::InvalidKey,
        status != 401 && success_status(status) ==> r == ProbeStep::Reachable,
        status != 401 && !success_status(status) ==> r == ProbeStep::TryChat,
{
    if status == 401 {
        ProbeStep::InvalidKey
    } else if status >= 200 && status < 300 {
        ProbeStep::Reachable
    } else {
        ProbeStep::TryChat
    }
}

/// The error of a refused key.
pub fn invalid_key_error() -> (r: LLMError)
    ensures
        r matches LLMError::ApiError(m) && m@ == "Invalid API key"@,
{
    LLMError::ApiError(String::from_str("Invalid API key"))
}

/// The outcome of the one-token chat probe: 401 is a refused key, another
/// non-success status an API error quoting the status and body, a success
/// none.
pub fn chat_probe_error(status: u16, status_text: &str, body: Option<&str>) -> (r: Option<
    LLMError,
>)
    ensures
        status == 401 ==> (r matches Some(LLMError::ApiError(m)) && m@ == "Invalid API key"@),
        status != 401 && !success_status(status) ==> (r matches Some(LLMError::ApiError(m)) && m@
            == "API error "@ + status_text@ + ": "@ + body_text(
            match body {
                Some(b) => Some(b@),
                None => None,
            },
        )),
        status != 401 && success_status(status) ==> r is None,
{
    if status == 401 {
        return Some(invalid_key_error());
    }
    if status >= 200 && status < 300 {
        return None;
    }
    let mut m = concat2("API error ", status_text);
    m.append(": ");
    match body {
        Some(b) => m.append(b),
        None => m.append("Unknown error"),
    }
    Some(LLMError::ApiError(m))
}

/// The error of a failed probe transport: a timeout (after the probe's 10
/// seconds), a refused connection, or another failure with its text.
pub fn probe_transport_error(is_timeout: bool, is_connect: bool, text: &str) -> (r: LLMError)
    ensures
        is_timeout ==> r == LLMError::Timeout(10),
        !is_timeout && is_connect ==> (r matches LLMError::ApiError(m) && m@ == "Connection failed: "@
            + text@),
        !is_timeout && !is_connect ==> (r matches LLMError::ApiError(m) && m@ == text@),
{
    if is_timeout {
        LLMError::Timeout(10)
    } else if is_connect {
        LLMError::ApiError(concat2("Connection failed: ", text))
    } else {
        LLMError::ApiError(String::from_str(text))
    }
}

} // verus!
