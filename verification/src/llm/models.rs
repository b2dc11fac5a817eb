//! Scenario, session-status and error models of the LLM service.

use vstd::prelude::*;
use vstd::string::*;
use crate::text::{append_chars, concat2, nat_dec, str_eq, u64_dec};

verus! {

/// LLM analysis scenario.
#[derive(Debug, Clone, Copy, PartialEq, Eq, Structural)]
pub enum LLMScenario {
    RootCauseAnalysis,
    SqlOptimization,
    ParameterTuning,
    DdlOptimization,
    GeneralQa,
}

/// The stored name of a scenario.
pub open spec fn scenario_name(s: LLMScenario) -> Seq<char> {
    match s {
        LLMScenario::RootCauseAnalysis => "root_cause_analysis"@,
        LLMScenario::SqlOptimization => "sql_optimization"@,
        LLMScenario::ParameterTuning => "parameter_tuning"@,
        LLMScenario::DdlOptimization => "ddl_optimization"@,
        LLMScenario::GeneralQa => "general_qa"@,
    }
}

impl LLMScenario {
    pub fn as_str(&self) -> (r: &'static str)
        ensures
            r@ == scenario_name(*self),
    {
        match self {
            LLMScenario::RootCauseAnalysis => "root_cause_analysis",
            LLMScenario::SqlOptimization => "sql_optimization",
            LLMScenario::ParameterTuning => "parameter_tuning",
            LLMScenario::DdlOptimization => "ddl_optimization",
            LLMScenario::GeneralQa => "general_qa",
        }
    }
}

/// Status of an analysis session.
#[derive(Debug, Clone, Copy, PartialEq, Eq, Structural)]
pub enum SessionStatus {
    Pending,
    Processing,
    Completed,
    Failed,
}

/// The stored name of a session status.
pub open spec fn session_status_name(s: SessionStatus) -> Seq<char> {
    match s {
        SessionStatus::Pending => "pending"@,
        SessionStatus::Processing => "processing"@,
        SessionStatus::Completed => "completed"@,
        SessionStatus::Failed => "failed"@,
    }
}

/// The session status stored under `s`; an unknown name reads as failed.
pub open spec fn session_status_of(s: Seq<char>) -> SessionStatus {
    if s == "pending"@ {
        SessionStatus::Pending
    } else if s == "processing"@ {
        SessionStatus::Processing
    } else if s == "completed"@ {
        SessionStatus::Completed
    } else {
        SessionStatus::Failed
    }
}

impl SessionStatus {
    pub fn as_str(&self) -> (r: &'static str)
        ensures
            r@ == session_status_name(*self),
    {
        match self {
            SessionStatus::Pending => "pending",
            SessionStatus::Processing => "processing",
            SessionStatus::Completed => "completed",
            SessionStatus::Failed => "failed",
        }
    }

    pub fn parse_status(s: &str) -> (r: SessionStatus)
        ensures
            r == session_status_of(s@),
    {
        if str_eq(s, "pending") {
            SessionStatus::Pending
        } else if str_eq(s, "processing") {
            SessionStatus::Processing
        } else if str_eq(s, "completed") {
            SessionStatus::Completed
        } else {
            SessionStatus::Failed
        }
    }
}

/// Reading back the stored name of a session status gives that status.
pub proof fn law_session_status_roundtrip(s: SessionStatus)
    ensures
        session_status_of(session_status_name(s)) == s,
{
    reveal_strlit("pending");
    reveal_strlit("processing");
    reveal_strlit("completed");
    reveal_strlit("failed");
    assert("pending"@.len() == 7);
    assert("processing"@.len() == 10);
    assert("completed"@.len() == 9);
    assert("failed"@.len() == 6);
}

/// An analysis session row (the field the status logic reads).
#[derive(Debug, Clone)]
pub struct LLMAnalysisSession {
    pub id: String,
    pub scenario: String,
    pub query_id: String,
    pub status: String,
}

impl LLMAnalysisSession {
    /// The session's status (unknown stored names read as failed).
    pub fn status_enum(&self) -> (r: SessionStatus)
        ensures
            r == session_status_of(self.status@),
    {
        SessionStatus::parse_status(self.status.as_str())
    }
}

/// Errors of the LLM service (database and serialization failures carry
/// their message).
#[derive(Debug, Clone)]
pub enum LLMError {
    NoProviderConfigured,
    ProviderNotFound(String),
    ApiError(String),
    ParseError(String),
    Timeout(u64),
    RateLimited(u64),
    DatabaseError(String),
    SerializationError(String),
    CredentialEncryptionUnavailable,
    Disabled,
}

/// Errors worth retrying: timeouts, rate limiting and API errors.
pub open spec fn retryable(e: LLMError) -> bool {
    e is Timeout || e is RateLimited || e is ApiError
}

/// The message of an error.
pub open spec fn error_text(e: LLMError) -> Seq<char> {
    match e {
        LLMError::NoProviderConfigured => "No active LLM provider configured"@,
        LLMError::ProviderNotFound(s) => "Provider not found: "@ + s@,
        LLMError::ApiError(s) => "LLM API error: "@ + s@,
        LLMError::ParseError(s) => "LLM response parsing error: "@ + s@,
        LLMError::Timeout(n) => "LLM timeout after "@ + nat_dec(n as nat) + "s"@,
        LLMError::RateLimited(n) => "LLM rate limited, retry after "@ + nat_dec(n as nat) + "s"@,
        LLMError::DatabaseError(s) => "Database error: "@ + s@,
        LLMError::SerializationError(s) => "Serialization error: "@ + s@,
        LLMError::CredentialEncryptionUnavailable => "Credential encryption key is not configured"@,
        LLMError::Disabled => "LLM service disabled"@,
    }
}

impl LLMError {
    /// The message shown for the error.
    pub fn describe(&self) -> (r: String)
        ensures
            r@ == error_text(*self),
    {
        match self {
            LLMError::NoProviderConfigured => String::from_str("No active LLM provider configured"),
            LLMError::ProviderNotFound(s) => concat2("Provider not found: ", s.as_str()),
            LLMError::ApiError(s) => concat2("LLM API error: ", s.as_str()),
            LLMError::ParseError(s) => concat2("LLM response parsing error: ", s.as_str()),
            LLMError::Timeout(n) => {
                let d = u64_dec(*n);
                let mut r = String::from_str("LLM timeout after ");
                append_chars(&mut r, d.as_slice());
                r.append("s");
                r
            },
            LLMError::RateLimited(n) => {
                let d = u64_dec(*n);
                let mut r = String::from_str("LLM rate limited, retry after ");
                append_chars(&mut r, d.as_slice());
                r.append("s");
                r
            },
            LLMError::DatabaseError(s) => concat2("Database error: ", s.as_str()),
            LLMError::SerializationError(s) => concat2("Serialization error: ", s.as_str()),
            LLMError::CredentialEncryptionUnavailable => String::from_str(
                "Credential encryption key is not configured",
            ),
            LLMError::Disabled => String::from_str("LLM service disabled"),
        }
    }

    pub fn is_retryable(&self) -> (r: bool)
        ensures
            r == retryable(*self),
    {
        match self {
            LLMError::Timeout(_) | LLMError::RateLimited(_) | LLMError::ApiError(_) => true,
            _ => false,
        }
    }
}

/// Default `max_tokens` of a new provider.
pub fn default_max_tokens() -> (r: i32)
    ensures
        r == 4096,
{
    4096
}

/// Default request timeout (seconds) of a new provider.
pub fn default_timeout() -> (r: i32)
    ensures
        r == 60,
{
    60
}

/// Default priority of a new provider.
pub fn default_priority() -> (r: i32)
    ensures
        r == 100,
{
    100
}

/// Whether a flag is false (fields skipped when serialized).
pub fn is_false(b: &bool) -> (r: bool)
    ensures
        r == !*b,
{
    !*b
}

} // verus!
