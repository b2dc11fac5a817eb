//! The analysis protocol of the LLM service and its connection report.
//!
//! An analysis runs as a sequence of steps, each decided here from the state
//! reached and what the previous step returned: the service must be enabled
//! and have an active provider; unless a refresh is forced, a cached answer
//! ends the run; otherwise a session is opened (and marked processing)
//! before the model is called, and the session is completed or failed with
//! the model's outcome.

use vstd::prelude::*;
use vstd::string::*;
use crate::llm::models::{error_text, LLMError, LLMScenario};
use crate::text::concat2;

verus! {

/// What a request for analysis offers the service (implemented by each
/// analysis scenario).
pub trait LLMAnalysisRequestTrait {
    /// The scenario of the request.
    fn scenario(&self) -> LLMScenario;

    /// The system prompt, built from the request.
    fn system_prompt(&self) -> String;

    /// The key under which the answer is cached.
    fn cache_key(&self) -> String;

    /// A digest of the analysed SQL.
    fn sql_hash(&self) -> String;

    /// A digest of the analysed profile.
    fn profile_hash(&self) -> String;
}

/// Where an analysis run stands.
#[derive(Debug, Clone, Copy, PartialEq, Eq)]
pub enum AnalyzeState {
    /// Not started.
    Idle,
    /// Waiting for the active provider; remembers whether the cache is skipped.
    AwaitProvider { force_refresh: bool },
    /// Waiting for the cache lookup.
    AwaitCache,
    /// Waiting for the session to be opened and marked processing.
    AwaitSession,
    /// Waiting for the model's reply.
    AwaitModel,
    /// Finished.
    Done,
}

/// What the caller reports back after a step.
#[derive(Debug)]
pub enum AnalyzeEvent {
    /// A run is requested.
    Begin { enabled: bool, force_refresh: bool },
    /// The active provider lookup: whether one is configured.
    Provider { found: bool },
    /// The cache lookup: whether an answer was cached.
    Cache { hit: bool },
    /// The session is open and marked processing.
    SessionOpened,
    /// The model answered (`Ok`) or failed with an error.
    ModelReplied { outcome: Result<(), LLMError> },
}

/// The next thing the caller does.
#[derive(Debug, Clone)]
pub enum AnalyzeStep {
    /// Look the active provider up.
    LoadProvider,
    /// Look the cache key up.
    LookupCache,
    /// Return the cached answer (marked as coming from the cache).
    ReturnCached,
    /// Create the session, save the request, mark the session processing.
    OpenSession,
    /// Call the model.
    CallModel,
    /// Save the result, complete the session, cache the answer, return it.
    RecordSuccess,
    /// Mark the session failed with the error's message, return the error.
    RecordFailure { error: LLMError },
    /// Return this error without touching any session.
    Fail { error: LLMError },
    /// The event does not belong to the state: nothing to do.
    Ignore,
}

/// The protocol's transition function.
pub open spec fn analyze_next_spec(state: AnalyzeState, event: AnalyzeEvent) -> (
    AnalyzeState,
    AnalyzeStep,
) {
    match (state, event) {
        (AnalyzeState::Idle, AnalyzeEvent::Begin { enabled, force_refresh }) => if !enabled {
            (AnalyzeState::Done, AnalyzeStep::Fail { error: LLMError::Disabled })
        } else {
            (AnalyzeState::AwaitProvider { force_refresh }, AnalyzeStep::LoadProvider)
        },
        (AnalyzeState::AwaitProvider { force_refresh }, AnalyzeEvent::Provider { found }) => if !found {
            (AnalyzeState::Done, AnalyzeStep::Fail { error: LLMError::NoProviderConfigured })
        } else if force_refresh {
            (AnalyzeState::AwaitSession, AnalyzeStep::OpenSession)
        } else {
            (AnalyzeState::AwaitCache, AnalyzeStep::LookupCache)
        },
        (AnalyzeState::AwaitCache, AnalyzeEvent::Cache { hit }) => if hit {
            (AnalyzeState::Done, AnalyzeStep::ReturnCached)
        } else {
            (AnalyzeState::AwaitSession, AnalyzeStep::OpenSession)
        },
        (AnalyzeState::AwaitSession, AnalyzeEvent::SessionOpened) => (
            AnalyzeState::AwaitModel,
            AnalyzeStep::CallModel,
        ),
        (AnalyzeState::AwaitModel, AnalyzeEvent::ModelReplied { outcome }) => match outcome {
            Ok(_) => (AnalyzeState::Done, AnalyzeStep::RecordSuccess),
            Err(e) => (AnalyzeState::Done, AnalyzeStep::RecordFailure { error: e }),
        },
        (s, _) => (s, AnalyzeStep::Ignore),
    }
}

/// Decides the next step of an analysis run from its state and the event
/// reported by the caller.
pub fn analyze_next(state: AnalyzeState, event: AnalyzeEvent) -> (r: (AnalyzeState, AnalyzeStep))
    ensures
        r == analyze_next_spec(state, event),
{
    match (state, event) {
        (AnalyzeState::Idle, AnalyzeEvent::Begin { enabled, force_refresh }) => if !enabled {
            (AnalyzeState::Done, AnalyzeStep::Fail { error: LLMError::Disabled })
        } else {
            (AnalyzeState::AwaitProvider { force_refresh }, AnalyzeStep::LoadProvider)
        },
        (AnalyzeState::AwaitProvider { force_refresh }, AnalyzeEvent::Provider { found }) => if !found {
            (AnalyzeState::Done, AnalyzeStep::Fail { error: LLMError::NoProviderConfigured })
        } else if force_refresh {
            (AnalyzeState::AwaitSession, AnalyzeStep::OpenSession)
        } else {
            (AnalyzeState::AwaitCache, AnalyzeStep::LookupCache)
        },
        (AnalyzeState::AwaitCache, AnalyzeEvent::Cache { hit }) => if hit {
            (AnalyzeState::Done, AnalyzeStep::ReturnCached)
        } else {
            (AnalyzeState::AwaitSession, AnalyzeStep::OpenSession)
        },
        (AnalyzeState::AwaitSession, AnalyzeEvent::SessionOpened) => (
            AnalyzeState::AwaitModel,
            AnalyzeStep::CallModel,
        ),
        (AnalyzeState::AwaitModel, AnalyzeEvent::ModelReplied { outcome }) => match outcome {
            Ok(_) => (AnalyzeState::Done, AnalyzeStep::RecordSuccess),
            Err(e) => (AnalyzeState::Done, AnalyzeStep::RecordFailure { error: e }),
        },
        (s, _) => (s, AnalyzeStep::Ignore),
    }
}

/// The states and steps of a run fed the events in order, from `Idle`.
pub open spec fn run_from(state: AnalyzeState, events: Seq<AnalyzeEvent>) -> Seq<
    (AnalyzeState, AnalyzeStep),
>
    decreases events.len(),
{
    if events.len() == 0 {
        Seq::empty()
    } else {
        let r = analyze_next_spec(state, events[0]);
        seq![r] + run_from(r.0, events.drop_first())
    }
}

/// States from which the cache is never consulted: a forced run and every
/// state it passes through.
pub open spec fn cache_free(s: AnalyzeState) -> bool {
    match s {
        AnalyzeState::AwaitProvider { force_refresh } => force_refresh,
        AnalyzeState::AwaitSession | AnalyzeState::AwaitModel | AnalyzeState::Done => true,
        _ => false,
    }
}

/// A forced refresh never answers from the cache: once a run has begun with
/// `force_refresh`, no later step is a cache lookup or a cached answer.
pub proof fn law_forced_refresh_bypasses_cache(state: AnalyzeState, events: Seq<AnalyzeEvent>)
    requires
        cache_free(state),
    ensures
        forall|k: int|
            0 <= k < run_from(state, events).len() ==> !((#[trigger] run_from(state, events)[k]).1 is ReturnCached)
                && !(run_from(state, events)[k].1 is LookupCache) && cache_free(
                run_from(state, events)[k].0,
            ),
    decreases events.len(),
{
    if events.len() > 0 {
        let r = analyze_next_spec(state, events[0]);
        law_forced_refresh_bypasses_cache(r.0, events.drop_first());
        let rest = run_from(r.0, events.drop_first());
        assert forall|k: int| 0 <= k < run_from(state, events).len() implies !((#[trigger] run_from(
            state,
            events,
        )[k]).1 is ReturnCached) && !(run_from(state, events)[k].1 is LookupCache) && cache_free(
            run_from(state, events)[k].0,
        ) by {
            if k > 0 {
                assert(run_from(state, events)[k] == rest[k - 1]);
            }
        }
    }
}

/// The states in which a session is open.
pub open spec fn session_open(s: AnalyzeState) -> bool {
    s is AwaitModel
}

/// The model is called only with a session open: every `CallModel` step
/// follows the report that the session was opened, and every model reply
/// is recorded on that session (as a success or a failure).
pub proof fn law_model_called_within_session(state: AnalyzeState, event: AnalyzeEvent)
    ensures
        analyze_next_spec(state, event).1 is CallModel ==> state is AwaitSession && event is SessionOpened
            && session_open(analyze_next_spec(state, event).0),
        session_open(state) && event is ModelReplied ==> (analyze_next_spec(state, event).1 is RecordSuccess
            || analyze_next_spec(state, event).1 is RecordFailure) && analyze_next_spec(state, event).0
            is Done,
{
}

/// A disabled service fails at once with `Disabled` and does nothing else.
pub proof fn law_disabled_fails_at_once(force_refresh: bool)
    ensures
        analyze_next_spec(AnalyzeState::Idle, AnalyzeEvent::Begin { enabled: false, force_refresh })
            == (AnalyzeState::Done, AnalyzeStep::Fail { error: LLMError::Disabled }),
{
}

/// The outcome of a provider connection test.
#[derive(Debug, Clone)]
pub struct TestConnectionResponse {
    pub success: bool,
    pub message: String,
    pub latency_ms: Option<i64>,
}

/// The report of a connection test: success, or failure with the error's
/// message, and the measured latency.
pub fn connection_report(outcome: &Result<(), LLMError>, latency_ms: i64) -> (r: TestConnectionResponse)
    ensures
        r.success == outcome is Ok,
        r.latency_ms == Some(latency_ms),
        match outcome {
            Ok(_) => r.message@ == "Connection successful"@,
            Err(e) => r.message@ == "Connection failed: "@ + error_text(*e),
        },
{
    match outcome {
        Ok(_) => TestConnectionResponse {
            success: true,
            message: String::from_str("Connection successful"),
            latency_ms: Some(latency_ms),
        },
        Err(e) => {
            let d = e.describe();
            TestConnectionResponse {
                success: false,
                message: concat2("Connection failed: ", d.as_str()),
                latency_ms: Some(latency_ms),
            }
        },
    }
}

/// The error of a test on an unknown provider.
pub fn provider_not_found(provider_id: i64) -> (r: LLMError)
    ensures
        r matches LLMError::ProviderNotFound(m) && m@ == crate::text::int_dec(provider_id as int),
{
    LLMError::ProviderNotFound(crate::text::i64_string(provider_id))
}

} // verus!
