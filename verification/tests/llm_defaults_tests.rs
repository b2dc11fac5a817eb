use stellar::cluster::service::org_forbidden_text;
use stellar::profile_access::profile_access_insert_sql;
use stellar::llm::models::{
    default_max_tokens, default_priority, default_timeout, is_false, LLMAnalysisSession,
    SessionStatus,
};

fn session(status: &str) -> LLMAnalysisSession {
    LLMAnalysisSession {
        id: "s1".to_string(),
        scenario: "root_cause".to_string(),
        query_id: "q1".to_string(),
        status: status.to_string(),
    }
}

#[test]
fn provider_defaults() {
    assert_eq!(default_max_tokens(), 4096);
    assert_eq!(default_timeout(), 60);
    assert_eq!(default_priority(), 100);
    assert!(is_false(&false));
    assert!(!is_false(&true));
}

#[test]
fn stored_session_status() {
    assert_eq!(session("pending").status_enum(), SessionStatus::Pending);
    assert_eq!(session("processing").status_enum(), SessionStatus::Processing);
    assert_eq!(session("completed").status_enum(), SessionStatus::Completed);
    assert_eq!(session("failed").status_enum(), SessionStatus::Failed);
    assert_eq!(session("Completed").status_enum(), SessionStatus::Failed);
}

#[test]
fn organization_refusal_text() {
    assert_eq!(org_forbidden_text(), "Organization context required for cluster operations");
}

#[test]
fn profile_access_record_statement() {
    let sql = profile_access_insert_sql();
    assert!(sql.starts_with("INSERT INTO frontend_profile_access_logs (user_id, username,"));
    assert_eq!(sql.matches('?').count(), 11);
}
