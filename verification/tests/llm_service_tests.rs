use stellar::llm::client::{
    chat_probe_error, missing_key_error, models_probe_step, models_url, probe_transport_error,
    reply_content, reply_error, token_usage, transport_error, undecodable_content, ProbeStep,
};
use stellar::llm::models::LLMError;
use stellar::llm::repository::{
    check_provider_key, mask_api_key, masked_provider_key, needs_encryption, provider_update_sql,
    ProviderChanges,
};
use stellar::llm::service::{
    analyze_next, connection_report, provider_not_found, AnalyzeEvent, AnalyzeState, AnalyzeStep,
};
use stellar::llm::sql_diag::{
    estimated_rows_of, no_explain_hash, normalize_sql_whitespace, sql_diag_cache_key,
    EstimatedRowsValue,
};

#[test]
fn test_provider_info_masks_api_key() {
    let masked = masked_provider_key(&Some("sk-1234567890abcdef".to_string()));
    assert!(masked.is_some());
    let masked = masked.unwrap();
    assert!(masked.contains("..."));
    assert!(!masked.contains("1234567890"));
    assert_eq!(masked, "sk-1...cdef");
}

#[test]
fn test_provider_info_short_key_masked() {
    assert_eq!(masked_provider_key(&Some("short".to_string())), Some("****".to_string()));
    assert_eq!(masked_provider_key(&None), None);
    assert_eq!(mask_api_key("12345678"), "****");
}

#[test]
fn error_messages() {
    assert_eq!(LLMError::Timeout(30).describe(), "LLM timeout after 30s");
    assert_eq!(LLMError::RateLimited(7).describe(), "LLM rate limited, retry after 7s");
    assert_eq!(LLMError::ApiError("x".into()).describe(), "LLM API error: x");
    assert_eq!(LLMError::Disabled.describe(), "LLM service disabled");
    assert_eq!(LLMError::NoProviderConfigured.describe(), "No active LLM provider configured");
    assert_eq!(provider_not_found(12).describe(), "Provider not found: 12");
}

#[test]
fn reply_interpretation() {
    match reply_error(429, "429 Too Many Requests", Some("12"), None) {
        Some(LLMError::RateLimited(n)) => assert_eq!(n, 12),
        other => panic!("unexpected {:?}", other),
    }
    match reply_error(429, "429", Some("soon"), None) {
        Some(LLMError::RateLimited(n)) => assert_eq!(n, 60),
        other => panic!("unexpected {:?}", other),
    }
    match reply_error(500, "500 Internal Server Error", None, None) {
        Some(LLMError::ApiError(m)) => assert_eq!(m, "API error 500 Internal Server Error: Unknown error"),
        other => panic!("unexpected {:?}", other),
    }
    assert!(reply_error(200, "200 OK", None, None).is_none());
    assert!(matches!(transport_error(true, "t", 45), LLMError::Timeout(45)));
    match transport_error(false, "dns", 45) {
        LLMError::ApiError(m) => assert_eq!(m, "dns"),
        other => panic!("unexpected {:?}", other),
    }
    assert_eq!(reply_content(Some(Some("{}".into()))).unwrap(), "{}");
    match reply_content(Some(None)) {
        Err(LLMError::ParseError(m)) => assert_eq!(m, "Empty response from LLM"),
        other => panic!("unexpected {:?}", other),
    }
    assert!(reply_content(None).is_err());
    match undecodable_content("bad", "xx") {
        LLMError::ParseError(m) => assert_eq!(m, "Failed to parse LLM response: bad. Content: xx"),
        other => panic!("unexpected {:?}", other),
    }
    assert_eq!(token_usage(Some((3, 4))), (3, 4));
    assert_eq!(token_usage(None), (0, 0));
    match missing_key_error() {
        LLMError::ApiError(m) => assert_eq!(m, "API key not configured"),
        other => panic!("unexpected {:?}", other),
    }
}

#[test]
fn connection_probe() {
    assert_eq!(models_url("https://api.x/v1/"), "https://api.x/v1/models");
    assert_eq!(models_probe_step(200), ProbeStep::Reachable);
    assert_eq!(models_probe_step(401), ProbeStep::InvalidKey);
    assert_eq!(models_probe_step(404), ProbeStep::TryChat);
    match chat_probe_error(401, "401", None) {
        Some(LLMError::ApiError(m)) => assert_eq!(m, "Invalid API key"),
        other => panic!("unexpected {:?}", other),
    }
    match chat_probe_error(403, "403 Forbidden", Some("no")) {
        Some(LLMError::ApiError(m)) => assert_eq!(m, "API error 403 Forbidden: no"),
        other => panic!("unexpected {:?}", other),
    }
    assert!(chat_probe_error(200, "200", None).is_none());
    assert!(matches!(probe_transport_error(true, true, "x"), LLMError::Timeout(10)));
    match probe_transport_error(false, true, "refused") {
        LLMError::ApiError(m) => assert_eq!(m, "Connection failed: refused"),
        other => panic!("unexpected {:?}", other),
    }
    let ok = connection_report(&Ok(()), 15);
    assert!(ok.success);
    assert_eq!(ok.message, "Connection successful");
    assert_eq!(ok.latency_ms, Some(15));
    let bad = connection_report(&Err(LLMError::Timeout(10)), 10001);
    assert!(!bad.success);
    assert_eq!(bad.message, "Connection failed: LLM timeout after 10s");
}

#[test]
fn analysis_protocol_runs() {
    let (s, step) = analyze_next(AnalyzeState::Idle, AnalyzeEvent::Begin { enabled: false, force_refresh: false });
    assert_eq!(s, AnalyzeState::Done);
    assert!(matches!(step, AnalyzeStep::Fail { error: LLMError::Disabled }));

    let (s, step) = analyze_next(AnalyzeState::Idle, AnalyzeEvent::Begin { enabled: true, force_refresh: false });
    assert!(matches!(step, AnalyzeStep::LoadProvider));
    let (s2, step) = analyze_next(s, AnalyzeEvent::Provider { found: false });
    assert_eq!(s2, AnalyzeState::Done);
    assert!(matches!(step, AnalyzeStep::Fail { error: LLMError::NoProviderConfigured }));
    let (s, step) = analyze_next(s, AnalyzeEvent::Provider { found: true });
    assert!(matches!(step, AnalyzeStep::LookupCache));
    let (hit, step) = analyze_next(s, AnalyzeEvent::Cache { hit: true });
    assert_eq!(hit, AnalyzeState::Done);
    assert!(matches!(step, AnalyzeStep::ReturnCached));
    let (s, step) = analyze_next(s, AnalyzeEvent::Cache { hit: false });
    assert!(matches!(step, AnalyzeStep::OpenSession));
    let (s, step) = analyze_next(s, AnalyzeEvent::SessionOpened);
    assert!(matches!(step, AnalyzeStep::CallModel));
    let (done, step) = analyze_next(s, AnalyzeEvent::ModelReplied { outcome: Ok(()) });
    assert_eq!(done, AnalyzeState::Done);
    assert!(matches!(step, AnalyzeStep::RecordSuccess));
    let (_, step) = analyze_next(s, AnalyzeEvent::ModelReplied { outcome: Err(LLMError::Timeout(5)) });
    assert!(matches!(step, AnalyzeStep::RecordFailure { error: LLMError::Timeout(5) }));
}

#[test]
fn forced_refresh_skips_cache() {
    let (s, _) = analyze_next(AnalyzeState::Idle, AnalyzeEvent::Begin { enabled: true, force_refresh: true });
    let (s, step) = analyze_next(s, AnalyzeEvent::Provider { found: true });
    assert!(matches!(step, AnalyzeStep::OpenSession));
    let (same, step) = analyze_next(s, AnalyzeEvent::Cache { hit: true });
    assert_eq!(same, s);
    assert!(matches!(step, AnalyzeStep::Ignore));
}

#[test]
fn provider_store_rules() {
    let none = ProviderChanges {
        display_name: false,
        api_base: false,
        model_name: false,
        api_key: false,
        max_tokens: false,
        temperature: false,
        timeout_seconds: false,
        priority: false,
        enabled: None,
    };
    assert_eq!(provider_update_sql(&none), "UPDATE llm_providers SET updated_at = CURRENT_TIMESTAMP WHERE id = ?");
    let some = ProviderChanges { api_base: true, temperature: true, enabled: Some(false), ..none };
    assert_eq!(
        provider_update_sql(&some),
        "UPDATE llm_providers SET updated_at = CURRENT_TIMESTAMP, api_base = ?, temperature = ?, enabled = ?, is_active = FALSE WHERE id = ?"
    );
    let on = ProviderChanges { enabled: Some(true), ..none };
    assert_eq!(provider_update_sql(&on), "UPDATE llm_providers SET updated_at = CURRENT_TIMESTAMP, enabled = ? WHERE id = ?");
    match check_provider_key(&Some("   ".into())) {
        Err(LLMError::ApiError(m)) => assert_eq!(m, "API key cannot be empty"),
        other => panic!("unexpected {:?}", other),
    }
    assert!(check_provider_key(&Some("sk".into())).is_ok());
    assert!(check_provider_key(&None).is_ok());
    assert!(needs_encryption(&Some("plain-key".into())));
    assert!(!needs_encryption(&None));
}

#[test]
fn sql_diag_keys_and_estimates() {
    assert_eq!(normalize_sql_whitespace("  SELECT *\n\tFROM  t  "), "SELECT * FROM t");
    assert_eq!(normalize_sql_whitespace(" \n "), "");
    let once = normalize_sql_whitespace("select\u{3000}a ,\n\n b  from t");
    assert_eq!(once, "select a , b from t");
    assert_eq!(normalize_sql_whitespace(&once), once);
    assert_eq!(sql_diag_cache_key("abc"), "sqldiag:abc");
    assert_eq!(no_explain_hash(), "none");
    assert_eq!(estimated_rows_of(&EstimatedRowsValue::Unsigned(10000000)), Some(10000000));
    assert_eq!(estimated_rows_of(&EstimatedRowsValue::Signed(-1)), None);
    assert_eq!(estimated_rows_of(&EstimatedRowsValue::Signed(5)), Some(5));
    assert_eq!(estimated_rows_of(&EstimatedRowsValue::Text("unknown".into())), None);
    assert_eq!(estimated_rows_of(&EstimatedRowsValue::Text("+42".into())), Some(42));
    assert_eq!(estimated_rows_of(&EstimatedRowsValue::Null), None);
}

use stellar::ai::ChatMessage;
use stellar::ai::ToolCallDelta;
use stellar::llm::repository::{
    activation, check_new_provider_key, deletion_check, require_provider_row, ProviderFlags,
};

#[test]
fn provider_lifecycle_checks() {
    assert!(check_new_provider_key("  ").is_err());
    assert!(check_new_provider_key("sk").is_ok());
    match deletion_check(4, None) {
        Err(LLMError::ProviderNotFound(m)) => assert_eq!(m, "4"),
        other => panic!("unexpected {:?}", other),
    }
    match deletion_check(4, Some(true)) {
        Err(LLMError::ApiError(m)) => assert_eq!(m, "Cannot delete active provider. Deactivate it first."),
        other => panic!("unexpected {:?}", other),
    }
    assert!(deletion_check(4, Some(false)).is_ok());
    assert!(require_provider_row(9, 0).is_err());
    assert!(require_provider_row(9, 1).is_ok());
}

#[test]
fn chat_message_wire_content_rule() {
    let call = ToolCallDelta { id: "c".into(), name: "n".into(), arguments: "{}".into() };
    let m = ChatMessage { role: "assistant".into(), content: String::new(), tool_calls: Some(vec![call]), tool_call_id: None };
    assert!(!m.emits_content());
    let plain = ChatMessage { role: "user".into(), content: String::new(), tool_calls: None, tool_call_id: None };
    assert!(plain.emits_content());
}

use stellar::llm::merger::AggregatedDiagnostic;
use stellar::llm::root_causes::{root_cause_drafts, ConfidenceOf, RootCauseClaim};

fn agg(rule_id: &str, message: &str, reason: &str) -> AggregatedDiagnostic {
    AggregatedDiagnostic {
        rule_id: rule_id.to_string(),
        severity: "warning".to_string(),
        message: message.to_string(),
        reason: reason.to_string(),
        node_count: 1,
        affected_nodes: vec![],
        suggestions: vec![],
    }
}

#[test]
fn root_causes_merge_rules_and_claims() {
    let rules = vec![agg("R1", "m1", "w1"), agg("R2", "m2", "w2"), agg("R2", "m2b", "w2b"), agg("R3", "m3", "w3")];
    let claims = vec![
        RootCauseClaim {
            root_cause_id: "rc1".into(),
            description: "skewed join".into(),
            evidence: vec!["e".into()],
            symptoms: vec!["R1".into(), "X".into()],
            is_implicit: false,
        },
        RootCauseClaim {
            root_cause_id: "rule_R3".into(),
            description: "same id as a rule entry".into(),
            evidence: vec![],
            symptoms: vec![],
            is_implicit: true,
        },
    ];
    let d = root_cause_drafts(&rules, &claims);
    assert_eq!(d.len(), 3);
    assert_eq!(d[0].id, "rc1");
    assert_eq!(d[0].related_rule_ids, vec!["R1".to_string()]);
    assert_eq!(d[0].source, "both");
    assert_eq!(d[0].confidence, ConfidenceOf::Claim(0));
    assert_eq!(d[1].source, "llm");
    assert_eq!(d[1].confidence, ConfidenceOf::Claim(1));
    assert_eq!(d[2].id, "rule_R2");
    assert_eq!(d[2].description, "m2");
    assert_eq!(d[2].evidence, vec!["w2".to_string()]);
    assert_eq!(d[2].source, "rule");
    assert_eq!(d[2].confidence, ConfidenceOf::Rule);
    assert!(d[2].symptoms.is_empty());
}

#[test]
fn activation_leaves_one_provider_active() {
    let providers = vec![
        ProviderFlags { id: 1, enabled: true, is_active: true },
        ProviderFlags { id: 2, enabled: true, is_active: false },
        ProviderFlags { id: 3, enabled: false, is_active: false },
    ];
    let after = activation(&providers, 2).unwrap();
    let active: Vec<i64> = after.iter().filter(|p| p.is_active).map(|p| p.id).collect();
    assert_eq!(active, vec![2]);
    assert_eq!(after.len(), 3);
    match activation(&providers, 3) {
        Err(LLMError::ProviderNotFound(m)) => assert_eq!(m, "3"),
        other => panic!("unexpected {:?}", other),
    }
    match activation(&providers, 9) {
        Err(LLMError::ProviderNotFound(m)) => assert_eq!(m, "9"),
        other => panic!("unexpected {:?}", other),
    }
}
