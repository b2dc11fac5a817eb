use stellar::agent::actions::{
    action_statement, check_cancel, check_claim, check_confirm, connection_failed_text,
    executed_text, execution_failed_text, execution_status, should_expire, validate_params,
    ActionParams, ActionStatus,
};

fn query_params(q: &str) -> ActionParams {
    ActionParams { query_id: Some(q.to_string()), key: None, value: None, scope: None }
}

fn var_params(scope: Option<&str>, key: &str, value: &str) -> ActionParams {
    ActionParams {
        query_id: None,
        key: Some(key.to_string()),
        value: Some(value.to_string()),
        scope: scope.map(|s| s.to_string()),
    }
}

fn no_params() -> ActionParams {
    ActionParams { query_id: None, key: None, value: None, scope: None }
}

#[test]
fn kill_query_valid() {
    let p = query_params("8b1d0e5a-1234-4abc-9def-0123456789ab");
    assert_eq!(
        validate_params("kill_query", &p).unwrap(),
        "KILL QUERY 8b1d0e5a-1234-4abc-9def-0123456789ab"
    );
}

#[test]
fn kill_query_rejects_injection() {
    let long = "a".repeat(65);
    for bad in [
        "x; DROP TABLE agent_actions; --",
        "8b1d0e5a-1234-4abc-9def-0123456789ab' OR '1'='1",
        "",
        "abc",
        long.as_str(),
    ] {
        let p = query_params(bad);
        assert!(validate_params("kill_query", &p).is_err(), "should reject {:?}", bad);
    }
}

#[test]
fn update_variable_valid_and_rejects() {
    let ok = var_params(Some("GLOBAL"), "query_queue_concurrency_limit", "10");
    assert_eq!(
        validate_params("update_variable", &ok).unwrap(),
        "SET GLOBAL query_queue_concurrency_limit = 10"
    );
    for bad in [
        var_params(None, "k", "10; DROP TABLE x;"),
        var_params(None, "k'=1--", "1"),
        var_params(None, "k", "''"),
        var_params(Some("evil"), "k", "1"),
        var_params(None, "", "1"),
    ] {
        assert!(validate_params("update_variable", &bad).is_err(), "should reject {:?}", bad);
    }
}

#[test]
fn unknown_kind_rejected() {
    assert!(validate_params("drop_table", &no_params()).is_err());
}

#[test]
fn update_variable_defaults_to_global_and_accepts_session() {
    let p = var_params(None, "pipeline_dop", "8");
    assert_eq!(validate_params("update_variable", &p).unwrap(), "SET GLOBAL pipeline_dop = 8");
    let s = var_params(Some("Session"), "pipeline_dop", "8");
    assert_eq!(validate_params("update_variable", &s).unwrap(), "SET SESSION pipeline_dop = 8");
}

#[test]
fn kill_query_trims_and_accepts_plain_32_hex() {
    let p = query_params("  0123456789abcdef0123456789ABCDEF ");
    assert_eq!(
        validate_params("kill_query", &p).unwrap(),
        "KILL QUERY 0123456789abcdef0123456789ABCDEF"
    );
}

#[test]
fn confirm_is_single_shot() {
    assert!(check_confirm("pending", "2030-01-01 00:00:00", "2025-01-01 00:00:00").is_ok());
    let again = check_confirm("executed", "2030-01-01 00:00:00", "2025-01-01 00:00:00");
    assert_eq!(again.unwrap_err(), "动作已处于 executed 状态，不可重复确认（单次执行）");
}

#[test]
fn expired_action_is_refused() {
    let r = check_confirm("pending", "2025-01-01 00:00:00", "2025-01-02 00:00:00");
    assert_eq!(r.unwrap_err(), "动作已过期，不可执行");
    assert!(should_expire("pending", "2025-01-01 00:00:00", "2025-01-02 00:00:00"));
    assert!(!should_expire("executed", "2025-01-01 00:00:00", "2025-01-02 00:00:00"));
    assert!(!should_expire("pending", "2025-01-03 00:00:00", "2025-01-02 00:00:00"));
}

#[test]
fn cancel_only_pending() {
    assert!(check_cancel("pending").is_ok());
    assert_eq!(check_cancel("failed").unwrap_err(), "动作已处于 failed 状态，不可取消");
}

#[test]
fn execution_and_claim_outcomes() {
    let (s, t) = execution_status(&Ok("done".to_string()));
    assert_eq!(s, ActionStatus::Executed);
    assert_eq!(t, "done");
    let (s, t) = execution_status(&Err("boom".to_string()));
    assert_eq!(s, ActionStatus::Failed);
    assert_eq!(t, "boom");
    assert!(check_claim(1).is_ok());
    assert_eq!(check_claim(0).unwrap_err(), "动作已被其他会话处理");
    assert_eq!(ActionStatus::Pending.as_str(), "pending");
}

#[test]
fn execution_statements_and_results() {
    let p = query_params(" 8b1d0e5a-1234 ");
    assert_eq!(action_statement("kill_query", &p).unwrap(), "KILL QUERY '8b1d0e5a-1234'");
    let v = var_params(Some("session"), " query_timeout ", " 300 ");
    assert_eq!(action_statement("update_variable", &v).unwrap(), "SET SESSION query_timeout = 300");
    let d = var_params(None, "k", "v");
    assert_eq!(action_statement("update_variable", &d).unwrap(), "SET GLOBAL k = v");
    assert_eq!(action_statement("drop_table", &no_params()).unwrap_err(), "未知动作类型: drop_table");
    assert_eq!(executed_text("SET GLOBAL k = v"), "执行成功: SET GLOBAL k = v");
    assert_eq!(execution_failed_text("KILL QUERY 'x'", "denied"), "执行失败: KILL QUERY 'x'（denied）");
    assert_eq!(connection_failed_text("timeout"), "获取集群连接失败: timeout");
}
