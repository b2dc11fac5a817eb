use stellar::audit::ClusterType;
use stellar::llm::credentials::LlmCredentialCipher;
use stellar::llm::merger::{
    aggregated_diagnostic_to_llm, diagnostic_to_llm, AggregatedDiagnostic, DiagnosticResult, ThresholdInfo,
    LLMRecommendation, ResultMerger,
};
use stellar::llm::models::{LLMError, LLMScenario, SessionStatus};
use stellar::llm::prompts::{
    build_issue_focused_prompt, build_session_vars_prompt, build_strict_rules_prompt,
    build_system_prompt, build_table_type_prompt, determine_connector_type, determine_table_type,
    get_connector_hints, get_valid_params_prompt, sort_settings, ScanTable,
};

#[test]
fn test_llm_scenario_as_str() {
    assert_eq!(LLMScenario::RootCauseAnalysis.as_str(), "root_cause_analysis");
    assert_eq!(LLMScenario::SqlOptimization.as_str(), "sql_optimization");
}

#[test]
fn test_session_status_conversion() {
    assert_eq!(SessionStatus::Pending.as_str(), "pending");
    assert_eq!(SessionStatus::parse_status("completed"), SessionStatus::Completed);
    assert_eq!(SessionStatus::parse_status("unknown"), SessionStatus::Failed);
}

#[test]
fn test_llm_error_is_retryable() {
    assert!(LLMError::Timeout(30).is_retryable());
    assert!(LLMError::RateLimited(60).is_retryable());
    assert!(LLMError::ApiError("test".to_string()).is_retryable());
    assert!(!LLMError::Disabled.is_retryable());
    assert!(!LLMError::NoProviderConfigured.is_retryable());
}

#[test]
fn session_status_roundtrip() {
    for s in [
        SessionStatus::Pending,
        SessionStatus::Processing,
        SessionStatus::Completed,
        SessionStatus::Failed,
    ] {
        assert_eq!(SessionStatus::parse_status(s.as_str()), s);
    }
}

#[test]
fn test_determine_table_type() {
    assert_eq!(determine_table_type("default_catalog.db.table"), "internal");
    assert_eq!(determine_table_type("db.table"), "internal");
    assert_eq!(determine_table_type("table"), "internal");
    assert_eq!(determine_table_type("hive_catalog.db.table"), "external");
    assert_eq!(determine_table_type("iceberg_cat.db.table"), "external");
    assert_eq!(determine_table_type("my_lake.schema.table"), "external");
}

#[test]
fn table_type_catalog_case_insensitive() {
    assert_eq!(determine_table_type("DEFAULT_CATALOG.db.t"), "internal");
    assert_eq!(determine_table_type("a.b.c.d"), "external");
}

fn metrics(entries: &[(&str, &str)]) -> Vec<(String, String)> {
    entries.iter().map(|(k, v)| (k.to_string(), v.to_string())).collect()
}

#[test]
fn test_determine_connector_type() {
    assert_eq!(determine_connector_type(&metrics(&[("IcebergV2FormatTimer", "100ms")])), "iceberg");
    assert_eq!(
        determine_connector_type(&metrics(&[("ORC", ""), ("TotalStripeSize", "1GB")])),
        "hive"
    );
    assert_eq!(determine_connector_type(&metrics(&[("HudiScanTimer", "50ms")])), "hudi");
    assert_eq!(determine_connector_type(&metrics(&[("JDBCReadRows", "1000")])), "jdbc");
}

#[test]
fn connector_type_priority_and_unknown() {
    assert_eq!(
        determine_connector_type(&metrics(&[("HudiScanTimer", ""), ("DeleteFileBuildTime", "")])),
        "iceberg"
    );
    assert_eq!(determine_connector_type(&metrics(&[("DeletionVectorRows", "")])), "deltalake");
    assert_eq!(determine_connector_type(&metrics(&[("read_es_docs", "")])), "es");
    assert_eq!(determine_connector_type(&metrics(&[("RowsRead", "1")])), "unknown");
    assert_eq!(determine_connector_type(&[]), "unknown");
}

fn agg(rule: &str, suggestions: &[&str]) -> AggregatedDiagnostic {
    AggregatedDiagnostic {
        rule_id: rule.to_string(),
        severity: "warning".to_string(),
        message: format!("{} message", rule),
        reason: format!("{} reason", rule),
        node_count: 2,
        affected_nodes: vec!["Fragment 0/Pipeline 1/OLAP_SCAN".to_string()],
        suggestions: suggestions.iter().map(|s| s.to_string()).collect(),
    }
}

fn rec(priority: u32, action: &str) -> LLMRecommendation {
    LLMRecommendation {
        priority,
        action: action.to_string(),
        expected_improvement: "faster".to_string(),
        sql_example: Some("SET x=1;".to_string()),
    }
}

#[test]
fn normalize_action_keeps_lowercase_alphanumerics() {
    assert_eq!(ResultMerger::normalize_action("Enable Spill!"), "enablespill");
    assert_eq!(ResultMerger::normalize_action("开启 DataCache。"), "开启datacache");
}

#[test]
fn merge_recommendations_dedups_and_orders() {
    let diags = vec![agg("S001", &["enable spill", "Add partition filter"]), agg("G003", &["Add Partition Filter"])];
    let recs = vec![rec(2, "Enable Spill"), rec(1, "Analyze table"), rec(3, "enable-spill")];
    let merged = ResultMerger::merge_recommendations(&diags, &recs);
    let actions: Vec<&str> = merged.iter().map(|m| m.action.as_str()).collect();
    assert_eq!(actions, vec!["Analyze table", "Enable Spill", "Add partition filter"]);
    assert_eq!(merged[1].source, "both");
    assert_eq!(merged[1].related_root_causes, vec!["S001".to_string()]);
    assert_eq!(merged[2].source, "rule");
    assert_eq!(merged[2].priority, 3);
    assert_eq!(merged[2].related_root_causes, vec!["S001".to_string(), "G003".to_string()]);
    assert!(!merged[2].is_root_cause_fix);
    assert!(merged[0].is_root_cause_fix);
}

#[test]
fn diagnostics_in_llm_shape() {
    let d = DiagnosticResult {
        rule_id: "S001".to_string(),
        severity: "warning".to_string(),
        node_path: "Fragment 1/HASH_JOIN".to_string(),
        plan_node_id: Some(4),
        message: "m".to_string(),
        reason: "r".to_string(),
        threshold_metadata: None,
    };
    let l = diagnostic_to_llm(&d);
    assert!(l.threshold_info.is_none());
    let with_threshold = DiagnosticResult {
        threshold_metadata: Some(ThresholdInfo {
            values: 3,
            source: "baseline".to_string(),
            sample_count: Some(120),
        }),
        ..d.clone()
    };
    let t = diagnostic_to_llm(&with_threshold).threshold_info.unwrap();
    assert_eq!((t.values, t.source.as_str(), t.sample_count), (3, "baseline", Some(120)));
    assert_eq!(l.operator, "HASH_JOIN");
    assert_eq!(l.plan_node_id, Some(4));
    assert_eq!(l.evidence, vec![("reason".to_string(), "r".to_string())]);

    let a = aggregated_diagnostic_to_llm(&agg("G003", &[]));
    assert_eq!(a.operator, "OLAP_SCAN");
    assert_eq!(a.plan_node_id, None);
    assert_eq!(a.evidence[1], ("affected_nodes".to_string(), "2 nodes".to_string()));
    let mut none = agg("G003", &[]);
    none.affected_nodes.clear();
    assert_eq!(aggregated_diagnostic_to_llm(&none).operator, "unknown");
}

#[test]
fn session_vars_prompt_sorts_and_splits() {
    assert_eq!(build_session_vars_prompt(&[]), "");
    let vars = metrics(&[
        ("enable_spill", "true"),
        ("query_timeout", "600"),
        ("enable_scan_datacache", "1"),
        ("enable_query_cache", "false"),
        ("pipeline_dop", "8"),
    ]);
    let p = build_session_vars_prompt(&vars);
    assert!(p.contains("`enable_scan_datacache`, `enable_spill`\n"));
    assert!(p.contains("(可建议开启)\n`enable_query_cache`\n"));
    assert!(p.contains("- `pipeline_dop` = `8`\n- `query_timeout` = `600`\n"));
    assert!(p.ends_with("3. 违反以上规则将被视为严重错误!\n"));
}

#[test]
fn settings_sorted_by_name() {
    let sorted = sort_settings(&metrics(&[("b", "1"), ("a", "2"), ("c", "3"), ("a0", "4")]));
    let names: Vec<&str> = sorted.iter().map(|p| p.0.as_str()).collect();
    assert_eq!(names, vec!["a", "a0", "b", "c"]);
}

#[test]
fn issue_prompt_lists_at_most_five() {
    assert!(build_issue_focused_prompt(&[]).contains("规则引擎未发现明显问题"));
    let diags: Vec<_> = (0..7)
        .map(|i| {
            let mut d = aggregated_diagnostic_to_llm(&agg(&format!("R{}", i), &[]));
            d.severity = "critical".to_string();
            d
        })
        .collect();
    let p = build_issue_focused_prompt(&diags);
    assert!(p.contains("- **R4** [critical]: R4 message\n"));
    assert!(!p.contains("R5"));
    assert!(p.contains("隐式问题"));
}

#[test]
fn table_prompt_groups_by_connector() {
    let scans = vec![
        ScanTable {
            table_name: "default_catalog.db.orders".to_string(),
            table_type: "internal".to_string(),
            connector_type: None,
        },
        ScanTable {
            table_name: "ice.db.events".to_string(),
            table_type: "external".to_string(),
            connector_type: Some("iceberg".to_string()),
        },
        ScanTable {
            table_name: "ice.db.clicks".to_string(),
            table_type: "external".to_string(),
            connector_type: Some("iceberg".to_string()),
        },
    ];
    let p = build_table_type_prompt(&scans, ClusterType::StarRocks);
    assert!(p.contains("### StarRocks 内表 (1 张)\n表名: default_catalog.db.orders\n"));
    assert!(p.contains("### Iceberg 外表 (2 张)\n表名: ice.db.events, ice.db.clicks\n"));
    assert!(p.contains("- 启用缓存: `SET enable_scan_datacache=true;`\n- 利用 Iceberg 的 hidden partitioning"));
}

#[test]
fn connector_hints_for_jdbc_and_unknown() {
    let j = get_connector_hints("jdbc", ClusterType::Doris);
    assert_eq!(j.name, "JDBC");
    assert_eq!(j.cache_cmd, "");
    let u = get_connector_hints("odps", ClusterType::Doris);
    assert_eq!(u.name, "odps");
    assert_eq!(u.cache_cmd, "SET enable_file_cache=true;");
    assert_eq!(u.hints, vec!["分区裁剪", "谓词下推"]);
}

#[test]
fn system_prompt_parts_in_order() {
    let p = build_system_prompt(ClusterType::Doris, None, &[], &[]);
    assert!(p.starts_with("你是一位拥有20年以上的 Apache Doris OLAP 数据库的高级性能专家。"));
    assert!(p.contains(&build_strict_rules_prompt("Doris")));
    assert!(p.contains("批判性思维"));
    assert!(p.contains(get_valid_params_prompt(ClusterType::Doris)));
    assert!(p.contains("enable_file_cache"));
    assert!(p.contains("root_causes"));
    assert!(p.contains("sql_example"));
    assert!(!p.contains("本次查询涉及的表"));
}

#[test]
fn credentials_roundtrip_and_blank_key() {
    let c = LlmCredentialCipher::new("material");
    let sealed = c.encrypt("sk-123").unwrap();
    assert!(LlmCredentialCipher::is_encrypted(&sealed));
    assert_ne!(sealed, "sk-123");
    assert_eq!(c.decrypt(&sealed).unwrap(), "sk-123");
    let other = LlmCredentialCipher::new("other");
    assert!(other.decrypt(&sealed).is_err());
    let blank = LlmCredentialCipher::new("   ");
    assert!(matches!(blank.encrypt("x"), Err(LLMError::CredentialEncryptionUnavailable)));
    assert!(c.decrypt("plain").is_err());
    assert!(!LlmCredentialCipher::is_encrypted("plain"));
}

fn api_error(r: Result<String, LLMError>) -> String {
    match r {
        Err(LLMError::ApiError(m)) => m,
        other => panic!("expected an API error: {:?}", other.map_err(|e| e.describe())),
    }
}

#[test]
fn credential_decryption_failures() {
    let c = LlmCredentialCipher::new("material");
    assert_eq!(api_error(c.decrypt("plain")), "Unsupported encrypted LLM API key format");
    assert_eq!(api_error(c.decrypt("v1:***")), "Invalid encrypted LLM API key");
    assert_eq!(api_error(c.decrypt("v1:AAAA")), "Invalid encrypted LLM API key");
    let sealed = c.encrypt("sk-123").unwrap();
    let other = LlmCredentialCipher::new("other");
    assert_eq!(api_error(other.decrypt(&sealed)), "Unable to decrypt LLM API key");
    let blank = LlmCredentialCipher::new("");
    assert!(matches!(blank.decrypt(&sealed), Err(LLMError::CredentialEncryptionUnavailable)));
}
