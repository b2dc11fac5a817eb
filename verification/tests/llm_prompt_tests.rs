use stellar::audit::ClusterType;
use stellar::llm::merger::DiagnosticForLLM;
use stellar::llm::prompts::{build_system_prompt, ScanTable};

fn scan(name: &str, ty: &str, connector: &str) -> ScanTable {
    ScanTable {
        table_name: name.to_string(),
        table_type: ty.to_string(),
        connector_type: Some(connector.to_string()),
    }
}

#[test]
fn test_prompt_with_internal_tables() {
    let scans = vec![scan("default_catalog.db.orders", "internal", "native")];
    let prompt = build_system_prompt(ClusterType::StarRocks, Some(&scans), &[], &[]);
    assert!(prompt.contains("StarRocks 内表"), "Should mention internal tables");
    assert!(prompt.contains("ANALYZE TABLE"), "Should suggest ANALYZE for internal tables");
    assert!(prompt.contains("分桶键"), "Should mention bucket key optimization");
    assert!(prompt.contains("批判性思维"), "Should include critical thinking section");
    assert!(prompt.contains("自我批评"), "Should mention self-criticism");
    assert!(prompt.contains("禁止使用的参数"), "Should list forbidden parameters");
    assert!(prompt.contains("enable_short_key_index"), "Should blacklist fake params");
}

#[test]
fn test_prompt_with_iceberg_tables() {
    let scans = vec![scan("iceberg_catalog.db.events", "external", "iceberg")];
    let prompt = build_system_prompt(ClusterType::StarRocks, Some(&scans), &[], &[]);
    assert!(prompt.contains("Iceberg 外表"), "Should mention Iceberg tables");
    assert!(prompt.contains("rewrite_data_files"), "Should suggest Iceberg file compaction");
    assert!(prompt.contains("DataCache"), "Should suggest DataCache for external tables");
    assert!(
        prompt.contains("不能用 ALTER TABLE 改分桶"),
        "Should warn about external table limitations"
    );
}

#[test]
fn test_prompt_with_existing_session_vars() {
    let vars = vec![
        ("enable_scan_datacache".to_string(), "true".to_string()),
        ("enable_spill".to_string(), "true".to_string()),
        ("parallel_fragment_exec_instance_num".to_string(), "16".to_string()),
    ];
    let prompt = build_system_prompt(ClusterType::StarRocks, None, &[], &vars);
    assert!(prompt.contains("enable_scan_datacache"), "Should show current datacache setting");
    assert!(prompt.contains("enable_spill"), "Should show current spill setting");
    assert!(prompt.contains("不要重复建议"), "Should warn about duplicate suggestions");
}

#[test]
fn test_prompt_with_diagnostics() {
    let diagnostics = vec![
        DiagnosticForLLM {
            rule_id: "SCAN_HIGH_FILTER_RATIO".to_string(),
            severity: "warning".to_string(),
            operator: "OLAP_SCAN".to_string(),
            plan_node_id: Some(1),
            message: "Filter ratio > 80%, consider adding partition".to_string(),
            evidence: vec![],
            threshold_info: None,
        },
        DiagnosticForLLM {
            rule_id: "JOIN_SKEW".to_string(),
            severity: "critical".to_string(),
            operator: "HASH_JOIN".to_string(),
            plan_node_id: Some(5),
            message: "Data skew detected in join".to_string(),
            evidence: vec![],
            threshold_info: None,
        },
    ];
    let prompt = build_system_prompt(ClusterType::StarRocks, None, &diagnostics, &[]);
    assert!(prompt.contains("SCAN_HIGH_FILTER_RATIO"), "Should include rule IDs");
    assert!(prompt.contains("JOIN_SKEW"), "Should include all diagnostics");
    assert!(prompt.contains("规则引擎已识别的问题"), "Should have diagnostics section");
    assert!(prompt.contains("隐式问题"), "Should guide to find hidden issues");
}

#[test]
fn test_prompt_includes_json_format() {
    let prompt = build_system_prompt(ClusterType::StarRocks, None, &[], &[]);
    assert!(prompt.contains("root_causes"), "Should specify root_causes field");
    assert!(prompt.contains("recommendations"), "Should specify recommendations field");
    assert!(prompt.contains("sql_example"), "Should require sql_example");
    assert!(prompt.contains("JSON"), "Should mention JSON format");
}
