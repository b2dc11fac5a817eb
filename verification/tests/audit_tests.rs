use stellar::audit::{
    audit_query_user_message, extract_table_refs, is_ignored_table, query_sql_result,
    query_sql_statement, row_field, AuditLogConfig, AuditLogService, ClusterType,
};

#[test]
fn extract_two_part_table() {
    let tables = extract_table_refs(
        "select * from ieg_dwd.st_game_detail_assess order by update_time desc limit 1000",
        "",
        "default_catalog",
    );
    assert_eq!(tables, vec![("ieg_dwd".to_string(), "st_game_detail_assess".to_string())]);
}

#[test]
fn extract_quoted_three_part_table() {
    let tables = extract_table_refs(
        "select * from `iceberg`.`ad_gl`.`dwd_ads_dw_all_cnvt_bjht_rt_inc_h` where dayno >= 20260907",
        "",
        "hive",
    );
    assert_eq!(
        tables,
        vec![("iceberg.ad_gl".to_string(), "dwd_ads_dw_all_cnvt_bjht_rt_inc_h".to_string())]
    );
}

#[test]
fn extract_quoted_db_table_and_join() {
    let tables = extract_table_refs(
        "SELECT COUNT(*) FROM `ib_nebula`.`dwd_meituan_launch_from_all_version_inc_d` JOIN other_db.dim_user u",
        "ib_nebula",
        "default_catalog",
    );
    assert_eq!(
        tables,
        vec![
            ("ib_nebula".to_string(), "dwd_meituan_launch_from_all_version_inc_d".to_string()),
            ("other_db".to_string(), "dim_user".to_string()),
        ]
    );
}

#[test]
fn extract_skips_heartbeat_and_information_schema() {
    assert!(extract_table_refs("select @@version_comment limit 1", "", "").is_empty());
    assert!(extract_table_refs("select * from information_schema.tables", "", "").is_empty());
    assert!(is_ignored_table("information_schema", "tables"));
}

#[test]
fn extract_uses_fallback_db_for_single_name() {
    let tables = extract_table_refs("select * from fact_orders where dt=1", "sales", "");
    assert_eq!(tables, vec![("sales".to_string(), "fact_orders".to_string())]);
}

#[test]
fn extract_deduplicates_repeated_tables() {
    let tables = extract_table_refs(
        "select * from db.t1 join db.t1 on 1=1 join db.t2 on 1=1",
        "",
        "default_catalog",
    );
    assert_eq!(
        tables,
        vec![("db".to_string(), "t1".to_string()), ("db".to_string(), "t2".to_string())]
    );
}

#[test]
fn audit_error_missing_table_is_explicit() {
    let err = "SQL execution failed: Getting analyzing error. Detail message: Unknown table 'starrocks_audit_db__.definitely_missing_audit_tbl'.";
    assert_eq!(
        audit_query_user_message(err, "starrocks_audit_db__.starrocks_audit_tbl__"),
        "集群未配置审计日志表 starrocks_audit_db__.starrocks_audit_tbl__"
    );
}

#[test]
fn audit_error_unknown_database_is_explicit() {
    let err = "Getting analyzing error. Detail message: Unknown database 'starrocks_audit_db__'";
    assert_eq!(
        audit_query_user_message(err, "starrocks_audit_db__.starrocks_audit_tbl__"),
        "集群未配置审计日志表 starrocks_audit_db__.starrocks_audit_tbl__"
    );
}

#[test]
fn audit_error_denied_and_timeout() {
    let denied = "Access denied; you need the SELECT privilege(s)";
    assert_eq!(audit_query_user_message(denied, "t"), "监控账号无权读取审计日志表 t");
    let timeout = "connection timed out";
    assert_eq!(audit_query_user_message(timeout, "t"), "查询审计日志超时");
}

#[test]
fn audit_error_connection_and_generic() {
    assert_eq!(audit_query_user_message("Connect refused", "t"), "无法连接集群查询审计日志");
    assert_eq!(audit_query_user_message("boom", "t"), "查询审计日志失败");
}

#[test]
fn audit_table_by_cluster_type() {
    let svc = AuditLogService::new(AuditLogConfig {
        database: "starrocks_audit_db__".to_string(),
        table: "starrocks_audit_tbl__".to_string(),
    });
    assert_eq!(
        svc.audit_table_name(ClusterType::StarRocks),
        "starrocks_audit_db__.starrocks_audit_tbl__"
    );
    assert_eq!(svc.audit_table_name(ClusterType::Doris), "__internal_schema.audit_log");
    let f = svc.get_audit_config(ClusterType::Doris);
    assert_eq!(f.time_field, "time");
    assert_eq!(f.is_query_field, "is_query");
}

#[test]
fn row_field_last_column_wins_and_missing_is_empty() {
    let cols = vec!["a".to_string(), "b".to_string(), "a".to_string()];
    let row = vec!["1".to_string(), "2".to_string(), "3".to_string()];
    assert_eq!(row_field(&cols, &row, "a"), "3");
    assert_eq!(row_field(&cols, &row, "b"), "2");
    assert_eq!(row_field(&cols, &row, "c"), "");
    assert_eq!(row_field(&cols, &row[..1], "b"), "");
}

#[test]
fn query_sql_statement_checks_id() {
    assert!(query_sql_statement(ClusterType::StarRocks, "t", "timestamp", "ab' OR 1=1").is_err());
    assert!(query_sql_statement(ClusterType::StarRocks, "t", "timestamp", "").is_err());
    assert_eq!(
        query_sql_statement(ClusterType::Doris, "__internal_schema.audit_log", "time", "ab-12")
            .unwrap(),
        "SELECT `stmt`, COALESCE(`db`, '') AS `database` FROM __internal_schema.audit_log WHERE `query_id` = 'ab-12' ORDER BY `time` DESC LIMIT 1"
    );
}

#[test]
fn query_sql_result_first_row() {
    let cols = vec!["stmt".to_string(), "database".to_string()];
    let rows = vec![vec!["select 1".to_string(), "db1".to_string()]];
    assert_eq!(
        query_sql_result(&cols, &rows, "q1").unwrap(),
        ("select 1".to_string(), "db1".to_string())
    );
    let empty: Vec<Vec<String>> = Vec::new();
    assert_eq!(
        query_sql_result(&cols, &empty, "q1").unwrap_err(),
        "审计日志中找不到该查询的 SQL（query_id=q1，可能已超出保留期）"
    );
}
