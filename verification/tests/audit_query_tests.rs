use stellar::audit::{
    aggregate_table_access, slow_queries_sql_doris, slow_queries_sql_starrocks,
    slow_query_from_row, top_access_sql, top_tables_by_access, SLOW_SQL_DORIS_0, SLOW_SQL_DORIS_1,
    SLOW_SQL_DORIS_2, SLOW_SQL_DORIS_3, SLOW_SQL_DORIS_4, SLOW_SQL_DORIS_5, SLOW_SQL_DORIS_6,
    SLOW_SQL_DORIS_7, SLOW_SQL_DORIS_8, SLOW_SQL_STARROCKS_0, SLOW_SQL_STARROCKS_1,
    SLOW_SQL_STARROCKS_2, SLOW_SQL_STARROCKS_3, SLOW_SQL_STARROCKS_4, SLOW_SQL_STARROCKS_5,
    SLOW_SQL_STARROCKS_6, SLOW_SQL_STARROCKS_7, SLOW_SQL_STARROCKS_8, TOP_ACCESS_SQL_0,
    TOP_ACCESS_SQL_1, TOP_ACCESS_SQL_2, TOP_ACCESS_SQL_3, TOP_ACCESS_SQL_4, TOP_ACCESS_SQL_5,
    TOP_ACCESS_SQL_6,
};

fn strings(v: &[&str]) -> Vec<String> {
    v.iter().map(|s| s.to_string()).collect()
}

#[test]
fn access_query_text() {
    let q = top_access_sql("timestamp", "audit.tbl", 24, "isQuery", "audit_tbl");
    let expected = [
        TOP_ACCESS_SQL_0, "timestamp", TOP_ACCESS_SQL_1, "audit.tbl", TOP_ACCESS_SQL_2,
        "timestamp", TOP_ACCESS_SQL_3, "24", TOP_ACCESS_SQL_4, "isQuery", TOP_ACCESS_SQL_5,
        "audit_tbl", TOP_ACCESS_SQL_6,
    ]
    .concat();
    assert_eq!(q, expected);
}

#[test]
fn slow_query_texts() {
    let s = slow_queries_sql_starrocks("audit.tbl", "timestamp", 6, "queryTime", 1000, "isQuery", 50);
    let expected = [
        SLOW_SQL_STARROCKS_0, "audit.tbl", SLOW_SQL_STARROCKS_1, "timestamp", SLOW_SQL_STARROCKS_2,
        "6", SLOW_SQL_STARROCKS_3, "queryTime", SLOW_SQL_STARROCKS_4, "1000",
        SLOW_SQL_STARROCKS_5, "isQuery", SLOW_SQL_STARROCKS_6, "queryTime", SLOW_SQL_STARROCKS_7,
        "50", SLOW_SQL_STARROCKS_8,
    ]
    .concat();
    assert_eq!(s, expected);
    let d = slow_queries_sql_doris("__internal_schema.audit_log", "time", 1, "query_time", 500, "is_query", 10);
    let expected = [
        SLOW_SQL_DORIS_0, "__internal_schema.audit_log", SLOW_SQL_DORIS_1, "time", SLOW_SQL_DORIS_2,
        "1", SLOW_SQL_DORIS_3, "query_time", SLOW_SQL_DORIS_4, "500", SLOW_SQL_DORIS_5,
        "is_query", SLOW_SQL_DORIS_6, "query_time", SLOW_SQL_DORIS_7, "10", SLOW_SQL_DORIS_8,
    ]
    .concat();
    assert_eq!(d, expected);
}

#[test]
fn slow_query_rows() {
    let cols = strings(&[
        "query_id", "user", "database", "duration_ms", "scan_rows", "state", "timestamp",
        "query_preview",
    ]);
    let row = strings(&["q1", "alice", "sales", "2500", "x", "EOF", "2024-01-01 00:00:00", "select 1"]);
    let q = slow_query_from_row(&cols, &row).unwrap();
    assert_eq!(q.query_id, "q1");
    assert_eq!(q.user, "alice");
    assert_eq!(q.database, "sales");
    assert_eq!(q.duration_ms, 2500);
    assert_eq!(q.scan_rows, None);
    assert_eq!(q.scan_bytes, None);
    assert_eq!(q.state, "EOF");
    assert_eq!(q.timestamp, "2024-01-01 00:00:00");
    assert_eq!(q.query_preview, "select 1");

    let short = strings(&["query_id", "user", "duration_ms"]);
    assert!(slow_query_from_row(&short, &strings(&["q", "u", "1"])).is_none());

    let no_state = strings(&["query_id", "user", "database", "duration_ms"]);
    let q = slow_query_from_row(&no_state, &strings(&["q", "u", "d", "slow"])).unwrap();
    assert_eq!(q.duration_ms, 0);
    assert_eq!(q.state, "UNKNOWN");
}

#[test]
fn aggregate_and_rank_table_reads() {
    let cols = strings(&["CATALOG", "db_name", "stmt", "user", "last_access"]);
    let rows = vec![
        strings(&["default_catalog", "", "select * from sales.orders", "alice", "2024-01-01 10:00:00"]),
        strings(&["default_catalog", "", "select * from ods.logs", "bob", "2024-01-01 09:00:00"]),
        strings(&["default_catalog", "", "select * from sales.orders", "bob", "2024-01-01 11:00:00"]),
        strings(&["default_catalog", "", "select * from sales.orders", "alice", "2024-01-01 08:00:00"]),
        strings(&["default_catalog", "", "", "carol", "2024-01-01 12:00:00"]),
    ];
    let aggs = aggregate_table_access(&cols, &rows);
    assert_eq!(aggs.len(), 2);
    assert_eq!((aggs[0].database.as_str(), aggs[0].table.as_str(), aggs[0].access_count), ("sales", "orders", 3));
    assert_eq!(aggs[0].last_access.as_deref(), Some("2024-01-01 11:00:00"));
    assert_eq!(aggs[0].users, strings(&["alice", "bob"]));
    assert_eq!((aggs[1].database.as_str(), aggs[1].table.as_str(), aggs[1].access_count), ("ods", "logs", 1));

    let top = top_tables_by_access(aggs.clone(), 10);
    assert_eq!(top.len(), 2);
    assert_eq!((top[0].table.as_str(), top[0].access_count, top[0].unique_users), ("orders", 3, 2));
    assert_eq!((top[1].table.as_str(), top[1].access_count, top[1].unique_users), ("logs", 1, 1));

    let first_only = top_tables_by_access(aggs, 0);
    assert_eq!(first_only.len(), 1);
    assert_eq!(first_only[0].table, "orders");
}
