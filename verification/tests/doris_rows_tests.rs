use stellar::cluster::doris::{
    cancelled_loads_sql, profile_from_reply, profile_text_url, ProfileFetchError, async_mv_entry, count_from_rows, desc_all_sql, has_rollup, load_error_fields,
    parse_backend_row, parse_doris_resource_privs, parse_frontend_row, parse_query_row,
    permissions_from_grants, rollup_entry, rollup_index_names, rollup_job_state,
    show_create_mv_sql, skip_in_load_report, skip_in_mv_search, DbUserPermissionDto, GrantRow,
};
use stellar::rows::JsonCell;

fn text(k: &str, v: &str) -> (String, JsonCell) {
    (k.to_string(), JsonCell::Text(v.to_string()))
}

fn strings(v: &[&str]) -> Vec<String> {
    v.iter().map(|s| s.to_string()).collect()
}

#[test]
fn backend_row_fields() {
    let row = vec![
        text("BackendId", "10001"),
        text("Host", "10.0.0.1"),
        ("Alive".to_string(), JsonCell::Bool(true)),
        ("TabletNum".to_string(), JsonCell::Number("42".to_string())),
        text("Tag", "{\"location\" : \"default\"}"),
    ];
    let b = parse_backend_row(&row).unwrap();
    assert_eq!(b.backend_id, "10001");
    assert_eq!(b.host, "10.0.0.1");
    assert_eq!(b.alive, "true");
    assert_eq!(b.tablet_num, "42");
    assert_eq!(b.heartbeat_port, "0");
    assert_eq!(b.cluster_decommissioned, "false");
    assert_eq!(b.location, "{\"location\" : \"default\"}");
    assert_eq!(b.warehouse_name, "");
}

#[test]
fn frontend_and_query_rows() {
    let row = vec![text("Name", "fe1"), text("IsMaster", "true"), text("Role", "FOLLOWER")];
    let f = parse_frontend_row(&row).unwrap();
    assert_eq!(f.name, "fe1");
    assert_eq!(f.role, "FOLLOWER");
    assert_eq!(f.is_master.as_deref(), Some("true"));
    assert_eq!(f.is_helper.as_deref(), Some("0"));
    assert!(f.start_time.is_none());

    let q = vec![
        ("Id".to_string(), JsonCell::Number("7".to_string())),
        text("QueryId", ""),
        text("User", "alice"),
        text("Info", "select 1"),
        text("LoginTime", "2024-01-01 00:00:00"),
    ];
    let p = parse_query_row(&q).unwrap();
    assert_eq!(p.query_id, "7");
    assert_eq!(p.connection_id, "7");
    assert_eq!(p.user, "alice");
    assert_eq!(p.sql, "select 1");
    assert_eq!(p.database, "0");
    assert_eq!(p.start_time.as_deref(), Some("2024-01-01 00:00:00"));
    let q2 = vec![text("Id", "7"), text("QueryId", "abc-123")];
    assert_eq!(parse_query_row(&q2).unwrap().query_id, "abc-123");
}

#[test]
fn materialized_view_listing_steps() {
    assert_eq!(count_from_rows(&[strings(&["128"])]), Some(128));
    assert_eq!(count_from_rows(&[strings(&["x"])]), None);
    assert_eq!(count_from_rows(&[]), None);
    assert_eq!(show_create_mv_sql("db", "t"), "SHOW CREATE MATERIALIZED VIEW `db`.`t`");
    assert_eq!(desc_all_sql("db", "t"), "DESC `db`.`t` ALL");

    let desc = vec![
        strings(&["orders", "id"]),
        strings(&["", "k"]),
        strings(&["r1", "id"]),
        strings(&["r1", "v"]),
        strings(&["r2", "id"]),
    ];
    assert_eq!(rollup_index_names(&desc, "orders"), strings(&["r1", "r2"]));

    let jobs = vec![
        strings(&["1", "orders", "c0", "f0", "x", "r0", "", "", "CANCELLED"]),
        strings(&["2", "orders", "c1", "f1", "x", "r1", "", "", "RUNNING"]),
    ];
    let created = Some("2024-01-01".to_string());
    let (st, c, f) = rollup_job_state(Some(jobs.as_slice()), "orders", "r1", created.clone());
    assert_eq!((st.as_str(), c.as_deref(), f.as_deref()), ("RUNNING", Some("c1"), Some("f1")));
    let (st, c, f) = rollup_job_state(Some(jobs.as_slice()), "orders", "r2", created.clone());
    assert_eq!((st.as_str(), c.as_deref(), f.as_deref()), ("FINISHED", Some("2024-01-01"), Some("2024-01-01")));
    let (st, _, _) = rollup_job_state(None, "orders", "r1", created.clone());
    assert_eq!(st, "FINISHED");

    let m = rollup_entry("db", "orders", "r1", Some(5), "RUNNING".to_string(), None, None);
    assert_eq!(m.id, "db.orders.r1");
    assert_eq!(m.text, "Rollup of table db.orders");
    assert_eq!(m.refresh_type, "ROLLUP");
    assert!(!m.is_active);
    assert_eq!(m.last_refresh_state.as_deref(), Some("RUNNING"));
    let m = rollup_entry("db", "orders", "r2", None, "FINISHED".to_string(), None, None);
    assert!(m.is_active);

    let a = async_mv_entry("db", "mv", Some(3), created);
    assert_eq!(a.id, "db.mv");
    assert_eq!(a.text, "Async materialized view in database db");
    assert_eq!(a.refresh_type, "ASYNC");
    assert!(a.is_active);
    assert_eq!(a.last_refresh_finished_time.as_deref(), Some("2024-01-01"));
    assert_eq!(a.last_refresh_state.as_deref(), Some("SUCCESS"));
}

#[test]
fn load_report_and_rollup_search() {
    assert!(skip_in_load_report("Information_Schema"));
    assert!(skip_in_load_report("__internal_schema"));
    assert!(!skip_in_load_report("sales"));
    let fields = load_error_fields("sales", &strings(&["JobId", "Label", "State"]), &strings(&["1", "l1"]));
    assert_eq!(
        fields,
        vec![
            ("Database".to_string(), "sales".to_string()),
            ("JobId".to_string(), "1".to_string()),
            ("Label".to_string(), "l1".to_string()),
        ]
    );
    assert!(skip_in_mv_search("mysql"));
    assert!(!skip_in_mv_search("sys"));
    let cols = strings(&["IndexName", "Field"]);
    let rows = vec![strings(&["orders", "id"]), strings(&["r1", "id"])];
    assert!(has_rollup(&cols, &rows, "r1"));
    assert!(!has_rollup(&cols, &rows, "r9"));
    assert!(!has_rollup(&strings(&["Field"]), &rows, "r1"));
}

#[test]
fn privilege_columns_numbered_in_order() {
    let mut perms: Vec<DbUserPermissionDto> = Vec::new();
    let mut next = 1;
    parse_doris_resource_privs(
        "internal.db1: Select_priv, Load_priv; internal.db2: Alter_priv",
        "DATABASE",
        &mut perms,
        &mut next,
    );
    assert_eq!(next, 4);
    let got: Vec<(i32, &str, &str)> =
        perms.iter().map(|p| (p.id, p.privilege_type.as_str(), p.resource_path.as_str())).collect();
    assert_eq!(
        got,
        vec![(1, "SELECT", "internal.db1"), (2, "LOAD", "internal.db1"), (3, "ALTER", "internal.db2")]
    );

    let row = GrantRow {
        roles: Some("analyst, ops".to_string()),
        global_privs: Some("Admin_priv".to_string()),
        catalog_privs: Some("NULL".to_string()),
        database_privs: None,
        table_privs: Some("internal.db.t: Select_priv".to_string()),
        col_privs: None,
        resource_privs: Some(String::new()),
        workload_group_privs: None,
    };
    let all = permissions_from_grants(&[row]);
    let got: Vec<(i32, &str, &str, &str, Option<&str>)> = all
        .iter()
        .map(|p| {
            (
                p.id,
                p.privilege_type.as_str(),
                p.resource_type.as_str(),
                p.resource_path.as_str(),
                p.granted_role.as_deref(),
            )
        })
        .collect();
    assert_eq!(
        got,
        vec![
            (1, "ROLE", "ROLE", "analyst", Some("analyst")),
            (2, "ROLE", "ROLE", "ops", Some("ops")),
            (3, "ADMIN", "GLOBAL", "*", None),
            (4, "SELECT", "TABLE", "internal.db.t", None),
        ]
    );
}

#[test]
fn cancelled_loads_and_profiles() {
    assert_eq!(cancelled_loads_sql("sales"), "SHOW LOAD FROM `sales` WHERE State = 'CANCELLED'");
    assert_eq!(
        profile_text_url("fe1", 8030, "q-1"),
        "http://fe1:8030/api/profile/text?query_id=q-1"
    );
    assert_eq!(profile_from_reply(200, "Summary:\n  x", "q-1"), Ok("Summary:\n  x".to_string()));
    assert_eq!(
        profile_from_reply(200, "  \n", "q-1"),
        Err(ProfileFetchError::NotFound("Profile not found for query: q-1".to_string()))
    );
    assert_eq!(
        profile_from_reply(404, "missing", "q-1"),
        Err(ProfileFetchError::NotFound("Profile not found for query: q-1".to_string()))
    );
    assert_eq!(
        profile_from_reply(500, "boom", "q-1"),
        Err(ProfileFetchError::ConnectionFailed("Profile API failed: boom".to_string()))
    );
}
