use stellar::audit::ClusterType;
use stellar::baseline::{
    audit_probe_sql, audit_record_of_row, audit_records, baseline_audit_sql, refresh_plan,
    RefreshPlan,
};
use stellar::cluster::doris::{
    add_priv_suffix, build_resource_path, count_sql, parse_grant_statement, parse_user_identity,
    route_show_proc, skip_in_mv_listing, ProcRoute,
};
use stellar::cluster::listing::{
    database_names, doris_profile_layout, doris_session_layout, doris_switches_catalog,
    profiles_from_rows, sessions_from_rows, starrocks_profile_layout, starrocks_session_layout,
};
use stellar::cluster::service::{
    cached_active_matches, cluster_update_statement, normalize_cluster_form, resolve_target_org,
    ClusterForm, ClusterFormError, ClusterUpdate, OrgChoice,
};
use stellar::cluster::starrocks::{build_show_proc_sql, normalize_proc_path, parse_metric_line};
use stellar::cluster::{check_nodes, connection_health, node_health, HealthStatus};
use stellar::rbac::{
    format_resource_key, policy_of_permission, role_assignment, role_subject, user_subject,
};

fn row(cells: &[&str]) -> Vec<String> {
    cells.iter().map(|c| c.to_string()).collect()
}

fn flags(v: &[&str]) -> Vec<String> {
    row(v)
}

#[test]
fn node_checks_report_counts() {
    let c = check_nodes("Compute Nodes", "BE", &flags(&["true", "false", "true"]), "critical");
    assert_eq!(c.status, "warning");
    assert_eq!(c.message, "2/3 BE nodes are online");
    let all = check_nodes("Frontend Nodes", "FE", &flags(&["true"]), "critical");
    assert_eq!(all.status, "ok");
    assert_eq!(all.message, "All 1 FE nodes are online");
    let none = check_nodes("Compute Nodes", "CN", &flags(&[]), "critical");
    assert_eq!(none.message, "No CN nodes found");
    let dead = check_nodes("Compute Nodes", "BE", &flags(&["false"]), "critical");
    assert_eq!(dead.status, "critical");
    assert_eq!(dead.message, "No BE nodes are online");
}

#[test]
fn cluster_health_is_worst_check() {
    let h = node_health(true, Ok(flags(&["true"])), Err("timeout".into()));
    assert_eq!(h.checks.len(), 2);
    assert_eq!(h.checks[1].message, "Failed to check CN nodes: timeout");
    assert_eq!(h.status, HealthStatus::Warning);
    let ok = node_health(false, Ok(flags(&["true"])), Ok(flags(&["true", "true"])));
    assert_eq!(ok.status, HealthStatus::Healthy);
    let bad = connection_health(false, Err("Pool exhausted".into()), Ok(()), Ok(()), Ok(vec![]));
    assert_eq!(bad.status, HealthStatus::Critical);
}

#[test]
fn process_list_and_profiles() {
    let rows = vec![
        row(&["1", "root", "10.0.0.1:5", "db1", "Query", "3", "running"]),
        row(&["2", "short"]),
    ];
    let s = sessions_from_rows(starrocks_session_layout(), &rows);
    assert_eq!(s.len(), 1);
    assert_eq!(s[0].id, "1");
    assert_eq!(s[0].db, Some("db1".to_string()));
    assert_eq!(s[0].info, None);
    let drows = vec![row(&["", "9", "u", "h", "", "", "d", "Sleep", "12", "", "", "SELECT 1"])];
    let d = sessions_from_rows(doris_session_layout(), &drows);
    assert_eq!(d[0].id, "9");
    assert_eq!(d[0].time, "12");
    assert_eq!(d[0].info, Some("SELECT 1".to_string()));

    let prows = vec![
        row(&["q1", "t0", "1s", "Finished", "select 1"]),
        row(&["q2", "t1", "2s", "ABORTED", "select 2"]),
    ];
    let p = profiles_from_rows(starrocks_profile_layout(), &prows);
    assert_eq!(p.len(), 1);
    assert_eq!(p[0].query_id, "q1");
    let dp = vec![row(&["p1", "QUERY", "start", "end", "3s", "OK", "u", "c", "d", "select x"])];
    let dpl = profiles_from_rows(doris_profile_layout(), &dp);
    assert_eq!(dpl[0].start_time, "start");
    assert_eq!(dpl[0].time, "3s");
    assert_eq!(dpl[0].statement, "select x");

    let dbs = database_names(&[row(&[" sales "]), row(&["  "]), vec![], row(&["ods"])]);
    assert_eq!(dbs, vec!["sales".to_string(), "ods".to_string()]);
    assert!(doris_switches_catalog(Some("hive")));
    assert!(!doris_switches_catalog(Some("default_catalog")));
    assert!(!doris_switches_catalog(Some("")));
    assert!(!doris_switches_catalog(None));
}

#[test]
fn cluster_form_rules() {
    let form = ClusterForm {
        name: "  prod ".into(),
        description: Some(" main ".into()),
        fe_host: " fe1 ".into(),
        username: " root ".into(),
        catalog: " default_catalog ".into(),
    };
    let f = normalize_cluster_form(form).unwrap();
    assert_eq!(f.name, "prod");
    assert_eq!(f.description, Some("main".to_string()));
    assert_eq!(f.catalog, "default_catalog");
    let empty_host = ClusterForm {
        name: "p".into(),
        description: None,
        fe_host: "  ".into(),
        username: "".into(),
        catalog: "".into(),
    };
    let e = normalize_cluster_form(empty_host).unwrap_err();
    assert_eq!(e, ClusterFormError::EmptyHost);
    assert_eq!(e.message(), "FE host cannot be empty");
    assert_eq!(resolve_target_org(Some(3), Some(4), true), OrgChoice::Org(3));
    assert_eq!(resolve_target_org(None, None, true), OrgChoice::DefaultOrg);
    assert_eq!(resolve_target_org(Some(3), Some(4), false), OrgChoice::Org(4));
    assert_eq!(resolve_target_org(Some(3), None, false), OrgChoice::Forbidden);
    assert!(cached_active_matches(Some(2), Some(2)));
    assert!(!cached_active_matches(None, None));
    assert!(!cached_active_matches(Some(2), Some(3)));
}

#[test]
fn cluster_update_statement_lists_changed_columns() {
    let mut u = ClusterUpdate {
        name: None,
        description: None,
        fe_host: None,
        fe_http_port: None,
        fe_query_port: None,
        username: None,
        password: None,
        enable_ssl: None,
        connection_timeout: None,
        tags: None,
        catalog: None,
        organization_id: None,
        deployment_mode: None,
        cluster_type: None,
        admin_user: None,
        admin_password: None,
    };
    assert!(cluster_update_statement(&u).is_none());
    u.name = Some("n".into());
    u.fe_http_port = Some(8030);
    u.enable_ssl = Some(true);
    let (sql, params) = cluster_update_statement(&u).unwrap();
    assert_eq!(
        sql,
        "UPDATE clusters SET name = ?, fe_http_port = ?, enable_ssl = ?, updated_at = CURRENT_TIMESTAMP WHERE id = ?"
    );
    assert_eq!(params, vec!["n".to_string(), "8030".to_string(), "1".to_string()]);
}

#[test]
fn starrocks_proc_helpers() {
    assert_eq!(normalize_proc_path("backends"), "/backends");
    assert_eq!(build_show_proc_sql("/frontends"), "SHOW PROC \"/frontends\"");
    assert_eq!(build_show_proc_sql("a\"b"), "SHOW PROC \"/a\\\"b\"");
    assert_eq!(
        parse_metric_line("starrocks_fe_query_total 42"),
        Some(("starrocks_fe_query_total".to_string(), "42".to_string()))
    );
    assert_eq!(parse_metric_line("# HELP x"), None);
}

#[test]
fn doris_grant_helpers() {
    assert_eq!(add_priv_suffix(&["SELECT", "LOAD_PRIV"]), vec!["SELECT_PRIV", "LOAD_PRIV"]);
    assert_eq!(build_resource_path("catalog", "*", None), "ALL CATALOGS");
    assert_eq!(build_resource_path("table", "db", Some("t")), "db.t");
    assert_eq!(build_resource_path("table", "db", None), "db.*");
    assert_eq!(build_resource_path("database", "*", None), "*.*");
    assert_eq!(parse_user_identity("'alice'@'%'"), ("alice".to_string(), "%".to_string()));
    assert_eq!(parse_user_identity("bob"), ("bob".to_string(), "%".to_string()));
    let g = parse_grant_statement("GRANT Select_priv, Load_priv ON db1.* TO 'u'@'%'").unwrap();
    assert_eq!(g.privileges, vec!["SELECT", "LOAD"]);
    assert_eq!(g.resource_type, "DATABASE");
    assert_eq!(g.resource_path, "db1.*");
    assert_eq!(g.granted_role, None);
    let r = parse_grant_statement("GRANT 'analyst' TO 'u'@'%'").unwrap();
    assert_eq!(r.granted_role, Some("analyst".to_string()));
    assert_eq!(r.resource_type, "ROLE");
    assert!(parse_grant_statement("REVOKE x").is_none());
    assert!(skip_in_mv_listing("__internal_schema"));
    assert!(skip_in_mv_listing("information_schema"));
    assert!(!skip_in_mv_listing("sales"));
    assert_eq!(count_sql("db", "t"), "SELECT COUNT(*) FROM `db`.`t`");
    assert!(matches!(route_show_proc("/frontends"), ProcRoute::Run(_)));
}

#[test]
fn baseline_audit_reading() {
    assert_eq!(
        audit_probe_sql(ClusterType::Doris),
        "SELECT 1 FROM __internal_schema.audit_log LIMIT 1"
    );
    let sql = baseline_audit_sql(ClusterType::StarRocks, 24);
    assert!(sql.contains("`queryId` as queryId"));
    assert!(sql.contains("FROM starrocks_audit_db__.starrocks_audit_tbl__"));
    assert!(sql.contains("INTERVAL 24 HOUR"));
    assert!(sql.contains("LIMIT 10000"));
    let dsql = baseline_audit_sql(ClusterType::Doris, 1);
    assert!(dsql.contains("COALESCE(`stmt_type`, 'Query') AS queryType"));
    let cols = row(&["queryId", "user", "query_time_ms", "state"]);
    let rec = audit_record_of_row(&cols, &row(&["q1", "alice", "1500", "EOF"]));
    assert_eq!(rec.query_id, "q1");
    assert_eq!(rec.query_time_ms, 1500);
    assert_eq!(rec.query_type, "Query");
    assert_eq!(rec.db, "");
    let bad = audit_record_of_row(&cols, &row(&["q2", "bob", "slow"]));
    assert_eq!(bad.query_time_ms, 0);
    assert_eq!(bad.state, "");
    assert_eq!(audit_records(&cols, &[row(&["a"]), row(&["b"])]).len(), 2);
    assert_eq!(refresh_plan(false, true, 5), RefreshPlan::UseDefaults);
    assert_eq!(refresh_plan(true, false, 0), RefreshPlan::FailWithDefaults);
    assert_eq!(refresh_plan(true, true, 0), RefreshPlan::UseDefaults);
    assert_eq!(refresh_plan(true, true, 3), RefreshPlan::Compute);
}

#[test]
fn rbac_policies() {
    assert_eq!(user_subject(5), "u:5");
    assert_eq!(role_subject(5), "r:5");
    assert_ne!(user_subject(5), role_subject(5));
    assert_eq!(format_resource_key(Some(3), "clusters"), "org:3:clusters");
    assert_eq!(format_resource_key(None, "menu"), "system:menu");
    assert_ne!(format_resource_key(Some(1), "2:x"), format_resource_key(Some(12), "x"));
    assert_ne!(format_resource_key(Some(-1), "x"), format_resource_key(Some(1), "x"));
    assert_ne!(format_resource_key(Some(1), "x"), format_resource_key(None, "org:1:x"));
    assert_eq!(
        policy_of_permission(2, Some(1), "api:clusters:create", ""),
        Some(("r:2".to_string(), "org:1:clusters".to_string(), "create".to_string()))
    );
    assert_eq!(
        policy_of_permission(2, None, "api:jobs:run:now", ""),
        Some(("r:2".to_string(), "system:jobs".to_string(), "run:now".to_string()))
    );
    assert_eq!(
        policy_of_permission(2, None, "menu:dashboard", ""),
        Some(("r:2".to_string(), "system:dashboard".to_string(), "view".to_string()))
    );
    assert_eq!(
        policy_of_permission(2, None, "api:x:y", "delete"),
        Some(("r:2".to_string(), "system:x".to_string(), "delete".to_string()))
    );
    assert_eq!(policy_of_permission(2, None, "single", ""), None);
    assert_eq!(role_assignment(1, 2), ("u:1".to_string(), "r:2".to_string()));
}



use stellar::cluster::doris_admin::{
    accounts_from_grantees, block_rules_from_rows, catalog_names, create_block_rule_sql,
    create_user_sql, drop_backend_sql, drop_block_rule_sql, grant_permissions_sql, grant_role_sql,
    principal_text, revoke_permissions_sql, role_entry,
};
use stellar::cluster::starrocks::{
    add_blacklist_sql, blacklist_from_rows, delete_blacklist_sql, drop_node_sql, profile_from_rows,
    profile_query_sql,
};
use stellar::rows::JsonCell;

fn obj(fields: &[(&str, JsonCell)]) -> Vec<(String, JsonCell)> {
    fields.iter().map(|(k, v)| (k.to_string(), v.clone())).collect()
}

#[test]
fn doris_admin_statements() {
    assert_eq!(principal_text("ROLE", "r1").unwrap(), "'r1'");
    assert_eq!(principal_text("USER", "u1").unwrap(), "'u1'@'%'");
    assert_eq!(principal_text("GROUP", "g").unwrap_err(), "Principal type must be USER or ROLE");
    assert_eq!(
        grant_permissions_sql("USER", "bob", &["SELECT", "LOAD_PRIV"], "table", "db", Some("t"), true)
            .unwrap(),
        "GRANT SELECT_PRIV, LOAD_PRIV ON db.t TO 'bob'@'%'; WITH GRANT OPTION"
    );
    assert_eq!(
        revoke_permissions_sql("ROLE", "ops", &["ALTER"], "database", "*", None).unwrap(),
        "REVOKE ALTER_PRIV ON *.* FROM 'ops';"
    );
    assert!(grant_permissions_sql("X", "bob", &["SELECT"], "table", "db", None, false).is_err());
    assert_eq!(create_user_sql("u", ""), "CREATE USER 'u'@'%';");
    assert_eq!(create_user_sql("u", "p'w"), "CREATE USER 'u'@'%' IDENTIFIED BY 'p'w';");
    assert_eq!(grant_role_sql("r", "u"), "GRANT 'r' TO 'u'@'%';");
    assert_eq!(drop_backend_sql("h", "9050"), "ALTER SYSTEM DROP BACKEND \"h:9050\"");
    assert_eq!(
        create_block_rule_sql("rule_1", "select * from t where a='x'"),
        "CREATE SQL_BLOCK_RULE rule_1 PROPERTIES(\"sql\"=\"select * from t where a=''x''\", \"global\"=\"true\", \"enable\"=\"true\")"
    );
    assert_eq!(drop_block_rule_sql("rule_1"), "DROP SQL_BLOCK_RULE rule_1");
}

#[test]
fn doris_admin_listings() {
    let rules = block_rules_from_rows(&[
        obj(&[("Name", JsonCell::Text("r1".into())), ("Sql", JsonCell::Text("select 1".into()))]),
        obj(&[("Name", JsonCell::Number("3".into()))]),
        obj(&[("Name", JsonCell::Text("r2".into())), ("Sql", JsonCell::Other("null".into()))]),
    ]);
    assert_eq!(rules.len(), 2);
    assert_eq!(rules[0].pattern, "select 1");
    assert_eq!(rules[1].id, "r2");
    assert_eq!(rules[1].pattern, "");
    let cats = catalog_names(&[
        obj(&[("CatalogName", JsonCell::Text(" internal ".into()))]),
        obj(&[("CatalogName", JsonCell::Text(" ".into()))]),
        obj(&[("Other", JsonCell::Text("x".into()))]),
    ]);
    assert_eq!(cats, vec!["internal".to_string()]);
    let accts = accounts_from_grantees(&[
        "'root'@'%'".to_string(),
        "'root'@'%'".to_string(),
        "'bob'@'10.0.0.1'".to_string(),
    ]);
    assert_eq!(accts.len(), 2);
    assert_eq!(accts[0].account_name, "root");
    assert_eq!(accts[1].host, "10.0.0.1");
    assert!(accts[1].roles.is_empty());
    assert_eq!(role_entry("admin".into()).role_type, "built-in");
    assert_eq!(role_entry("analyst".into()).role_type, "custom");
}

#[test]
fn starrocks_admin_statements() {
    assert_eq!(drop_node_sql(true, "cn1", "9050"), "ALTER SYSTEM DROP COMPUTE NODE \"cn1:9050\"");
    assert_eq!(drop_node_sql(false, "be1", "9050"), "ALTER SYSTEM DROP BACKEND \"be1:9050\"");
    assert_eq!(add_blacklist_sql("select \"x\""), "ADD SQLBLACKLIST \"select \\\"x\\\"\"");
    assert_eq!(delete_blacklist_sql("3"), "DELETE SQLBLACKLIST 3");
    let items = blacklist_from_rows(&[
        obj(&[("Id", JsonCell::Text("1".into())), ("Pattern", JsonCell::Text("a".into()))]),
        obj(&[("Id", JsonCell::Text("2".into()))]),
    ]);
    assert_eq!(items.len(), 1);
    assert_eq!(items[0].pattern, "a");
    assert_eq!(profile_query_sql("q1"), "SELECT get_query_profile('q1')");
    assert_eq!(profile_from_rows(&[row(&["Fragment 0"])], "q1").unwrap(), "Fragment 0");
    assert_eq!(
        profile_from_rows(&[row(&["  "])], "q1").unwrap_err(),
        "Profile not found for query: q1"
    );
    assert!(profile_from_rows(&[], "q2").is_err());
}
