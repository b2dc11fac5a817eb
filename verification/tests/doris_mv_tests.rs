use stellar::baseline::{defaults_refresh_result, BaselineSource};
use stellar::cluster::doris_mv::{
    mv_alter_sql, mv_drop_sql, mv_not_found_text, mv_probe_sql, mv_refresh_sql, mv_toggle_sql,
    rollup_alter_sql, toggle_of_clause, MvKind,
};

#[test]
fn drop_of_async_view_and_rollup() {
    let a = MvKind::AsyncMv("sales".to_string());
    assert_eq!(mv_drop_sql(&a, "mv1"), "DROP MATERIALIZED VIEW IF EXISTS `sales`.`mv1`");
    let r = MvKind::Rollup("sales".to_string(), "orders".to_string());
    assert_eq!(mv_drop_sql(&r, "r1"), "ALTER TABLE `sales`.`orders` DROP ROLLUP `r1`");
}

#[test]
fn refresh_modes_of_async_view() {
    let a = MvKind::AsyncMv("db".to_string());
    assert_eq!(
        mv_refresh_sql(&a, "mv", Some("p1"), Some("p9"), "auto").unwrap(),
        "REFRESH MATERIALIZED VIEW db.mv PARTITION (p1, p9)"
    );
    assert_eq!(
        mv_refresh_sql(&a, "mv", None, None, "complete").unwrap(),
        "REFRESH MATERIALIZED VIEW db.mv COMPLETE"
    );
    assert_eq!(
        mv_refresh_sql(&a, "mv", Some("p1"), None, "async").unwrap(),
        "REFRESH MATERIALIZED VIEW db.mv AUTO"
    );
}

#[test]
fn rollup_refuses_refresh_and_toggle() {
    let r = MvKind::Rollup("db".to_string(), "t".to_string());
    let e = mv_refresh_sql(&r, "r1", None, None, "COMPLETE").unwrap_err();
    assert!(e.starts_with("Doris Rollup 'r1' is a synchronous materialized view"));
    assert!(e.ends_with("base table 'db.t'."));
    let e = mv_toggle_sql(&r, "r1", true).unwrap_err();
    assert!(e.starts_with("Doris Rollup 'r1' is a synchronous materialized view that is always active."));
}

#[test]
fn toggle_clauses() {
    assert_eq!(toggle_of_clause("  active "), Some(true));
    assert_eq!(toggle_of_clause("INACTIVE"), Some(false));
    assert_eq!(toggle_of_clause("RENAME mv2"), None);
    let a = MvKind::AsyncMv("db".to_string());
    assert_eq!(mv_toggle_sql(&a, "mv", true).unwrap(), "RESUME MATERIALIZED VIEW JOB ON db.mv");
    assert_eq!(mv_toggle_sql(&a, "mv", false).unwrap(), "PAUSE MATERIALIZED VIEW JOB ON db.mv");
}

#[test]
fn other_alter_statements() {
    assert_eq!(mv_alter_sql("mv", "RENAME mv2"), "ALTER MATERIALIZED VIEW mv RENAME mv2");
    assert_eq!(rollup_alter_sql("db", "t", "RENAME ROLLUP r1 r2"), "ALTER TABLE `db`.`t` RENAME ROLLUP r1 r2");
    assert_eq!(mv_probe_sql("db", "mv"), "SELECT 1 FROM db.mv LIMIT 1");
    assert_eq!(mv_not_found_text("mv"), "Materialized view mv not found in any database");
}

#[test]
fn refresh_fallback_to_defaults() {
    let r = defaults_refresh_result();
    assert!(matches!(r.source, BaselineSource::Default));
    assert_eq!(r.sample_count, 0);
    assert!(r.complexity_counts.is_empty());
}
