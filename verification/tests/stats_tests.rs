use stellar::cluster::doris::async_mv_entry;
use stellar::rows::JsonCell;
use stellar::stats::{
    active_users, count_from_answer, db_access_from_row, db_access_sql, mv_statistics,
    table_access_from_row, table_size_from_row, tally_schema_changes, top_tables_by_access_sql,
    top_tables_by_size_sql, total_size_from_answer, user_databases, ACCESS_SQL_0, ACCESS_SQL_1,
    ACCESS_SQL_2, ACCESS_SQL_3, ACCESS_SQL_4, ACCESS_SQL_5, DB_ACCESS_SQL_0, DB_ACCESS_SQL_1,
    DB_ACCESS_SQL_2, DB_ACCESS_SQL_3, DB_ACCESS_SQL_4, SIZE_SQL_HEAD, SIZE_SQL_TAIL,
};

fn text(k: &str, v: &str) -> (String, JsonCell) {
    (k.to_string(), JsonCell::Text(v.to_string()))
}

fn num(k: &str, v: &str) -> (String, JsonCell) {
    (k.to_string(), JsonCell::Number(v.to_string()))
}

fn strings(v: &[&str]) -> Vec<String> {
    v.iter().map(|s| s.to_string()).collect()
}

#[test]
fn size_and_access_queries() {
    assert_eq!(top_tables_by_size_sql(20), format!("{}20{}", SIZE_SQL_HEAD, SIZE_SQL_TAIL));
    assert_eq!(
        top_tables_by_access_sql("audit.tbl", "2024-01-01 00:00:00", "audit", "tbl", 10),
        format!(
            "{}audit.tbl{}2024-01-01 00:00:00{}audit{}tbl{}10{}",
            ACCESS_SQL_0, ACCESS_SQL_1, ACCESS_SQL_2, ACCESS_SQL_3, ACCESS_SQL_4, ACCESS_SQL_5
        )
    );
    assert_eq!(
        db_access_sql("audit.tbl", "2024-01-01", "audit", 5),
        format!(
            "{}audit.tbl{}2024-01-01{}audit{}5{}",
            DB_ACCESS_SQL_0, DB_ACCESS_SQL_1, DB_ACCESS_SQL_2, DB_ACCESS_SQL_3, DB_ACCESS_SQL_4
        )
    );
}

#[test]
fn table_size_rows() {
    let row = vec![
        text("database_name", "sales"),
        text("table_name", "orders"),
        num("size_bytes", "4096"),
        num("row_count", "12"),
    ];
    let t = table_size_from_row(&row).unwrap();
    assert_eq!((t.database.as_str(), t.table.as_str(), t.size_bytes, t.rows), ("sales", "orders", 4096, Some(12)));
    let no_rows = vec![text("database_name", "d"), text("table_name", "t"), text("size_bytes", "7")];
    assert_eq!(table_size_from_row(&no_rows).unwrap().rows, None);
    let missing = vec![text("database_name", "d"), num("size_bytes", "7")];
    assert!(table_size_from_row(&missing).is_none());
}

#[test]
fn table_access_rows_and_exclusions() {
    let row = vec![
        text("catalog", "default_catalog"),
        text("database_name", "sales"),
        text("table_name", "orders"),
        text("full_table_ref", "`sales`.`orders`"),
        num("access_count", "9"),
    ];
    let t = table_access_from_row(&row, "audit", "tbl").unwrap();
    assert_eq!((t.database.as_str(), t.table.as_str(), t.access_count), ("sales", "orders", 9));
    assert!(t.last_access.is_none());

    let external = vec![
        text("catalog", "hive"),
        text("database_name", "ods"),
        text("table_name", "logs"),
        text("full_table_ref", "logs"),
        num("access_count", "3"),
    ];
    let t = table_access_from_row(&external, "audit", "tbl").unwrap();
    assert_eq!((t.database.as_str(), t.table.as_str()), ("hive.ods", "logs"));

    let system = vec![
        text("catalog", "default_catalog"),
        text("database_name", "information_schema"),
        text("table_name", "tables"),
        text("full_table_ref", "tables"),
        num("access_count", "3"),
    ];
    assert!(table_access_from_row(&system, "audit", "tbl").is_none());

    let db = vec![text("database_name", "sales"), num("access_count", "40")];
    let t = db_access_from_row(&db).unwrap();
    assert_eq!((t.database.as_str(), t.table.as_str(), t.access_count), ("sales", "(所有表)", 40));
    assert!(db_access_from_row(&[text("database_name", "x")]).is_none());
}

#[test]
fn view_statistics_count_active_as_succeeded() {
    let mut inactive = async_mv_entry("db", "mv2", None, None);
    inactive.is_active = false;
    let mvs = vec![async_mv_entry("db", "mv1", Some(1), None), inactive];
    assert_eq!(mv_statistics(&mvs), (2, 0, 1, 1));
    assert_eq!(mv_statistics(&[]), (0, 0, 0, 0));
}

#[test]
fn count_and_total_size_answers() {
    let rows = vec![vec![text("count", "17")]];
    assert_eq!(count_from_answer(&rows), 17);
    assert_eq!(count_from_answer(&[vec![text("count", "n/a")]]), 0);
    assert_eq!(count_from_answer(&[]), 0);
    let cols = strings(&["TOTAL_SIZE"]);
    assert_eq!(total_size_from_answer(&cols, &[strings(&["2048"])]), 2048);
    assert_eq!(total_size_from_answer(&strings(&["other"]), &[strings(&["2048"])]), 0);
}

#[test]
fn schema_change_tally_by_last_cell() {
    let rows = vec![
        strings(&["1", "t", "RUNNING"]),
        strings(&["2", "t", "pending"]),
        strings(&["3", "t", "WAITING_TXN"]),
        strings(&["4", "t", "FINISHED"]),
        strings(&["5", "t", "CANCELLED"]),
        strings(&["6", "t", "FAILED"]),
        strings(&["7", "t", "OTHER"]),
        vec![],
    ];
    assert_eq!(tally_schema_changes((1, 0, 0, 0), &rows), (2, 2, 1, 2));
}

#[test]
fn user_databases_and_active_users() {
    let cols = strings(&["Database"]);
    let rows = vec![
        strings(&["sales"]),
        strings(&["information_schema"]),
        strings(&["SYS"]),
        strings(&["audit"]),
        strings(&["ods"]),
    ];
    assert_eq!(user_databases(&cols, &rows, "audit"), strings(&["sales", "ods"]));
    assert!(user_databases(&strings(&["name"]), &rows, "audit").is_empty());

    let cols = strings(&["Id", "User", "Host"]);
    let rows = vec![
        strings(&["1", "alice", "h"]),
        strings(&["2", "root", "h"]),
        strings(&["3", "bob", "h"]),
        strings(&["4", "alice", "h"]),
        strings(&["5", "", "h"]),
    ];
    assert_eq!(active_users(&cols, &rows), strings(&["alice", "bob"]));
}
