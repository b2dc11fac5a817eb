//! Cluster data statistics: the largest tables and the most accessed
//! tables (from the audit log, with a per-database fallback), read from
//! the rows of the cluster's answers.

use vstd::prelude::*;
use vstd::string::*;
use crate::rows::{JsonCell, field_i64, field_str, get_field_i64, get_field_str};
use crate::text::{
    chars_of, contains, contains_str, nat_dec, remove_all, remove_all_exec, split, split_exec,
    str_eq, string_of, trim, trim_exec, u64_dec,
};

verus! {

/// A table and its stored size.
#[derive(Debug, Clone)]
pub struct TopTableBySize {
    pub database: String,
    pub table: String,
    pub size_bytes: i64,
    pub rows: Option<i64>,
}

/// A table (or a whole database) and how often queries read it.
#[derive(Debug, Clone)]
pub struct TopTableByAccess {
    pub database: String,
    pub table: String,
    pub access_count: i64,
    pub last_access: Option<String>,
}

/// The largest-tables query, up to the row limit.
pub const SIZE_SQL_HEAD: &'static str = r#"
            SELECT 
                TABLE_SCHEMA as database_name,
                TABLE_NAME as table_name,
                COALESCE(DATA_LENGTH, 0) as size_bytes,
                TABLE_ROWS as row_count
            FROM information_schema.tables
            WHERE TABLE_SCHEMA NOT IN ('information_schema', 'sys', 'mysql', '_statistics_')
              AND DATA_LENGTH > 0
            ORDER BY size_bytes DESC
            LIMIT "#;

/// The largest-tables query, after the row limit.
pub const SIZE_SQL_TAIL: &'static str = r#"
            "#;

fn dec(n: u64) -> (r: String)
    ensures
        r@ == nat_dec(n as nat),
{
    let d = u64_dec(n);
    string_of(d.as_slice())
}

/// The query of the `limit` largest tables outside the system schemas.
pub fn top_tables_by_size_sql(limit: u64) -> (r: String)
    ensures
        r@ == SIZE_SQL_HEAD@ + nat_dec(limit as nat) + SIZE_SQL_TAIL@,
{
    let mut r = String::from_str(SIZE_SQL_HEAD);
    let n = dec(limit);
    r.append(n.as_str());
    r.append(SIZE_SQL_TAIL);
    r
}

/// A row of the largest-tables query as a table size (none without a
/// database, table name or size; the row count may be missing).
pub open spec fn table_size_of(row: Seq<(String, JsonCell)>) -> Option<(Seq<char>, Seq<char>, i64, Option<i64>)> {
    match (field_str(row, "database_name"@), field_str(row, "table_name"@), field_i64(row, "size_bytes"@)) {
        (Some(db), Some(t), Some(size)) => Some((db, t, size, field_i64(row, "row_count"@))),
        _ => None,
    }
}

/// Reads one row of the largest-tables query.
pub fn table_size_from_row(row: &[(String, JsonCell)]) -> (r: Option<TopTableBySize>)
    ensures
        match r {
            Some(t) => table_size_of(row@) == Some((t.database@, t.table@, t.size_bytes, t.rows)),
            None => table_size_of(row@) is None,
        },
{
    let database = get_field_str(row, "database_name");
    let table = get_field_str(row, "table_name");
    let size = get_field_i64(row, "size_bytes");
    let rows = get_field_i64(row, "row_count");
    match (database, table, size) {
        (Some(db), Some(t), Some(sz)) => Some(TopTableBySize { database: db, table: t, size_bytes: sz, rows }),
        _ => None,
    }
}

/// The most-accessed-tables query: pieces around the audit table, the start
/// time, the audit database, the audit table name and the row limit.
pub const ACCESS_SQL_0: &'static str = r#"
            SELECT 
                `catalog`,
                `db` as database_name,
                LOWER(
                    REPLACE(
                        REPLACE(
                            SUBSTRING_INDEX(
                                SUBSTRING_INDEX(
                                    SUBSTRING_INDEX(stmt, 'FROM ', -1),
                                    ' ', 
                                    1
                                ),
                                '.',
                                -1
                            ),
                            '`',
                            ''
                        ),
                        ')',
                        ''
                    )
                ) as table_name,
                SUBSTRING_INDEX(
                    SUBSTRING_INDEX(stmt, 'FROM ', -1),
                    ' ', 
                    1
                ) as full_table_ref,
                COUNT(*) as access_count
            FROM "#;
pub const ACCESS_SQL_1: &'static str = r#"
            WHERE timestamp >= '"#;
pub const ACCESS_SQL_2: &'static str = r#"'
                AND `catalog` != ''
                AND (`db` NOT IN ('information_schema', '_statistics_', 'sys', '"#;
pub const ACCESS_SQL_3: &'static str = r#"', 'recycle_dw') OR `db` IS NULL OR `db` = '')
                AND UPPER(stmt) LIKE '%FROM %'
                AND LOWER(stmt) NOT LIKE '%"#;
pub const ACCESS_SQL_4: &'static str = r#"%'
            GROUP BY `catalog`, database_name, table_name, full_table_ref
            HAVING table_name NOT LIKE '%select%'
                AND table_name NOT LIKE '%(%'
                AND table_name NOT LIKE '%where%'
                AND table_name NOT LIKE '%group%'
                AND LENGTH(table_name) > 0
                AND LENGTH(table_name) < 100
            ORDER BY access_count DESC
            LIMIT "#;
pub const ACCESS_SQL_5: &'static str = r#"
            "#;

/// The most-accessed-tables query over the audit log since `start_time`.
pub open spec fn access_sql_text(audit_full_table: Seq<char>, start_time: Seq<char>, audit_db: Seq<char>, audit_table: Seq<char>, limit: nat) -> Seq<char> {
    ACCESS_SQL_0@ + audit_full_table + ACCESS_SQL_1@ + start_time + ACCESS_SQL_2@ + audit_db
        + ACCESS_SQL_3@ + audit_table + ACCESS_SQL_4@ + nat_dec(limit) + ACCESS_SQL_5@
}

/// The most-accessed-tables query over the audit log since `start_time`.
pub fn top_tables_by_access_sql(audit_full_table: &str, start_time: &str, audit_db: &str, audit_table: &str, limit: u64) -> (r: String)
    ensures
        r@ == access_sql_text(audit_full_table@, start_time@, audit_db@, audit_table@, limit as nat),
{
    let mut r = String::from_str(ACCESS_SQL_0);
    r.append(audit_full_table);
    r.append(ACCESS_SQL_1);
    r.append(start_time);
    r.append(ACCESS_SQL_2);
    r.append(audit_db);
    r.append(ACCESS_SQL_3);
    r.append(audit_table);
    r.append(ACCESS_SQL_4);
    let n = dec(limit);
    r.append(n.as_str());
    r.append(ACCESS_SQL_5);
    r
}

/// The per-database fallback query: pieces around the audit table, the
/// start time, the audit database and the row limit.
pub const DB_ACCESS_SQL_0: &'static str = r#"
                    SELECT 
                        db as database_name,
                        COUNT(*) as access_count
                    FROM "#;
pub const DB_ACCESS_SQL_1: &'static str = r#"
                    WHERE timestamp >= '"#;
pub const DB_ACCESS_SQL_2: &'static str = r#"'
                        AND db NOT IN ('information_schema', '_statistics_', '', 'sys', '"#;
pub const DB_ACCESS_SQL_3: &'static str = r#"', 'recycle_dw')
                    GROUP BY db
                    ORDER BY access_count DESC
                    LIMIT "#;
pub const DB_ACCESS_SQL_4: &'static str = r#"
                    "#;

/// The per-database access query over the audit log since `start_time`.
pub open spec fn db_access_sql_text(audit_full_table: Seq<char>, start_time: Seq<char>, audit_db: Seq<char>, limit: nat) -> Seq<char> {
    DB_ACCESS_SQL_0@ + audit_full_table + DB_ACCESS_SQL_1@ + start_time + DB_ACCESS_SQL_2@
        + audit_db + DB_ACCESS_SQL_3@ + nat_dec(limit) + DB_ACCESS_SQL_4@
}

/// The per-database access query over the audit log since `start_time`.
pub fn db_access_sql(audit_full_table: &str, start_time: &str, audit_db: &str, limit: u64) -> (r: String)
    ensures
        r@ == db_access_sql_text(audit_full_table@, start_time@, audit_db@, limit as nat),
{
    let mut r = String::from_str(DB_ACCESS_SQL_0);
    r.append(audit_full_table);
    r.append(DB_ACCESS_SQL_1);
    r.append(start_time);
    r.append(DB_ACCESS_SQL_2);
    r.append(audit_db);
    r.append(DB_ACCESS_SQL_3);
    let n = dec(limit);
    r.append(n.as_str());
    r.append(DB_ACCESS_SQL_4);
    r
}

/// The text of an optional field, empty when absent.
pub open spec fn or_empty(o: Option<Seq<char>>) -> Seq<char> {
    match o {
        Some(s) => s,
        None => Seq::empty(),
    }
}

/// The database and table a grouped audit row names: from its table
/// reference (`catalog.db.table`, `db.table` or a bare table name), external
/// catalogs prefixing the database; none when a bare name comes without a
/// database or the reference has more parts.
pub open spec fn access_target(catalog: Seq<char>, database: Seq<char>, table: Seq<char>, full_ref: Seq<char>) -> Option<(Seq<char>, Seq<char>)> {
    let parts = split(trim(remove_all(full_ref, "`"@)), '.');
    let external = catalog != "default_catalog"@ && catalog.len() > 0;
    if parts.len() == 3 {
        Some((parts[0] + "."@ + parts[1], parts[2]))
    } else if parts.len() == 2 {
        if external {
            Some((catalog + "."@ + parts[0], parts[1]))
        } else {
            Some((parts[0], parts[1]))
        }
    } else if parts.len() == 1 && database.len() > 0 {
        if external {
            Some((catalog + "."@ + database, table))
        } else {
            Some((database, table))
        }
    } else {
        None
    }
}

/// System databases and the audit table itself are not reported.
pub open spec fn system_target(db: Seq<char>, table: Seq<char>, audit_db: Seq<char>, audit_table: Seq<char>) -> bool {
    contains(db, "information_schema"@) || contains(db, "_statistics_"@) || contains(db, "sys"@)
        || contains(db, audit_db) || table == audit_table
}

/// A row of the most-accessed-tables query as (database, table, count), if
/// it names a reportable table and has a count.
pub open spec fn table_access_of(row: Seq<(String, JsonCell)>, audit_db: Seq<char>, audit_table: Seq<char>) -> Option<(Seq<char>, Seq<char>, i64)> {
    let catalog = trim(or_empty(field_str(row, "catalog"@)));
    let database = trim(or_empty(field_str(row, "database_name"@)));
    let full_ref = trim(or_empty(field_str(row, "full_table_ref"@)));
    match (field_str(row, "table_name"@), field_i64(row, "access_count"@)) {
        (Some(t), Some(count)) => match access_target(catalog, database, trim(t), full_ref) {
            Some(target) => if system_target(target.0, target.1, audit_db, audit_table) {
                None
            } else {
                Some((target.0, target.1, count))
            },
            None => None,
        },
        _ => None,
    }
}

fn field_trimmed(row: &[(String, JsonCell)], key: &str) -> (r: Vec<char>)
    ensures
        r@ == trim(or_empty(field_str(row@, key@))),
{
    match get_field_str(row, key) {
        Some(s) => {
            let v = chars_of(s.as_str());
            trim_exec(v.as_slice())
        },
        None => {
            let e: Vec<char> = Vec::new();
            trim_exec(e.as_slice())
        },
    }
}

fn dotted(a: &[char], b: &[char]) -> (r: String)
    ensures
        r@ == a@ + "."@ + b@,
{
    let mut r = string_of(a);
    r.append(".");
    let t = string_of(b);
    r.append(t.as_str());
    r
}

fn access_target_exec(catalog: &[char], database: &[char], table: &[char], full_ref: &[char]) -> (r: Option<(String, String)>)
    ensures
        match r {
            Some(p) => access_target(catalog@, database@, table@, full_ref@) == Some((p.0@, p.1@)),
            None => access_target(catalog@, database@, table@, full_ref@) is None,
        },
{
    proof {
        reveal_strlit("`");
    }
    let cleaned = remove_all_exec(full_ref, "`");
    let t = trim_exec(cleaned.as_slice());
    let parts = split_exec(t.as_slice(), '.');
    let external = !crate::text::eq_lit(catalog, "default_catalog") && catalog.len() > 0;
    if parts.len() == 3 {
        Some((dotted(parts[0].as_slice(), parts[1].as_slice()), string_of(parts[2].as_slice())))
    } else if parts.len() == 2 {
        if external {
            Some((dotted(catalog, parts[0].as_slice()), string_of(parts[1].as_slice())))
        } else {
            Some((string_of(parts[0].as_slice()), string_of(parts[1].as_slice())))
        }
    } else if parts.len() == 1 && database.len() > 0 {
        if external {
            Some((dotted(catalog, database), string_of(table)))
        } else {
            Some((string_of(database), string_of(table)))
        }
    } else {
        None
    }
}

/// Reads one row of the most-accessed-tables query (the audit database
/// and table are excluded along with system databases).
pub fn table_access_from_row(row: &[(String, JsonCell)], audit_db: &str, audit_table: &str) -> (r: Option<TopTableByAccess>)
    ensures
        match r {
            Some(t) => table_access_of(row@, audit_db@, audit_table@) == Some((t.database@, t.table@, t.access_count)) && t.last_access is None,
            None => table_access_of(row@, audit_db@, audit_table@) is None,
        },
{
    let catalog = field_trimmed(row, "catalog");
    let database = field_trimmed(row, "database_name");
    let full_ref = field_trimmed(row, "full_table_ref");
    let table = match get_field_str(row, "table_name") {
        Some(t) => {
            let v = chars_of(t.as_str());
            trim_exec(v.as_slice())
        },
        None => {
            return None;
        },
    };
    let count = match get_field_i64(row, "access_count") {
        Some(c) => c,
        None => {
            return None;
        },
    };
    match access_target_exec(catalog.as_slice(), database.as_slice(), table.as_slice(), full_ref.as_slice()) {
        Some((db, tb)) => {
            let dbv = chars_of(db.as_str());
            if contains_str(dbv.as_slice(), "information_schema") || contains_str(dbv.as_slice(), "_statistics_")
                || contains_str(dbv.as_slice(), "sys") || contains_str(dbv.as_slice(), audit_db)
                || str_eq(tb.as_str(), audit_table) {
                None
            } else {
                Some(TopTableByAccess { database: db, table: tb, access_count: count, last_access: None })
            }
        },
        None => None,
    }
}

/// A row of the per-database query as (database, count), if it has both.
pub open spec fn db_access_of(row: Seq<(String, JsonCell)>) -> Option<(Seq<char>, i64)> {
    match (field_str(row, "database_name"@), field_i64(row, "access_count"@)) {
        (Some(db), Some(count)) => Some((db, count)),
        _ => None,
    }
}

/// Reads one row of the per-database fallback: the database stands for all
/// of its tables.
pub fn db_access_from_row(row: &[(String, JsonCell)]) -> (r: Option<TopTableByAccess>)
    ensures
        match r {
            Some(t) => db_access_of(row@) == Some((t.database@, t.access_count)) && t.table@ == "(所有表)"@ && t.last_access is None,
            None => db_access_of(row@) is None,
        },
{
    match (get_field_str(row, "database_name"), get_field_i64(row, "access_count")) {
        (Some(db), Some(count)) => Some(
            TopTableByAccess { database: db, table: String::from_str("(所有表)"), access_count: count, last_access: None },
        ),
        _ => None,
    }
}


// ---------------------------------------------------------------------------
// Counts
// ---------------------------------------------------------------------------

/// Number of active views.
pub open spec fn active_views(mvs: Seq<crate::cluster::doris::MaterializedView>) -> nat
    decreases mvs.len(),
{
    if mvs.len() == 0 {
        0
    } else {
        active_views(mvs.drop_last()) + if mvs.last().is_active {
            1nat
        } else {
            0nat
        }
    }
}

proof fn lemma_active_views_bound(mvs: Seq<crate::cluster::doris::MaterializedView>)
    ensures
        active_views(mvs) <= mvs.len(),
    decreases mvs.len(),
{
    if mvs.len() > 0 {
        lemma_active_views_bound(mvs.drop_last());
    }
}

/// Materialized-view statistics (total, running, failed, succeeded): active
/// views count as succeeded, inactive ones as failed, none as running.
pub fn mv_statistics(mvs: &[crate::cluster::doris::MaterializedView]) -> (r: (i32, i32, i32, i32))
    ensures
        r.0 == mvs@.len() as i32,
        r.1 == 0,
        r.2 == (mvs@.len() - active_views(mvs@)) as i32,
        r.3 == active_views(mvs@) as i32,
{
    let mut active: usize = 0;
    let mut i: usize = 0;
    while i < mvs.len()
        invariant
            i <= mvs.len(),
            active == active_views(mvs@.take(i as int)),
            active <= i,
        decreases mvs.len() - i,
    {
        assert(mvs@.take(i + 1).drop_last() =~= mvs@.take(i as int));
        if mvs[i].is_active {
            active += 1;
        }
        i += 1;
    }
    assert(mvs@.take(mvs.len() as int) =~= mvs@);
    let total = mvs.len();
    (total as i32, 0, (total - active) as i32, active as i32)
}

/// The count of a `COUNT(*) as count` answer: the first row's `count` when
/// it is a string holding an integer, else 0.
pub open spec fn count_answer(rows: Seq<Vec<(String, JsonCell)>>) -> i64 {
    if rows.len() > 0 {
        match field_str(rows[0]@, "count"@) {
            Some(c) => match crate::text::parsed_i64(c) {
                Some(n) => n,
                None => 0,
            },
            None => 0,
        }
    } else {
        0
    }
}

/// Reads a `COUNT(*) as count` answer.
pub fn count_from_answer(rows: &[Vec<(String, JsonCell)>]) -> (r: i64)
    ensures
        r == count_answer(rows@),
{
    if rows.len() > 0 {
        match get_field_str(rows[0].as_slice(), "count") {
            Some(c) => match crate::text::parse_i64(c.as_str()) {
                Some(n) => n,
                None => 0,
            },
            None => 0,
        }
    } else {
        0
    }
}

/// Model of a row of strings.
pub open spec fn row_texts(rows: Seq<Vec<String>>) -> Seq<Seq<Seq<char>>> {
    rows.map_values(|r: Vec<String>| crate::text::texts(r@))
}

/// The first column whose lower-cased name is `name`.
pub open spec fn column_named(columns: Seq<Seq<char>>, name: Seq<char>) -> Option<int>
    decreases columns.len(),
{
    if columns.len() == 0 {
        None
    } else if crate::text::unicode_lower(columns[0]) == name {
        Some(0)
    } else {
        match column_named(columns.drop_first(), name) {
            Some(i) => Some(i + 1),
            None => None,
        }
    }
}

proof fn lemma_column_named(columns: Seq<Seq<char>>, name: Seq<char>, j: int)
    requires
        0 <= j <= columns.len(),
        forall|t: int| 0 <= t < j ==> crate::text::unicode_lower(#[trigger] columns[t]) != name,
        j < columns.len() ==> crate::text::unicode_lower(columns[j]) == name,
    ensures
        column_named(columns, name) == (if j < columns.len() {
            Some(j)
        } else {
            None::<int>
        }),
    decreases j,
{
    if j > 0 {
        let rest = columns.drop_first();
        assert(crate::text::unicode_lower(columns[0]) != name);
        assert forall|t: int| 0 <= t < j - 1 implies crate::text::unicode_lower(#[trigger] rest[t]) != name by {
            assert(rest[t] == columns[t + 1]);
        }
        lemma_column_named(rest, name, j - 1);
    }
}

fn find_column_lower(columns: &[String], name: &str) -> (r: Option<usize>)
    ensures
        match r {
            Some(i) => column_named(crate::text::texts(columns@), name@) == Some(i as int) && i < columns@.len(),
            None => column_named(crate::text::texts(columns@), name@) is None,
        },
{
    let ghost cv = crate::text::texts(columns@);
    let mut j: usize = 0;
    while j < columns.len()
        invariant
            j <= columns.len(),
            cv == crate::text::texts(columns@),
            forall|t: int| 0 <= t < j ==> crate::text::unicode_lower(#[trigger] cv[t]) != name@,
        ensures
            j <= columns.len(),
            forall|t: int| 0 <= t < j ==> crate::text::unicode_lower(#[trigger] cv[t]) != name@,
            j < columns.len() ==> crate::text::unicode_lower(cv[j as int]) == name@,
        decreases columns.len() - j,
    {
        let l = crate::text::to_lowercase(columns[j].as_str());
        assert(cv[j as int] == columns@[j as int]@);
        if str_eq(l.as_str(), name) {
            break;
        }
        j += 1;
    }
    proof {
        lemma_column_named(cv, name@, j as int);
    }
    if j < columns.len() {
        Some(j)
    } else {
        None
    }
}

/// The total size of a `SUM(...) as total_size` answer: the first row's
/// cell of the `total_size` column (any case), if an integer, else 0.
pub open spec fn total_size_answer(columns: Seq<Seq<char>>, rows: Seq<Seq<Seq<char>>>) -> i64 {
    match column_named(columns, "total_size"@) {
        Some(c) => if rows.len() > 0 && c < rows[0].len() {
            match crate::text::parsed_i64(rows[0][c]) {
                Some(n) => n,
                None => 0,
            }
        } else {
            0
        },
        None => 0,
    }
}

/// Reads a `SUM(...) as total_size` answer.
pub fn total_size_from_answer(columns: &[String], rows: &[Vec<String>]) -> (r: i64)
    ensures
        r == total_size_answer(crate::text::texts(columns@), row_texts(rows@)),
{
    match find_column_lower(columns, "total_size") {
        Some(c) => if rows.len() > 0 && c < rows[0].len() {
            assert(row_texts(rows@)[0] == crate::text::texts(rows@[0]@));
            match crate::text::parse_i64(rows[0][c].as_str()) {
                Some(n) => n,
                None => 0,
            }
        } else {
            0
        },
        None => 0,
    }
}

/// Schema-change job counts: running, pending, finished, failed.
pub type ChangeTally = (int, int, int, int);

/// The tally after one job row (its state is the last cell, compared
/// upper-cased; other states and empty rows are not counted).
pub open spec fn tally_row(t: ChangeTally, row: Seq<Seq<char>>) -> ChangeTally {
    if row.len() == 0 {
        t
    } else {
        let st = crate::text::unicode_upper(row.last());
        if st == "RUNNING"@ {
            (t.0 + 1, t.1, t.2, t.3)
        } else if st == "PENDING"@ || st == "WAITING_TXN"@ {
            (t.0, t.1 + 1, t.2, t.3)
        } else if st == "FINISHED"@ {
            (t.0, t.1, t.2 + 1, t.3)
        } else if st == "CANCELLED"@ || st == "FAILED"@ {
            (t.0, t.1, t.2, t.3 + 1)
        } else {
            t
        }
    }
}

/// The tally after job rows, in order.
pub open spec fn tally_rows(t: ChangeTally, rows: Seq<Seq<Seq<char>>>) -> ChangeTally
    decreases rows.len(),
{
    if rows.len() == 0 {
        t
    } else {
        tally_row(tally_rows(t, rows.drop_last()), rows.last())
    }
}

proof fn lemma_tally_bound(t: ChangeTally, rows: Seq<Seq<Seq<char>>>)
    ensures
        tally_rows(t, rows).0 + tally_rows(t, rows).1 + tally_rows(t, rows).2 + tally_rows(t, rows).3
            <= t.0 + t.1 + t.2 + t.3 + rows.len(),
        tally_rows(t, rows).0 >= t.0 && tally_rows(t, rows).1 >= t.1 && tally_rows(t, rows).2 >= t.2
            && tally_rows(t, rows).3 >= t.3,
    decreases rows.len(),
{
    if rows.len() > 0 {
        lemma_tally_bound(t, rows.drop_last());
    }
}

/// Adds the `SHOW ALTER TABLE COLUMN` rows of one database to the tally.
pub fn tally_schema_changes(counts: (i32, i32, i32, i32), rows: &[Vec<String>]) -> (r: (i32, i32, i32, i32))
    requires
        counts.0 >= 0 && counts.1 >= 0 && counts.2 >= 0 && counts.3 >= 0,
        counts.0 + counts.1 + counts.2 + counts.3 + rows@.len() <= i32::MAX,
    ensures
        (r.0 as int, r.1 as int, r.2 as int, r.3 as int) == tally_rows(
            (counts.0 as int, counts.1 as int, counts.2 as int, counts.3 as int),
            row_texts(rows@),
        ),
{
    let ghost t0: ChangeTally = (counts.0 as int, counts.1 as int, counts.2 as int, counts.3 as int);
    let ghost rv = row_texts(rows@);
    let (mut a, mut b, mut c, mut d) = counts;
    let mut i: usize = 0;
    while i < rows.len()
        invariant
            i <= rows.len(),
            rv == row_texts(rows@),
            (a as int, b as int, c as int, d as int) == tally_rows(t0, rv.take(i as int)),
            t0.0 + t0.1 + t0.2 + t0.3 + rows@.len() <= i32::MAX,
            t0.0 >= 0 && t0.1 >= 0 && t0.2 >= 0 && t0.3 >= 0,
        decreases rows.len() - i,
    {
        proof {
            lemma_tally_bound(t0, rv.take(i as int));
            assert(rv.take(i + 1).drop_last() =~= rv.take(i as int));
            assert(rv.take(i + 1).last() == rv[i as int]);
            assert(rv[i as int] == crate::text::texts(rows@[i as int]@));
        }
        let row = &rows[i];
        if row.len() > 0 {
            assert(rv[i as int].last() == row@[row@.len() - 1]@);
            let st = crate::text::to_uppercase(row[row.len() - 1].as_str());
            let s = st.as_str();
            if str_eq(s, "RUNNING") {
                a = a + 1;
            } else if str_eq(s, "PENDING") || str_eq(s, "WAITING_TXN") {
                b = b + 1;
            } else if str_eq(s, "FINISHED") {
                c = c + 1;
            } else if str_eq(s, "CANCELLED") || str_eq(s, "FAILED") {
                d = d + 1;
            }
        }
        i += 1;
    }
    assert(rv.take(rows.len() as int) =~= rv);
    (a, b, c, d)
}

/// System databases left out of the statistics (compared lower-cased).
pub open spec fn stats_system_db(db: Seq<char>, audit_db: Seq<char>) -> bool {
    let l = crate::text::unicode_lower(db);
    l == "information_schema"@ || l == "_statistics_"@ || l == audit_db || l == "sys"@
}

/// The user databases of a `SHOW DATABASES` answer, from its `Database`
/// column (first match, ASCII case ignored), in order.
pub open spec fn user_databases_of(columns: Seq<Seq<char>>, rows: Seq<Seq<Seq<char>>>, audit_db: Seq<char>) -> Seq<Seq<char>> {
    match crate::audit::first_column(columns.map_values(|c: Seq<char>| crate::text::ascii_lower(c)), "database"@) {
        Some(k) => databases_in(rows, k, audit_db),
        None => Seq::empty(),
    }
}

/// The non-system database names in column `k` of the rows having it.
pub open spec fn databases_in(rows: Seq<Seq<Seq<char>>>, k: int, audit_db: Seq<char>) -> Seq<Seq<char>>
    decreases rows.len(),
{
    if rows.len() == 0 {
        Seq::empty()
    } else {
        let prev = databases_in(rows.drop_last(), k, audit_db);
        let row = rows.last();
        if 0 <= k < row.len() && !stats_system_db(row[k], audit_db) {
            prev.push(row[k])
        } else {
            prev
        }
    }
}

/// The user databases of a `SHOW DATABASES` answer.
pub fn user_databases(columns: &[String], rows: &[Vec<String>], audit_db: &str) -> (r: Vec<String>)
    ensures
        crate::text::texts(r@) == user_databases_of(crate::text::texts(columns@), row_texts(rows@), audit_db@),
{
    let ghost cl = crate::text::texts(columns@).map_values(|c: Seq<char>| crate::text::ascii_lower(c));
    let mut lowered: Vec<String> = Vec::new();
    let mut j: usize = 0;
    while j < columns.len()
        invariant
            j <= columns.len(),
            cl == crate::text::texts(columns@).map_values(|c: Seq<char>| crate::text::ascii_lower(c)),
            crate::text::texts(lowered@) == cl.take(j as int),
        decreases columns.len() - j,
    {
        let v = chars_of(columns[j].as_str());
        let lv = crate::text::to_ascii_lower(v.as_slice());
        let ghost before = crate::text::texts(lowered@);
        let x = string_of(lv.as_slice());
        lowered.push(x);
        assert(crate::text::texts(lowered@) =~= before.push(x@));
        assert(cl.take(j + 1) =~= cl.take(j as int).push(cl[j as int]));
        j += 1;
    }
    assert(cl.take(columns.len() as int) =~= cl);
    assert(crate::text::texts(lowered@) =~= lowered@.map_values(|s: String| s@));
    let k = match crate::audit::first_column_exec(lowered.as_slice(), "database") {
        Some(k) => k,
        None => {
            return Vec::new();
        },
    };
    let ghost rv = row_texts(rows@);
    let mut out: Vec<String> = Vec::new();
    let mut i: usize = 0;
    while i < rows.len()
        invariant
            i <= rows.len(),
            rv == row_texts(rows@),
            crate::text::texts(out@) == databases_in(rv.take(i as int), k as int, audit_db@),
        decreases rows.len() - i,
    {
        assert(rv.take(i + 1).drop_last() =~= rv.take(i as int));
        assert(rv.take(i + 1).last() == rv[i as int]);
        assert(rv[i as int] == crate::text::texts(rows@[i as int]@));
        if k < rows[i].len() {
            let name = &rows[i][k];
            let l = crate::text::to_lowercase(name.as_str());
            let ls = l.as_str();
            if !(str_eq(ls, "information_schema") || str_eq(ls, "_statistics_") || str_eq(ls, audit_db)
                || str_eq(ls, "sys")) {
                let ghost before = crate::text::texts(out@);
                let x = name.clone();
                out.push(x);
                assert(crate::text::texts(out@) =~= before.push(x@));
            }
        }
        i += 1;
    }
    assert(rv.take(rows.len() as int) =~= rv);
    out
}

/// The users of a `SHOW PROCESSLIST` answer (column `user`, any case),
/// without `root` and empty names, each once in order of appearance.
pub open spec fn active_users_of(columns: Seq<Seq<char>>, rows: Seq<Seq<Seq<char>>>) -> Seq<Seq<char>> {
    match column_named(columns, "user"@) {
        Some(k) => users_in(rows, k),
        None => Seq::empty(),
    }
}

/// The distinct non-root, non-empty users in column `k`.
pub open spec fn users_in(rows: Seq<Seq<Seq<char>>>, k: int) -> Seq<Seq<char>>
    decreases rows.len(),
{
    if rows.len() == 0 {
        Seq::empty()
    } else {
        let prev = users_in(rows.drop_last(), k);
        let row = rows.last();
        if 0 <= k < row.len() && row[k] != "root"@ && row[k].len() > 0 && !prev.contains(row[k]) {
            prev.push(row[k])
        } else {
            prev
        }
    }
}

/// The active users of a `SHOW PROCESSLIST` answer, each once in order of
/// first appearance.
pub fn active_users(columns: &[String], rows: &[Vec<String>]) -> (r: Vec<String>)
    ensures
        crate::text::texts(r@) == active_users_of(crate::text::texts(columns@), row_texts(rows@)),
{
    let k = match find_column_lower(columns, "user") {
        Some(k) => k,
        None => {
            return Vec::new();
        },
    };
    let ghost rv = row_texts(rows@);
    let mut out: Vec<String> = Vec::new();
    let mut i: usize = 0;
    while i < rows.len()
        invariant
            i <= rows.len(),
            rv == row_texts(rows@),
            crate::text::texts(out@) == users_in(rv.take(i as int), k as int),
        decreases rows.len() - i,
    {
        assert(rv.take(i + 1).drop_last() =~= rv.take(i as int));
        assert(rv.take(i + 1).last() == rv[i as int]);
        assert(rv[i as int] == crate::text::texts(rows@[i as int]@));
        if k < rows[i].len() {
            let user = &rows[i][k];
            if !str_eq(user.as_str(), "root") && !user.as_str().is_empty() {
                let ghost tv = crate::text::texts(out@);
                let mut seen = false;
                let mut t: usize = 0;
                while t < out.len()
                    invariant
                        t <= out@.len(),
                        tv == crate::text::texts(out@),
                        seen == exists|q: int| 0 <= q < t && tv[q] == user@,
                    decreases out@.len() - t,
                {
                    assert(tv[t as int] == out@[t as int]@);
                    if str_eq(out[t].as_str(), user.as_str()) {
                        seen = true;
                    }
                    t += 1;
                }
                if !seen {
                    let x = user.clone();
                    out.push(x);
                    assert(crate::text::texts(out@) =~= tv.push(x@));
                }
            }
        }
        i += 1;
    }
    assert(rv.take(rows.len() as int) =~= rv);
    out
}

} // verus!
