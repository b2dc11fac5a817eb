//! Audit-log input of the performance baselines: the query that reads the
//! recent successful queries of a cluster and the records made of its rows,
//! and how a refresh ends depending on what the audit log gave.

use vstd::prelude::*;
use vstd::string::*;
use crate::audit::{cell_or, get_cell, int_cell, row_cell, ClusterType};
use crate::text::{i64_string, int_dec, parse_i64, texts};

verus! {

/// Most audit rows read per refresh.
pub const AUDIT_ROW_LIMIT: u64 = 10000;

/// The audit table of a cluster type and the names of the fields read.
pub struct BaselineAuditFields {
    pub table: &'static str,
    pub query_id: &'static str,
    pub user: &'static str,
    pub db: &'static str,
    pub stmt: &'static str,
    pub stmt_type: &'static str,
    pub query_time: &'static str,
    pub state: &'static str,
    pub time: &'static str,
    pub is_query: &'static str,
}

/// The audit schema of each cluster type.
pub open spec fn baseline_fields_spec(t: ClusterType) -> Seq<Seq<char>> {
    match t {
        ClusterType::StarRocks => seq![
            "starrocks_audit_db__.starrocks_audit_tbl__"@, "queryId"@, "user"@, "db"@, "stmt"@,
            "queryType"@, "queryTime"@, "state"@, "timestamp"@, "isQuery"@,
        ],
        ClusterType::Doris => seq![
            "__internal_schema.audit_log"@, "query_id"@, "user"@, "database"@, "stmt"@,
            "stmt_type"@, "query_time"@, "state"@, "time"@, "is_query"@,
        ],
    }
}

/// The fields as a list: table, query id, user, database, statement,
/// statement type, query time, state, time, is-query flag.
pub open spec fn field_list(f: BaselineAuditFields) -> Seq<Seq<char>> {
    seq![
        f.table@, f.query_id@, f.user@, f.db@, f.stmt@, f.stmt_type@, f.query_time@, f.state@,
        f.time@, f.is_query@,
    ]
}

/// The audit table and field names of a cluster type.
pub fn baseline_audit_fields(t: ClusterType) -> (r: BaselineAuditFields)
    ensures
        field_list(r) == baseline_fields_spec(t),
{
    match t {
        ClusterType::StarRocks => BaselineAuditFields {
            table: "starrocks_audit_db__.starrocks_audit_tbl__",
            query_id: "queryId",
            user: "user",
            db: "db",
            stmt: "stmt",
            stmt_type: "queryType",
            query_time: "queryTime",
            state: "state",
            time: "timestamp",
            is_query: "isQuery",
        },
        ClusterType::Doris => BaselineAuditFields {
            table: "__internal_schema.audit_log",
            query_id: "query_id",
            user: "user",
            db: "database",
            stmt: "stmt",
            stmt_type: "stmt_type",
            query_time: "query_time",
            state: "state",
            time: "time",
            is_query: "is_query",
        },
    }
}

/// The query for the successful queries of the last `hours` hours, newest
/// first, at most 10000 rows, under the column names the records are read by.
pub open spec fn baseline_sql_spec(f: BaselineAuditFields, hours: i64) -> Seq<char> {
    "\n            SELECT \n                `"@ + f.query_id@ + "` as queryId,\n                COALESCE(`"@ + f.user@ + "`, '') AS user,\n                COALESCE(`"@ + f.db@ + "`, '') AS db,\n                `"@ + f.stmt@ + "` as stmt,\n                COALESCE(`"@ + f.stmt_type@ + "`, 'Query') AS queryType,\n                `"@ + f.query_time@ + "` AS query_time_ms,\n                COALESCE(`"@ + f.state@ + "`, '') AS state,\n                `"@ + f.time@ + "` as timestamp\n            FROM "@ + f.table@ + "\n            WHERE \n                `"@ + f.is_query@ + "` = 1\n                AND `"@ + f.time@ + "` >= DATE_SUB(NOW(), INTERVAL "@ + int_dec(hours as int) + " HOUR)\n                AND `"@ + f.state@ + "` IN ('EOF', 'OK')\n                AND `"@ + f.query_time@ + "` > 0\n            ORDER BY `"@ + f.time@ + "` DESC\n            LIMIT 10000\n            "@
}

/// The audit query of a baseline refresh (see `baseline_sql_spec`).
pub fn baseline_audit_sql(t: ClusterType, hours: i64) -> (r: String)
    ensures
        r@ == baseline_sql_spec(baseline_audit_fields_view(t), hours),
        field_list(baseline_audit_fields_view(t)) == baseline_fields_spec(t),
{
    let f = baseline_audit_fields(t);
    let mut r = String::new();
    r.append("\n            SELECT \n                `");
    r.append(f.query_id);
    r.append("` as queryId,\n                COALESCE(`");
    r.append(f.user);
    r.append("`, '') AS user,\n                COALESCE(`");
    r.append(f.db);
    r.append("`, '') AS db,\n                `");
    r.append(f.stmt);
    r.append("` as stmt,\n                COALESCE(`");
    r.append(f.stmt_type);
    r.append("`, 'Query') AS queryType,\n                `");
    r.append(f.query_time);
    r.append("` AS query_time_ms,\n                COALESCE(`");
    r.append(f.state);
    r.append("`, '') AS state,\n                `");
    r.append(f.time);
    r.append("` as timestamp\n            FROM ");
    r.append(f.table);
    r.append("\n            WHERE \n                `");
    r.append(f.is_query);
    r.append("` = 1\n                AND `");
    r.append(f.time);
    r.append("` >= DATE_SUB(NOW(), INTERVAL ");
    let h = i64_string(hours);
    r.append(h.as_str());
    r.append(" HOUR)\n                AND `");
    r.append(f.state);
    r.append("` IN ('EOF', 'OK')\n                AND `");
    r.append(f.query_time);
    r.append("` > 0\n            ORDER BY `");
    r.append(f.time);
    r.append("` DESC\n            LIMIT 10000\n            ");
    r
}

/// The field names of a cluster type as a value (the same as
/// `baseline_audit_fields` returns).
pub open spec fn baseline_audit_fields_view(t: ClusterType) -> BaselineAuditFields {
    match t {
        ClusterType::StarRocks => BaselineAuditFields {
            table: "starrocks_audit_db__.starrocks_audit_tbl__",
            query_id: "queryId",
            user: "user",
            db: "db",
            stmt: "stmt",
            stmt_type: "queryType",
            query_time: "queryTime",
            state: "state",
            time: "timestamp",
            is_query: "isQuery",
        },
        ClusterType::Doris => BaselineAuditFields {
            table: "__internal_schema.audit_log",
            query_id: "query_id",
            user: "user",
            db: "database",
            stmt: "stmt",
            stmt_type: "stmt_type",
            query_time: "query_time",
            state: "state",
            time: "time",
            is_query: "is_query",
        },
    }
}

/// The probe that tells whether the audit table of a cluster type exists.
pub fn audit_probe_sql(t: ClusterType) -> (r: String)
    ensures
        r@ == "SELECT 1 FROM "@ + baseline_fields_spec(t)[0] + " LIMIT 1"@,
{
    let f = baseline_audit_fields(t);
    let mut r = String::from_str("SELECT 1 FROM ");
    r.append(f.table);
    r.append(" LIMIT 1");
    r
}

/// One audited query as the baselines use it.
#[derive(Debug, Clone)]
pub struct AuditLogRecord {
    pub query_id: String,
    pub user: String,
    pub db: String,
    pub stmt: String,
    pub query_type: String,
    pub query_time_ms: i64,
    pub state: String,
    pub timestamp: String,
}

/// The record of an audit row: each named column's cell (by the last column
/// of that name), an absent text cell read as empty (the statement type as
/// `Query`), an absent or non-integer query time as 0.
pub open spec fn record_matches(r: AuditLogRecord, columns: Seq<Seq<char>>, row: Seq<Seq<char>>) -> bool {
    &&& r.query_id@ == cell_or(row_cell(columns, row, "queryId"@), Seq::empty())
    &&& r.user@ == cell_or(row_cell(columns, row, "user"@), Seq::empty())
    &&& r.db@ == cell_or(row_cell(columns, row, "db"@), Seq::empty())
    &&& r.stmt@ == cell_or(row_cell(columns, row, "stmt"@), Seq::empty())
    &&& r.query_type@ == cell_or(row_cell(columns, row, "queryType"@), "Query"@)
    &&& r.query_time_ms == match int_cell(row_cell(columns, row, "query_time_ms"@)) {
        Some(n) => n,
        None => 0,
    }
    &&& r.state@ == cell_or(row_cell(columns, row, "state"@), Seq::empty())
    &&& r.timestamp@ == cell_or(row_cell(columns, row, "timestamp"@), Seq::empty())
}

fn cell_text(columns: &[String], row: &[String], name: &str, default: &str) -> (r: String)
    ensures
        r@ == cell_or(row_cell(texts(columns@), texts(row@), name@), default@),
{
    match get_cell(columns, row, name) {
        Some(c) => c,
        None => String::from_str(default),
    }
}

/// Reads one audit row into a record (see `record_matches`).
pub fn audit_record_of_row(columns: &[String], row: &[String]) -> (r: AuditLogRecord)
    ensures
        record_matches(r, texts(columns@), texts(row@)),
{
    let query_time_ms = match get_cell(columns, row, "query_time_ms") {
        Some(c) => match parse_i64(c.as_str()) {
            Some(n) => n,
            None => 0,
        },
        None => 0,
    };
    let query_id = cell_text(columns, row, "queryId", "");
    let user = cell_text(columns, row, "user", "");
    let db = cell_text(columns, row, "db", "");
    let stmt = cell_text(columns, row, "stmt", "");
    let query_type = cell_text(columns, row, "queryType", "Query");
    let state = cell_text(columns, row, "state", "");
    let timestamp = cell_text(columns, row, "timestamp", "");
    proof {
        reveal_strlit("");
        assert(""@ =~= Seq::<char>::empty());
    }
    AuditLogRecord { query_id, user, db, stmt, query_type, query_time_ms, state, timestamp }
}

/// Reads every audit row into a record, in row order.
pub fn audit_records(columns: &[String], rows: &[Vec<String>]) -> (r: Vec<AuditLogRecord>)
    ensures
        r@.len() == rows@.len(),
        forall|i: int|
            0 <= i < rows@.len() ==> record_matches(#[trigger] r@[i], texts(columns@), texts(rows@[i]@)),
{
    let mut out: Vec<AuditLogRecord> = Vec::new();
    let mut i: usize = 0;
    while i < rows.len()
        invariant
            i <= rows.len(),
            out@.len() == i,
            forall|k: int|
                0 <= k < i ==> record_matches(#[trigger] out@[k], texts(columns@), texts(rows@[k]@)),
        decreases rows.len() - i,
    {
        let rec = audit_record_of_row(columns, rows[i].as_slice());
        out.push(rec);
        i += 1;
    }
    out
}

/// Where a cluster's baselines come from.
#[derive(Debug, Clone, Copy, PartialEq, Eq)]
pub enum BaselineSource {
    /// Computed from the cluster's audit log.
    AuditLog,
    /// The built-in defaults.
    Default,
}

/// How a baseline refresh ends, once the audit log has been probed and read.
#[derive(Debug, Clone, Copy, PartialEq, Eq)]
pub enum RefreshPlan {
    /// Install the defaults and report them with no samples.
    UseDefaults,
    /// Install the defaults and report the read failure.
    FailWithDefaults,
    /// Compute baselines from the records and install them.
    Compute,
}

/// A missing audit table or an empty read falls back to the defaults; a
/// failed read also installs the defaults but is reported; otherwise the
/// baselines are computed from the records.
pub fn refresh_plan(table_exists: bool, read_ok: bool, record_count: usize) -> (r: RefreshPlan)
    ensures
        r == (if !table_exists {
            RefreshPlan::UseDefaults
        } else if !read_ok {
            RefreshPlan::FailWithDefaults
        } else if record_count == 0 {
            RefreshPlan::UseDefaults
        } else {
            RefreshPlan::Compute
        }),
{
    if !table_exists {
        RefreshPlan::UseDefaults
    } else if !read_ok {
        RefreshPlan::FailWithDefaults
    } else if record_count == 0 {
        RefreshPlan::UseDefaults
    } else {
        RefreshPlan::Compute
    }
}

/// The complexity classes the baselines are kept for.
#[derive(Debug, Clone, Copy, PartialEq, Eq)]
pub enum QueryComplexity {
    Simple,
    Medium,
    Complex,
    VeryComplex,
}

/// The outcome of a baseline refresh: where the baselines now come from,
/// how many records were read, and how many fell in each class.
#[derive(Debug, Clone)]
pub struct RefreshResult {
    pub source: BaselineSource,
    pub sample_count: usize,
    pub complexity_counts: Vec<(QueryComplexity, usize)>,
}

/// The outcome of a refresh that fell back to the defaults.
pub fn defaults_refresh_result() -> (r: RefreshResult)
    ensures
        r.source == BaselineSource::Default,
        r.sample_count == 0,
        r.complexity_counts@.len() == 0,
{
    RefreshResult { source: BaselineSource::Default, sample_count: 0, complexity_counts: Vec::new() }
}

} // verus!
