//! Audit-log analysis: which audit table a cluster type uses, classification
//! of audit query failures into user messages, table references of audited
//! statements, and the lookup of a query's SQL.

use vstd::prelude::*;
use vstd::string::*;
use crate::text::{
    append_chars, ascii_lower, chars_of, contains, contains_str, ends_with, ends_with_exec,
    eq_lit, split, split_exec, string_of, to_ascii_lower, trim, trim_exec, copy_chars,
    is_hex_ascii, seq_eq, int_dec, nat_dec, i64_string, u64_dec, text_lt, str_lt, str_eq,
    parse_i64, parsed_i64, texts,
};

verus! {

/// Kind of OLAP cluster.
#[derive(Debug, Clone, Copy, PartialEq, Eq, Structural)]
pub enum ClusterType {
    StarRocks,
    Doris,
}

/// Where the StarRocks audit plugin writes (database and table).
#[derive(Debug, Clone)]
pub struct AuditLogConfig {
    pub database: String,
    pub table: String,
}

/// `database.table` of an audit configuration.
pub open spec fn full_table_name_spec(c: AuditLogConfig) -> Seq<char> {
    c.database@ + "."@ + c.table@
}

impl AuditLogConfig {
    /// `database.table`.
    pub fn full_table_name(&self) -> (r: String)
        ensures
            r@ == full_table_name_spec(*self),
    {
        let mut r = String::from_str(self.database.as_str());
        r.append(".");
        r.append(self.table.as_str());
        r
    }
}

/// Audit table name and the field names of the audit schema of a cluster
/// type: (table, time, query time, is-query flag, statement type).
pub struct AuditFields {
    pub table: String,
    pub time_field: &'static str,
    pub query_time_field: &'static str,
    pub is_query_field: &'static str,
    pub stmt_type_field: &'static str,
}

/// Audit-log queries of the clusters.
pub struct AuditLogService {
    audit_config: AuditLogConfig,
}

/// The audit table of a cluster type: the configured table on StarRocks,
/// Doris's built-in `__internal_schema.audit_log` otherwise.
pub open spec fn audit_table_spec(config: AuditLogConfig, t: ClusterType) -> Seq<char> {
    match t {
        ClusterType::StarRocks => full_table_name_spec(config),
        ClusterType::Doris => "__internal_schema.audit_log"@,
    }
}

impl AuditLogService {
    pub fn new(audit_config: AuditLogConfig) -> (r: Self)
        ensures
            r.config() == audit_config,
    {
        AuditLogService { audit_config }
    }

    /// The audit configuration of this service.
    pub closed spec fn config(&self) -> AuditLogConfig {
        self.audit_config
    }

    /// The audit table name of a cluster type.
    pub fn audit_table_name(&self, cluster_type: ClusterType) -> (r: String)
        ensures
            r@ == audit_table_spec(self.config(), cluster_type),
    {
        self.get_audit_config(cluster_type).table
    }

    /// Audit table and field names by cluster type.
    pub fn get_audit_config(&self, cluster_type: ClusterType) -> (r: AuditFields)
        ensures
            r.table@ == audit_table_spec(self.config(), cluster_type),
            cluster_type == ClusterType::StarRocks ==> r.time_field@ == "timestamp"@
                && r.query_time_field@ == "queryTime"@ && r.is_query_field@ == "isQuery"@
                && r.stmt_type_field@ == "queryType"@,
            cluster_type == ClusterType::Doris ==> r.time_field@ == "time"@ && r.query_time_field@
                == "query_time"@ && r.is_query_field@ == "is_query"@ && r.stmt_type_field@
                == "stmt_type"@,
    {
        match cluster_type {
            ClusterType::StarRocks => AuditFields {
                table: self.audit_config.full_table_name(),
                time_field: "timestamp",
                query_time_field: "queryTime",
                is_query_field: "isQuery",
                stmt_type_field: "queryType",
            },
            ClusterType::Doris => AuditFields {
                table: String::from_str("__internal_schema.audit_log"),
                time_field: "time",
                query_time_field: "query_time",
                is_query_field: "is_query",
                stmt_type_field: "stmt_type",
            },
        }
    }
}

// ---------------------------------------------------------------------------
// Failure classification
// ---------------------------------------------------------------------------

/// The failure says the audit table or database does not exist.
pub open spec fn missing_relation(msg: Seq<char>) -> bool {
    contains(msg, "unknown table"@) || contains(msg, "unknown database"@) || contains(
        msg,
        "doesn't exist"@,
    ) || contains(msg, "does not exist"@) || contains(msg, "no matching table"@) || contains(
        msg,
        "no such table"@,
    ) || contains(msg, "1146"@) || contains(msg, "1049"@)
}

/// The failure says the monitoring account may not read the audit table.
pub open spec fn permission_denied(msg: Seq<char>) -> bool {
    contains(msg, "access denied"@) || contains(msg, "1142"@) || contains(msg, "1227"@)
}

fn is_missing_audit_relation(msg: &[char]) -> (r: bool)
    ensures
        r == missing_relation(msg@),
{
    contains_str(msg, "unknown table") || contains_str(msg, "unknown database") || contains_str(
        msg,
        "doesn't exist",
    ) || contains_str(msg, "does not exist") || contains_str(msg, "no matching table")
        || contains_str(msg, "no such table") || contains_str(msg, "1146") || contains_str(
        msg,
        "1049",
    )
}

fn is_audit_permission_denied(msg: &[char]) -> (r: bool)
    ensures
        r == permission_denied(msg@),
{
    contains_str(msg, "access denied") || contains_str(msg, "1142") || contains_str(msg, "1227")
}

/// The user message for a failed audit query, from the (ASCII-lower-cased)
/// error text: missing table, denied, timeout, connection, or generic.
pub open spec fn audit_message(error_text: Seq<char>, audit_table: Seq<char>) -> Seq<char> {
    let msg = ascii_lower(error_text);
    if missing_relation(msg) {
        "集群未配置审计日志表 "@ + audit_table
    } else if permission_denied(msg) {
        "监控账号无权读取审计日志表 "@ + audit_table
    } else if contains(msg, "timeout"@) || contains(msg, "timed out"@) {
        "查询审计日志超时"@
    } else if contains(msg, "connect"@) || contains(msg, "connection"@) {
        "无法连接集群查询审计日志"@
    } else {
        "查询审计日志失败"@
    }
}

/// Explains a failed audit-log query to the user, given the error's text.
pub fn audit_query_user_message(error_text: &str, audit_table: &str) -> (r: String)
    ensures
        r@ == audit_message(error_text@, audit_table@),
{
    let raw = chars_of(error_text);
    let msg = to_ascii_lower(raw.as_slice());
    if is_missing_audit_relation(msg.as_slice()) {
        let mut r = String::from_str("集群未配置审计日志表 ");
        r.append(audit_table);
        r
    } else if is_audit_permission_denied(msg.as_slice()) {
        let mut r = String::from_str("监控账号无权读取审计日志表 ");
        r.append(audit_table);
        r
    } else if contains_str(msg.as_slice(), "timeout") || contains_str(msg.as_slice(), "timed out") {
        String::from_str("查询审计日志超时")
    } else if contains_str(msg.as_slice(), "connect") || contains_str(
        msg.as_slice(),
        "connection",
    ) {
        String::from_str("无法连接集群查询审计日志")
    } else {
        String::from_str("查询审计日志失败")
    }
}

// ---------------------------------------------------------------------------
// Table references
// ---------------------------------------------------------------------------

/// Pattern of a table reference after `FROM`, `JOIN` or `INTO`: up to three
/// dot-separated (optionally back-quoted) identifiers, captured as group 1.
pub const TABLE_REF_PATTERN: &'static str = r"(?i)\b(?:from|join|into)\s+((?:`?[A-Za-z_][\w$]*`?\.){0,2}`?[A-Za-z_][\w$]*`?)";

/// Pattern used if the main one fails to compile.
pub const TABLE_REF_FALLBACK_PATTERN: &'static str = r"from\s+(\w+)";

/// Capture group 1 of every successive non-overlapping match of the
/// regular expression `pattern` in `text`, in the order
/// `regex::Regex::captures_iter` yields the matches (`None` for a match in
/// which the group took no part), or `None` if `pattern` does not compile.
pub uninterp spec fn regex_group1(pattern: Seq<char>, text: Seq<char>) -> Option<Seq<Option<Seq<char>>>>;

/// Compiles `pattern` with `regex::Regex::new` and takes capture group 1 of
/// each match of `captures_iter` over `text`. The contract names the result;
/// the regex crate decides it.
#[verifier::external_body]
fn regex_group1_matches(pattern: &str, text: &str) -> (r: Option<Vec<Option<String>>>)
    ensures
        match r {
            Some(v) => regex_group1(pattern@, text@) == Some(groups_view(v@)),
            None => regex_group1(pattern@, text@) is None,
        },
{
    match regex::Regex::new(pattern) {
        Ok(re) => Some(re.captures_iter(text).map(|c| c.get(1).map(|m| m.as_str().to_string())).collect()),
        Err(_) => None,
    }
}

/// A table of the internal or audit schemas, or a keyword mistaken for one.
pub open spec fn ignored_table(database: Seq<char>, table: Seq<char>) -> bool {
    let db = ascii_lower(database);
    let tbl = ascii_lower(table);
    db == "information_schema"@ || db == "_statistics_"@ || db == "__internal_schema"@ || db
        == "mysql"@ || db == "starrocks_audit_db__"@ || ends_with(db, ".information_schema"@) || tbl
        == "starrocks_audit_tbl__"@ || tbl == "audit_log"@ || tbl == "select"@ || tbl == "where"@
        || tbl == "dual"@ || tbl == "unnest"@ || tbl == "values"@
}

/// Whether a referenced table is skipped in access statistics.
pub fn is_ignored_table(database: &str, table: &str) -> (r: bool)
    ensures
        r == ignored_table(database@, table@),
{
    let d = chars_of(database);
    let t = chars_of(table);
    let db = to_ascii_lower(d.as_slice());
    let tbl = to_ascii_lower(t.as_slice());
    let suffix = chars_of(".information_schema");
    eq_lit(db.as_slice(), "information_schema") || eq_lit(db.as_slice(), "_statistics_")
        || eq_lit(db.as_slice(), "__internal_schema") || eq_lit(db.as_slice(), "mysql") || eq_lit(
        db.as_slice(),
        "starrocks_audit_db__",
    ) || ends_with_exec(db.as_slice(), suffix.as_slice()) || eq_lit(
        tbl.as_slice(),
        "starrocks_audit_tbl__",
    ) || eq_lit(tbl.as_slice(), "audit_log") || eq_lit(tbl.as_slice(), "select") || eq_lit(
        tbl.as_slice(),
        "where",
    ) || eq_lit(tbl.as_slice(), "dual") || eq_lit(tbl.as_slice(), "unnest") || eq_lit(
        tbl.as_slice(),
        "values",
    )
}

/// `s` without back-quotes.
pub open spec fn unquote(s: Seq<char>) -> Seq<char> {
    s.filter(|c: char| c != '`')
}

/// A catalog other than the default one is named.
pub open spec fn foreign_catalog(catalog: Seq<char>) -> bool {
    catalog.len() > 0 && catalog != "default_catalog"@
}

/// The (database, table) a captured reference names, if it is a usable one.
pub open spec fn table_ref_of(raw: Seq<char>, fallback_db: Seq<char>, catalog: Seq<char>) -> Option<
    (Seq<char>, Seq<char>),
> {
    let cleaned = unquote(raw);
    if cleaned.len() == 0 || cleaned.contains('(') {
        None
    } else {
        let parts = split(cleaned, '.').filter(|p: Seq<char>| p.len() > 0);
        if parts.len() == 3 {
            Some((parts[0] + "."@ + parts[1], parts[2]))
        } else if parts.len() == 2 {
            if foreign_catalog(catalog) {
                Some((catalog + "."@ + parts[0], parts[1]))
            } else {
                Some((parts[0], parts[1]))
            }
        } else if parts.len() == 1 {
            let db = if fallback_db.len() == 0 {
                Seq::empty()
            } else if foreign_catalog(catalog) {
                catalog + "."@ + fallback_db
            } else {
                fallback_db
            };
            Some((db, parts[0]))
        } else {
            None
        }
    }
}

/// Filtering by a predicate that every element meets keeps the sequence.
proof fn lemma_filter_keeps_all<A>(s: Seq<A>, pred: spec_fn(A) -> bool)
    requires
        forall|i: int| 0 <= i < s.len() ==> pred(#[trigger] s[i]),
    ensures
        s.filter(pred) == s,
    decreases s.len(),
{
    reveal(Seq::filter);
    if s.len() > 0 {
        lemma_filter_keeps_all(s.drop_last(), pred);
        assert(s.drop_last().push(s.last()) =~= s);
    }
}

/// Splitting `db.table` at dots gives the two names when neither holds a dot.
proof fn lemma_split_two(db: Seq<char>, table: Seq<char>)
    requires
        forall|i: int| 0 <= i < db.len() ==> db[i] != '.',
        forall|i: int| 0 <= i < table.len() ==> table[i] != '.',
    ensures
        split(db + "."@ + table, '.') == seq![db, table],
{
    reveal_strlit(".");
    let raw = db + "."@ + table;
    let n = db.len() as int;
    assert(raw[n] == '.');
    assert(raw.contains('.'));
    crate::text::lemma_find_char_some(raw, '.');
    let s = crate::text::find_char(raw, '.')->0;
    if s < n {
        assert(raw[s] == db[s]);
    }
    assert(s == n);
    assert(raw.take(s) =~= db);
    assert(raw.skip(s + 1) =~= table);
    assert(!table.contains('.'));
    assert(split(table, '.') == seq![table]);
    assert(split(raw, '.') =~= seq![db] + seq![table]);
}

/// `db.table` is unchanged by unquoting and holds no `(` when neither name
/// holds a back-quote or a `(`.
proof fn lemma_two_part_plain(db: Seq<char>, table: Seq<char>)
    requires
        forall|i: int| 0 <= i < db.len() ==> db[i] != '`' && db[i] != '(',
        forall|i: int| 0 <= i < table.len() ==> table[i] != '`' && table[i] != '(',
    ensures
        unquote(db + "."@ + table) == db + "."@ + table,
        !(db + "."@ + table).contains('('),
{
    reveal_strlit(".");
    let raw = db + "."@ + table;
    assert forall|i: int| 0 <= i < raw.len() implies raw[i] != '`' && raw[i] != '(' by {
        if i < db.len() {
            assert(raw[i] == db[i]);
        } else if i > db.len() {
            assert(raw[i] == table[i - db.len() - 1]);
        }
    }
    lemma_filter_keeps_all(raw, |c: char| c != '`');
}

/// Filtering two parts by a test both pass keeps them.
proof fn lemma_parts_kept(parts: Seq<Seq<char>>)
    requires
        parts.len() == 2,
    ensures
        forall|pred: spec_fn(Seq<char>) -> bool|
            pred(parts[0]) && pred(parts[1]) ==> #[trigger] parts.filter(pred) == parts,
{
    assert forall|pred: spec_fn(Seq<char>) -> bool|
        pred(parts[0]) && pred(parts[1]) implies #[trigger] parts.filter(pred) == parts by {
        assert forall|i: int| 0 <= i < parts.len() implies pred(#[trigger] parts[i]) by {
            if i == 0 {
            } else {
                assert(i == 1);
            }
        }
        lemma_filter_keeps_all(parts, pred);
    }
}

/// A reference whose unquoted text has no `(` and splits into two names
/// resolves to those names, qualified by a foreign catalog.
proof fn lemma_two_part_resolution(
    raw: Seq<char>,
    db: Seq<char>,
    table: Seq<char>,
    fallback_db: Seq<char>,
    catalog: Seq<char>,
)
    requires
        db.len() > 0,
        table.len() > 0,
        unquote(raw) == raw,
        !raw.contains('('),
        split(raw, '.') == seq![db, table],
    ensures
        table_ref_of(raw, fallback_db, catalog) == Some(
            (
                if catalog.len() > 0 && catalog != "default_catalog"@ {
                    catalog + "."@ + db
                } else {
                    db
                },
                table,
            ),
        ),
{
    lemma_parts_kept(split(raw, '.'));
}

/// A two-part reference `db.table` names table `table` of database `db`,
/// qualified by the session catalog when that is a named catalog other than
/// `default_catalog`: a reference read under an external catalog counts
/// toward that catalog's database, never toward the internal one of the
/// same name.
pub proof fn law_two_part_reference(db: Seq<char>, table: Seq<char>, fallback_db: Seq<char>, catalog: Seq<char>)
    requires
        plain_name(db),
        plain_name(table),
    ensures
        table_ref_of(db + "."@ + table, fallback_db, catalog) == Some(
            (
                if catalog.len() > 0 && catalog != "default_catalog"@ {
                    catalog + "."@ + db
                } else {
                    db
                },
                table,
            ),
        ),
{
    lemma_split_two(db, table);
    lemma_two_part_plain(db, table);
    lemma_two_part_resolution(db + "."@ + table, db, table, fallback_db, catalog);
}

/// A name as a reference part: non-empty, with no dot, back-quote or `(`.
pub open spec fn plain_name(s: Seq<char>) -> bool {
    s.len() > 0 && forall|i: int| 0 <= i < s.len() ==> s[i] != '.' && s[i] != '`' && s[i] != '('
}

/// No back-quote and no `(` in `s`.
spec fn unquoted_text(s: Seq<char>) -> bool {
    forall|i: int| 0 <= i < s.len() ==> s[i] != '`' && s[i] != '('
}

proof fn lemma_unquoted_plain(raw: Seq<char>)
    requires
        unquoted_text(raw),
    ensures
        unquote(raw) == raw,
        !raw.contains('('),
{
    lemma_filter_keeps_all(raw, |c: char| c != '`');
}

/// A text without a dot splits into itself.
proof fn lemma_split_one(t: Seq<char>)
    requires
        forall|i: int| 0 <= i < t.len() ==> t[i] != '.',
    ensures
        split(t, '.') == seq![t],
{
    assert(!t.contains('.'));
}

/// Filtering one part by a test it passes keeps it.
proof fn lemma_part_kept(parts: Seq<Seq<char>>)
    requires
        parts.len() == 1,
    ensures
        forall|pred: spec_fn(Seq<char>) -> bool| pred(parts[0]) ==> #[trigger] parts.filter(pred) == parts,
{
    assert forall|pred: spec_fn(Seq<char>) -> bool| pred(parts[0]) implies #[trigger] parts.filter(pred) == parts by {
        assert forall|i: int| 0 <= i < parts.len() implies pred(#[trigger] parts[i]) by {
            assert(i == 0);
        }
        lemma_filter_keeps_all(parts, pred);
    }
}

proof fn lemma_one_part_resolution(raw: Seq<char>, fallback_db: Seq<char>, catalog: Seq<char>)
    requires
        raw.len() > 0,
        unquote(raw) == raw,
        !raw.contains('('),
        split(raw, '.') == seq![raw],
    ensures
        table_ref_of(raw, fallback_db, catalog) == Some(
            (
                if fallback_db.len() == 0 {
                    Seq::empty()
                } else if catalog.len() > 0 && catalog != "default_catalog"@ {
                    catalog + "."@ + fallback_db
                } else {
                    fallback_db
                },
                raw,
            ),
        ),
{
    lemma_part_kept(split(raw, '.'));
}

/// Splitting `x.rest` at dots gives `x` then the pieces of `rest`, when `x`
/// holds no dot.
proof fn lemma_split_cons(x: Seq<char>, rest: Seq<char>)
    requires
        forall|i: int| 0 <= i < x.len() ==> x[i] != '.',
    ensures
        split(x + "."@ + rest, '.') === seq![x] + split(rest, '.'),
{
    reveal_strlit(".");
    let raw = x + "."@ + rest;
    let n = x.len() as int;
    assert(raw[n] == '.');
    assert(raw.contains('.'));
    crate::text::lemma_find_char_some(raw, '.');
    let s = crate::text::find_char(raw, '.')->0;
    if s < n {
        assert(raw[s] == x[s]);
    }
    assert(s == n);
    assert(raw.take(s) =~= x);
    assert(raw.skip(s + 1) =~= rest);
}

proof fn lemma_three_parts_of(
    inner: Seq<Seq<char>>,
    whole: Seq<Seq<char>>,
    cat: Seq<char>,
    db: Seq<char>,
    table: Seq<char>,
)
    requires
        whole === seq![cat] + inner,
        inner === seq![db, table],
    ensures
        whole === seq![cat, db, table],
{
    assert(seq![cat] + seq![db, table] =~= seq![cat, db, table]);
}

proof fn lemma_assoc_dots(cat: Seq<char>, db: Seq<char>, table: Seq<char>)
    ensures
        cat + "."@ + db + "."@ + table === cat + "."@ + (db + "."@ + table),
{
    assert(cat + "."@ + db + "."@ + table =~= cat + "."@ + (db + "."@ + table));
}

proof fn lemma_three_part_resolution(
    raw: Seq<char>,
    cat: Seq<char>,
    db: Seq<char>,
    table: Seq<char>,
    fallback_db: Seq<char>,
    catalog: Seq<char>,
)
    requires
        cat.len() > 0,
        db.len() > 0,
        table.len() > 0,
        unquote(raw) == raw,
        !raw.contains('('),
        split(raw, '.') === seq![cat, db, table],
    ensures
        table_ref_of(raw, fallback_db, catalog) == Some((cat + "."@ + db, table)),
{
    lemma_parts_kept3(split(raw, '.'));
}

/// Filtering three parts by a test they all pass keeps them.
proof fn lemma_parts_kept3(parts: Seq<Seq<char>>)
    requires
        parts.len() == 3,
    ensures
        forall|pred: spec_fn(Seq<char>) -> bool|
            pred(parts[0]) && pred(parts[1]) && pred(parts[2]) ==> #[trigger] parts.filter(pred) == parts,
{
    assert forall|pred: spec_fn(Seq<char>) -> bool|
        pred(parts[0]) && pred(parts[1]) && pred(parts[2]) implies #[trigger] parts.filter(pred) == parts by {
        assert forall|i: int| 0 <= i < parts.len() implies pred(#[trigger] parts[i]) by {
            if i == 0 {
            } else if i == 1 {
            } else {
                assert(i == 2);
            }
        }
        lemma_filter_keeps_all(parts, pred);
    }
}

proof fn lemma_unquoted_join(a: Seq<char>, b: Seq<char>)
    requires
        unquoted_text(a),
        unquoted_text(b),
    ensures
        unquoted_text(a + "."@ + b),
{
    reveal_strlit(".");
    let raw = a + "."@ + b;
    assert forall|i: int| 0 <= i < raw.len() implies raw[i] != '`' && raw[i] != '(' by {
        if i < a.len() {
            assert(raw[i] == a[i]);
        } else if i > a.len() {
            assert(raw[i] == b[i - a.len() - 1]);
        }
    }
}

/// A three-part reference `catalog.db.table` names table `table` of
/// database `catalog.db`, whatever the session catalog.
pub proof fn law_three_part_reference(
    cat: Seq<char>,
    db: Seq<char>,
    table: Seq<char>,
    fallback_db: Seq<char>,
    catalog: Seq<char>,
)
    requires
        plain_name(cat),
        plain_name(db),
        plain_name(table),
    ensures
        table_ref_of(cat + "."@ + db + "."@ + table, fallback_db, catalog) == Some((cat + "."@ + db, table)),
{
    let inner = db + "."@ + table;
    let raw = cat + "."@ + db + "."@ + table;
    lemma_assoc_dots(cat, db, table);
    lemma_split_two(db, table);
    lemma_split_cons(cat, inner);
    lemma_three_parts_of(split(inner, '.'), split(raw, '.'), cat, db, table);
    lemma_unquoted_join(cat, db);
    lemma_unquoted_join(cat + "."@ + db, table);
    lemma_unquoted_plain(raw);
    lemma_three_part_resolution(raw, cat, db, table, fallback_db, catalog);
}

/// A bare table name belongs to the session database, qualified by the
/// session catalog when that is a named catalog other than
/// `default_catalog`; without a session database its database is empty.
pub proof fn law_one_part_reference(table: Seq<char>, fallback_db: Seq<char>, catalog: Seq<char>)
    requires
        plain_name(table),
    ensures
        table_ref_of(table, fallback_db, catalog) == Some(
            (
                if fallback_db.len() == 0 {
                    Seq::empty()
                } else if catalog.len() > 0 && catalog != "default_catalog"@ {
                    catalog + "."@ + fallback_db
                } else {
                    fallback_db
                },
                table,
            ),
        ),
{
    lemma_split_one(table);
    lemma_unquoted_plain(table);
    lemma_one_part_resolution(table, fallback_db, catalog);
}

/// The distinct, non-ignored table references of the captures, in order of
/// first appearance.
pub open spec fn table_refs(caps: Seq<Option<Seq<char>>>, fallback_db: Seq<char>, catalog: Seq<char>) -> Seq<
    (Seq<char>, Seq<char>),
>
    decreases caps.len(),
{
    if caps.len() == 0 {
        Seq::empty()
    } else {
        let prev = table_refs(caps.drop_last(), fallback_db, catalog);
        match caps.last() {
            Some(c) => match table_ref_of(c, fallback_db, catalog) {
                Some(p) => if !ignored_table(p.0, p.1) && !prev.contains(p) {
                    prev.push(p)
                } else {
                    prev
                },
                None => prev,
            },
            None => prev,
        }
    }
}

/// The table references of a statement are distinct, none of them is a
/// system or audit table (or a keyword caught as a name), and each is the
/// reference one of the captures resolves to.
pub proof fn law_table_refs_clean(caps: Seq<Option<Seq<char>>>, fallback_db: Seq<char>, catalog: Seq<char>)
    ensures
        ({
            let r = table_refs(caps, fallback_db, catalog);
            &&& forall|i: int| 0 <= i < r.len() ==> !ignored_table((#[trigger] r[i]).0, r[i].1)
            &&& forall|i: int, j: int| 0 <= i < j < r.len() ==> #[trigger] r[i] != #[trigger] r[j]
            &&& forall|i: int|
                0 <= i < r.len() ==> exists|c: int|
                    0 <= c < caps.len() && (#[trigger] caps[c]) is Some && table_ref_of(
                        caps[c]->0,
                        fallback_db,
                        catalog,
                    ) == Some(#[trigger] r[i])
        }),
    decreases caps.len(),
{
    if caps.len() > 0 {
        let init = caps.drop_last();
        law_table_refs_clean(init, fallback_db, catalog);
        let prev = table_refs(init, fallback_db, catalog);
        let r = table_refs(caps, fallback_db, catalog);
        assert forall|i: int|
            0 <= i < r.len() implies exists|c: int|
                0 <= c < caps.len() && (#[trigger] caps[c]) is Some && table_ref_of(
                        caps[c]->0,
                    fallback_db,
                    catalog,
                ) == Some(#[trigger] r[i]) by {
            if i < prev.len() {
                assert(r[i] == prev[i]);
                let c = choose|c: int|
                    0 <= c < init.len() && (#[trigger] init[c]) is Some && table_ref_of(
                        init[c]->0,
                        fallback_db,
                        catalog,
                    ) == Some(#[trigger] prev[i]);
                assert(caps[c] == init[c]);
            } else {
                assert(caps[caps.len() - 1] == caps.last());
            }
        }
        assert forall|i: int, j: int| 0 <= i < j < r.len() implies #[trigger] r[i] != #[trigger] r[j] by {
            if j >= prev.len() {
                assert(r[i] == prev[i]);
                assert(prev.contains(prev[i]));
            } else {
                assert(r[i] == prev[i] && r[j] == prev[j]);
            }
        }
        assert forall|i: int| 0 <= i < r.len() implies !ignored_table((#[trigger] r[i]).0, r[i].1) by {
            if i < prev.len() {
                assert(r[i] == prev[i]);
            }
        }
    }
}

/// The model of capture groups (a group that did not take part is `None`).
pub open spec fn groups_view(v: Seq<Option<String>>) -> Seq<Option<Seq<char>>> {
    v.map_values(
        |g: Option<String>|
            match g {
                Some(s) => Some(s@),
                None => None,
            },
    )
}

/// The model of a list of (database, table) pairs.
pub open spec fn pairs_view(v: Seq<(String, String)>) -> Seq<(Seq<char>, Seq<char>)> {
    v.map_values(|p: (String, String)| (p.0@, p.1@))
}

fn unquote_exec(s: &[char]) -> (r: Vec<char>)
    ensures
        r@ == unquote(s@),
{
    let mut r: Vec<char> = Vec::new();
    let mut i: usize = 0;
    while i < s.len()
        invariant
            i <= s.len(),
            r@ == s@.take(i as int).filter(|c: char| c != '`'),
        decreases s.len() - i,
    {
        proof {
            assert(s@.take(i + 1).drop_last() =~= s@.take(i as int));
            reveal_with_fuel(Seq::<char>::filter, 1);
        }
        if s[i] != '`' {
            r.push(s[i]);
        }
        i += 1;
    }
    assert(s@.take(s.len() as int) =~= s@);
    r
}

fn nonempty_parts(parts: Vec<Vec<char>>) -> (r: Vec<Vec<char>>)
    ensures
        r@.map_values(|p: Vec<char>| p@) == parts@.map_values(|p: Vec<char>| p@).filter(
            |p: Seq<char>| p.len() > 0,
        ),
{
    let ghost pv = parts@.map_values(|p: Vec<char>| p@);
    let mut parts = parts;
    let ghost orig = parts@;
    let mut r: Vec<Vec<char>> = Vec::new();
    let n = parts.len();
    let mut i: usize = 0;
    while i < n
        invariant
            n == orig.len(),
            i <= n,
            pv == orig.map_values(|p: Vec<char>| p@),
            parts@.len() == n - i,
            forall|t: int| 0 <= t < parts@.len() ==> parts@[t] == orig[t + i],
            r@.map_values(|p: Vec<char>| p@) == pv.take(i as int).filter(|p: Seq<char>| p.len() > 0),
        decreases n - i,
    {
        proof {
            assert(pv.take(i + 1).drop_last() =~= pv.take(i as int));
            reveal_with_fuel(Seq::<Seq<char>>::filter, 1);
        }
        let p = parts.remove(0);
        assert(p@ == pv[i as int]);
        let ghost r0 = r@;
        if p.len() > 0 {
            r.push(p);
            assert(r@.map_values(|q: Vec<char>| q@) =~= r0.map_values(|q: Vec<char>| q@).push(
                pv[i as int],
            ));
        }
        i += 1;
    }
    assert(pv.take(n as int) =~= pv);
    r
}

/// The reference a single capture names (see `table_ref_of`).
fn table_ref_exec(raw: &str, fallback_db: &str, catalog: &str) -> (r: Option<(String, String)>)
    ensures
        match r {
            Some(p) => table_ref_of(raw@, fallback_db@, catalog@) == Some((p.0@, p.1@)),
            None => table_ref_of(raw@, fallback_db@, catalog@) is None,
        },
{
    let rv = chars_of(raw);
    let cleaned = unquote_exec(rv.as_slice());
    if cleaned.len() == 0 || crate::text::has_char(cleaned.as_slice(), '(') {
        return None;
    }
    let pieces = split_exec(cleaned.as_slice(), '.');
    proof {
        assert(pieces@.map_values(|p: Vec<char>| p@) =~= split(cleaned@, '.'));
    }
    let parts = nonempty_parts(pieces);
    let ghost pv = parts@.map_values(|p: Vec<char>| p@);
    let cat = chars_of(catalog);
    let foreign = cat.len() > 0 && !eq_lit(cat.as_slice(), "default_catalog");
    if parts.len() == 3 {
        assert(pv[0] == parts@[0]@ && pv[1] == parts@[1]@ && pv[2] == parts@[2]@);
        let mut db = string_of(parts[0].as_slice());
        db.append(".");
        append_chars(&mut db, parts[1].as_slice());
        Some((db, string_of(parts[2].as_slice())))
    } else if parts.len() == 2 {
        assert(pv[0] == parts@[0]@ && pv[1] == parts@[1]@);
        if foreign {
            let mut db = String::from_str(catalog);
            db.append(".");
            append_chars(&mut db, parts[0].as_slice());
            Some((db, string_of(parts[1].as_slice())))
        } else {
            Some((string_of(parts[0].as_slice()), string_of(parts[1].as_slice())))
        }
    } else if parts.len() == 1 {
        assert(pv[0] == parts@[0]@);
        let fb = chars_of(fallback_db);
        let db = if fb.len() == 0 {
            String::new()
        } else if foreign {
            let mut d = String::from_str(catalog);
            d.append(".");
            d.append(fallback_db);
            d
        } else {
            String::from_str(fallback_db)
        };
        Some((db, string_of(parts[0].as_slice())))
    } else {
        None
    }
}

fn contains_pair(v: &[(String, String)], a: &str, b: &str) -> (r: bool)
    ensures
        r == pairs_view(v@).contains((a@, b@)),
{
    let mut i: usize = 0;
    while i < v.len()
        invariant
            i <= v.len(),
            forall|j: int| 0 <= j < i ==> pairs_view(v@)[j] != (a@, b@),
        decreases v.len() - i,
    {
        if crate::text::str_eq(v[i].0.as_str(), a) && crate::text::str_eq(v[i].1.as_str(), b) {
            assert(pairs_view(v@)[i as int] == (a@, b@));
            return true;
        }
        i += 1;
    }
    false
}

/// The distinct, non-ignored (database, table) references named by regex
/// captures, in order of first appearance: back-quotes removed, empty and
/// function-call captures skipped, `catalog.db.table`, `db.table` and bare
/// `table` resolved against the session catalog and default database.
pub fn table_refs_from_captures(caps: &[Option<String>], fallback_db: &str, catalog: &str) -> (r: Vec<
    (String, String),
>)
    ensures
        pairs_view(r@) == table_refs(groups_view(caps@), fallback_db@, catalog@),
{
    let ghost cv = groups_view(caps@);
    let mut r: Vec<(String, String)> = Vec::new();
    let mut i: usize = 0;
    while i < caps.len()
        invariant
            i <= caps.len(),
            cv == groups_view(caps@),
            pairs_view(r@) == table_refs(cv.take(i as int), fallback_db@, catalog@),
        decreases caps.len() - i,
    {
        proof {
            assert(cv.take(i + 1).drop_last() =~= cv.take(i as int));
            assert(cv.take(i + 1).last() == cv[i as int]);
        }
        let item = match &caps[i] {
            Some(c) => table_ref_exec(c.as_str(), fallback_db, catalog),
            None => None,
        };
        match item {
            Some((db, tbl)) => {
                if !is_ignored_table(db.as_str(), tbl.as_str()) && !contains_pair(
                    r.as_slice(),
                    db.as_str(),
                    tbl.as_str(),
                ) {
                    let ghost r0 = r@;
                    let ghost pr = (db@, tbl@);
                    r.push((db, tbl));
                    assert(pairs_view(r@) =~= pairs_view(r0).push(pr));
                }
            },
            None => {},
        }
        i += 1;
    }
    assert(cv.take(caps.len() as int) =~= cv);
    r
}

/// The table references of a statement: those of the captures of the main
/// pattern (or of the fallback pattern), none when neither applies.
pub open spec fn stmt_table_refs(stmt: Seq<char>, fallback_db: Seq<char>, catalog: Seq<char>) -> Seq<(Seq<char>, Seq<char>)> {
    match regex_group1(TABLE_REF_PATTERN@, stmt) {
        Some(caps) => table_refs(caps, fallback_db, catalog),
        None => match regex_group1(TABLE_REF_FALLBACK_PATTERN@, stmt) {
            Some(caps) => table_refs(caps, fallback_db, catalog),
            None => Seq::empty(),
        },
    }
}

/// The table references of an audited statement: the captures of the table
/// pattern (or of the fallback pattern, should the main one not compile),
/// resolved as `table_refs_from_captures` says.
pub fn extract_table_refs(stmt: &str, fallback_db: &str, catalog: &str) -> (r: Vec<
    (String, String),
>)
    ensures
        pairs_view(r@) == stmt_table_refs(stmt@, fallback_db@, catalog@),
        match regex_group1(TABLE_REF_PATTERN@, stmt@) {
            Some(caps) => pairs_view(r@) == table_refs(caps, fallback_db@, catalog@),
            None => match regex_group1(TABLE_REF_FALLBACK_PATTERN@, stmt@) {
                Some(caps) => pairs_view(r@) == table_refs(caps, fallback_db@, catalog@),
                None => r@.len() == 0,
            },
        },
{
    let caps = match regex_group1_matches(TABLE_REF_PATTERN, stmt) {
        Some(c) => Some(c),
        None => regex_group1_matches(TABLE_REF_FALLBACK_PATTERN, stmt),
    };
    match caps {
        Some(c) => table_refs_from_captures(c.as_slice(), fallback_db, catalog),
        None => Vec::new(),
    }
}

// ---------------------------------------------------------------------------
// Row fields and the SQL of one query
// ---------------------------------------------------------------------------

/// The last position of `name` among `columns`, if any.
pub open spec fn last_column(columns: Seq<Seq<char>>, name: Seq<char>) -> Option<int>
    decreases columns.len(),
{
    if columns.len() == 0 {
        None
    } else if columns.last() == name {
        Some(columns.len() - 1)
    } else {
        last_column(columns.drop_last(), name)
    }
}

/// The value of column `name` in `row` (the last column of that name wins),
/// or the empty text when the column or the cell is missing.
pub open spec fn row_field_spec(columns: Seq<Seq<char>>, row: Seq<Seq<char>>, name: Seq<char>) -> Seq<
    char,
> {
    match last_column(columns, name) {
        Some(i) => if i < row.len() {
            row[i]
        } else {
            Seq::empty()
        },
        None => Seq::empty(),
    }
}

/// The position of column `name` (the last one of that name).
pub fn column_position(columns: &[String], name: &str) -> (r: Option<usize>)
    ensures
        match r {
            Some(i) => last_column(columns@.map_values(|s: String| s@), name@) == Some(i as int),
            None => last_column(columns@.map_values(|s: String| s@), name@) is None,
        },
{
    let ghost cv = columns@.map_values(|s: String| s@);
    let mut i: usize = columns.len();
    assert(cv.take(i as int) =~= cv);
    while i > 0
        invariant
            i <= columns.len(),
            cv == columns@.map_values(|s: String| s@),
            last_column(cv, name@) == last_column(cv.take(i as int), name@),
        decreases i,
    {
        proof {
            assert(cv.take(i as int).drop_last() =~= cv.take(i - 1));
            assert(cv.take(i as int).last() == columns@[i - 1]@);
        }
        if crate::text::str_eq(columns[i - 1].as_str(), name) {
            return Some(i - 1);
        }
        i -= 1;
    }
    proof {
        assert(cv.take(0) =~= Seq::<Seq<char>>::empty());
    }
    None
}

/// The value of a named column in an audit row (empty if absent), the
/// columns being the lower-cased result columns.
pub fn row_field(columns: &[String], row: &[String], name: &str) -> (r: String)
    ensures
        r@ == row_field_spec(
            columns@.map_values(|s: String| s@),
            row@.map_values(|s: String| s@),
            name@,
        ),
{
    match column_position(columns, name) {
        Some(i) => if i < row.len() {
            row[i].clone()
        } else {
            String::new()
        },
        None => String::new(),
    }
}

/// A query id made only of hexadecimal digits and dashes (never empty).
pub open spec fn query_id_valid(q: Seq<char>) -> bool {
    q.len() > 0 && forall|i: int| 0 <= i < q.len() ==> is_hex_ascii(q[i]) || q[i] == '-'
}

/// The statement that reads the SQL and database of one query from the
/// audit log.
pub open spec fn query_sql_text(cluster_type: ClusterType, audit_table: Seq<char>, time_field: Seq<char>, query_id: Seq<char>) -> Seq<char> {
    "SELECT `stmt`, COALESCE(`db`, '') AS `database` FROM "@ + audit_table + " WHERE `"@
        + match cluster_type {
        ClusterType::StarRocks => "queryId"@,
        ClusterType::Doris => "query_id"@,
    } + "` = '"@ + query_id + "' ORDER BY `"@ + time_field + "` DESC LIMIT 1"@
}

/// Builds the statement that reads one query's SQL from the audit log, after
/// checking the query id (which is embedded in the statement).
pub fn query_sql_statement(
    cluster_type: ClusterType,
    audit_table: &str,
    time_field: &str,
    query_id: &str,
) -> (r: Result<String, String>)
    ensures
        query_id_valid(query_id@) ==> (r matches Ok(s) && s@ == query_sql_text(
            cluster_type,
            audit_table@,
            time_field@,
            query_id@,
        )),
        !query_id_valid(query_id@) ==> (r matches Err(e) && e@ == "query_id 格式非法"@),
{
    let q = chars_of(query_id);
    let mut ok = q.len() > 0;
    let mut i: usize = 0;
    while i < q.len()
        invariant
            i <= q.len(),
            ok == (q@.len() > 0 && forall|j: int| 0 <= j < i ==> is_hex_ascii(q@[j]) || q@[j] == '-'),
        decreases q.len() - i,
    {
        let u: u32 = q[i] as u32;
        let good = (48 <= u && u <= 57) || (65 <= u && u <= 70) || (97 <= u && u <= 102) || q[i]
            == '-';
        ok = ok && good;
        i += 1;
    }
    if !ok {
        return Err(String::from_str("query_id 格式非法"));
    }
    let mut s = String::from_str("SELECT `stmt`, COALESCE(`db`, '') AS `database` FROM ");
    s.append(audit_table);
    s.append(" WHERE `");
    match cluster_type {
        ClusterType::StarRocks => s.append("queryId"),
        ClusterType::Doris => s.append("query_id"),
    }
    s.append("` = '");
    s.append(query_id);
    s.append("' ORDER BY `");
    s.append(time_field);
    s.append("` DESC LIMIT 1");
    Ok(s)
}

/// The first position of `name` among `columns`, if any.
pub open spec fn first_column(columns: Seq<Seq<char>>, name: Seq<char>) -> Option<int>
    decreases columns.len(),
{
    if columns.len() == 0 {
        None
    } else if columns[0] == name {
        Some(0)
    } else {
        match first_column(columns.drop_first(), name) {
            Some(i) => Some(i + 1),
            None => None,
        }
    }
}

/// The first-row cell of the first column named `name`, or empty.
pub open spec fn first_cell(columns: Seq<Seq<char>>, rows: Seq<Seq<Seq<char>>>, name: Seq<char>) -> Seq<char> {
    match first_column(columns, name) {
        Some(i) => if rows.len() > 0 && i < rows[0].len() {
            rows[0][i]
        } else {
            Seq::empty()
        },
        None => Seq::empty(),
    }
}

/// The model of result rows.
pub open spec fn rows_view(rows: Seq<Vec<String>>) -> Seq<Seq<Seq<char>>> {
    rows.map_values(|r: Vec<String>| r@.map_values(|s: String| s@))
}

/// The message when the audit log has no SQL for a query.
pub open spec fn sql_not_found_text(query_id: Seq<char>) -> Seq<char> {
    "审计日志中找不到该查询的 SQL（query_id="@ + query_id + "，可能已超出保留期）"@
}

pub(crate) fn first_column_exec(columns: &[String], name: &str) -> (r: Option<usize>)
    ensures
        match r {
            Some(i) => first_column(columns@.map_values(|s: String| s@), name@) == Some(i as int),
            None => first_column(columns@.map_values(|s: String| s@), name@) is None,
        },
{
    let ghost cv = columns@.map_values(|s: String| s@);
    let mut i: usize = 0;
    assert(cv.skip(0) =~= cv);
    while i < columns.len()
        invariant
            i <= columns.len(),
            cv == columns@.map_values(|s: String| s@),
            first_column(cv, name@) == match first_column(cv.skip(i as int), name@) {
                Some(k) => Some(k + i),
                None => None::<int>,
            },
        decreases columns.len() - i,
    {
        proof {
            assert(cv.skip(i as int).drop_first() =~= cv.skip(i + 1));
            assert(cv.skip(i as int)[0] == columns@[i as int]@);
        }
        if crate::text::str_eq(columns[i].as_str(), name) {
            return Some(i);
        }
        i += 1;
    }
    proof {
        assert(cv.skip(i as int).len() == 0);
    }
    None
}

fn first_row_cell(columns: &[String], rows: &[Vec<String>], name: &str) -> (r: String)
    ensures
        r@ == first_cell(columns@.map_values(|s: String| s@), rows_view(rows@), name@),
{
    match first_column_exec(columns, name) {
        Some(i) => {
            if rows.len() > 0 && i < rows[0].len() {
                rows[0][i].clone()
            } else {
                String::new()
            }
        },
        None => String::new(),
    }
}

/// The SQL and database of a query from the audit lookup result: the first
/// row's `stmt` and `database` cells; no SQL (or only white space) means the
/// query is not (or no longer) in the audit log.
pub fn query_sql_result(columns: &[String], rows: &[Vec<String>], query_id: &str) -> (r: Result<
    (String, String),
    String,
>)
    ensures
        ({
            let cv = columns@.map_values(|s: String| s@);
            let stmt = first_cell(cv, rows_view(rows@), "stmt"@);
            let db = first_cell(cv, rows_view(rows@), "database"@);
            if trim(stmt).len() == 0 {
                r matches Err(e) && e@ == sql_not_found_text(query_id@)
            } else {
                r matches Ok(p) && p.0@ == stmt && p.1@ == db
            }
        }),
{
    let stmt = first_row_cell(columns, rows, "stmt");
    let db = first_row_cell(columns, rows, "database");
    let sv = chars_of(stmt.as_str());
    let t = trim_exec(sv.as_slice());
    if t.len() == 0 {
        let mut e = String::from_str("审计日志中找不到该查询的 SQL（query_id=");
        e.append(query_id);
        e.append("，可能已超出保留期）");
        return Err(e);
    }
    Ok((stmt, db))
}


// ---------------------------------------------------------------------------
// Audit-log queries
// ---------------------------------------------------------------------------

/// A fixed piece of the audit-log query of table accesses.
pub const TOP_ACCESS_SQL_0: &'static str = r#"
            SELECT
                COALESCE(`catalog`, '') as catalog,
                COALESCE(`db`, '') as db_name,
                `stmt`,
                `user`,
                `"#;

/// A fixed piece of the audit-log query of table accesses.
pub const TOP_ACCESS_SQL_1: &'static str = r#"` as last_access
            FROM "#;

/// A fixed piece of the audit-log query of table accesses.
pub const TOP_ACCESS_SQL_2: &'static str = r#"
            WHERE `"#;

/// A fixed piece of the audit-log query of table accesses.
pub const TOP_ACCESS_SQL_3: &'static str = r#"` >= DATE_SUB(NOW(), INTERVAL "#;

/// A fixed piece of the audit-log query of table accesses.
pub const TOP_ACCESS_SQL_4: &'static str = r#" HOUR)
              AND "#;

/// A fixed piece of the audit-log query of table accesses.
pub const TOP_ACCESS_SQL_5: &'static str = r#" = 1
              AND `state` = 'EOF'
              AND LOWER(`stmt`) LIKE '% from %'
              AND LOWER(`stmt`) NOT LIKE '%"#;

/// A fixed piece of the audit-log query of table accesses.
pub const TOP_ACCESS_SQL_6: &'static str = r#"%'
            "#;

/// The audit-log query of table accesses.
pub open spec fn top_access_sql_text(time_field: Seq<char>, audit_table: Seq<char>, hours: int, is_query_field: Seq<char>, audit_table_filter: Seq<char>) -> Seq<char> {
    TOP_ACCESS_SQL_0@ + time_field + TOP_ACCESS_SQL_1@ + audit_table + TOP_ACCESS_SQL_2@ + time_field + TOP_ACCESS_SQL_3@ + int_dec(hours) + TOP_ACCESS_SQL_4@ + is_query_field + TOP_ACCESS_SQL_5@ + audit_table_filter + TOP_ACCESS_SQL_6@
}

/// The audit-log query of table accesses.
pub fn top_access_sql(time_field: &str, audit_table: &str, hours: i64, is_query_field: &str, audit_table_filter: &str) -> (r: String)
    ensures
        r@ == top_access_sql_text(time_field@, audit_table@, hours as int, is_query_field@, audit_table_filter@),
{
    let mut r = String::from_str(TOP_ACCESS_SQL_0);
    r.append(time_field);
    r.append(TOP_ACCESS_SQL_1);
    r.append(audit_table);
    r.append(TOP_ACCESS_SQL_2);
    r.append(time_field);
    r.append(TOP_ACCESS_SQL_3);
    let n3 = i64_string(hours);
    r.append(n3.as_str());
    r.append(TOP_ACCESS_SQL_4);
    r.append(is_query_field);
    r.append(TOP_ACCESS_SQL_5);
    r.append(audit_table_filter);
    r.append(TOP_ACCESS_SQL_6);
    r
}

/// A fixed piece of the StarRocks audit-log query of slow queries.
pub const SLOW_SQL_STARROCKS_0: &'static str = r#"
            SELECT 
                queryId as query_id,
                `user`,
                COALESCE(`db`, '') as `database`,
                `queryTime` as duration_ms,
                `scanRows` as scan_rows,
                `scanBytes` as scan_bytes,
                `returnRows` as return_rows,
                `cpuCostNs` / 1000000 as cpu_cost_ms,
                `memCostBytes` as mem_cost_bytes,
                `timestamp`,
                `state`,
                LEFT(`stmt`, 200) as query_preview
            FROM "#;

/// A fixed piece of the StarRocks audit-log query of slow queries.
pub const SLOW_SQL_STARROCKS_1: &'static str = r#"
                WHERE `"#;

/// A fixed piece of the StarRocks audit-log query of slow queries.
pub const SLOW_SQL_STARROCKS_2: &'static str = r#"` >= DATE_SUB(NOW(), INTERVAL "#;

/// A fixed piece of the StarRocks audit-log query of slow queries.
pub const SLOW_SQL_STARROCKS_3: &'static str = r#" HOUR)
                    AND `"#;

/// A fixed piece of the StarRocks audit-log query of slow queries.
pub const SLOW_SQL_STARROCKS_4: &'static str = r#"` >= "#;

/// A fixed piece of the StarRocks audit-log query of slow queries.
pub const SLOW_SQL_STARROCKS_5: &'static str = r#"
                    AND "#;

/// A fixed piece of the StarRocks audit-log query of slow queries.
pub const SLOW_SQL_STARROCKS_6: &'static str = r#" = 1
                    AND `state` = 'EOF'
                ORDER BY `"#;

/// A fixed piece of the StarRocks audit-log query of slow queries.
pub const SLOW_SQL_STARROCKS_7: &'static str = r#"` DESC
                LIMIT "#;

/// A fixed piece of the StarRocks audit-log query of slow queries.
pub const SLOW_SQL_STARROCKS_8: &'static str = r#"
                "#;

/// The StarRocks audit-log query of slow queries.
pub open spec fn slow_sql_starrocks_text(audit_table: Seq<char>, time_field: Seq<char>, hours: int, query_time_field: Seq<char>, min_duration_ms: int, is_query_field: Seq<char>, limit: nat) -> Seq<char> {
    SLOW_SQL_STARROCKS_0@ + audit_table + SLOW_SQL_STARROCKS_1@ + time_field + SLOW_SQL_STARROCKS_2@ + int_dec(hours) + SLOW_SQL_STARROCKS_3@ + query_time_field + SLOW_SQL_STARROCKS_4@ + int_dec(min_duration_ms) + SLOW_SQL_STARROCKS_5@ + is_query_field + SLOW_SQL_STARROCKS_6@ + query_time_field + SLOW_SQL_STARROCKS_7@ + nat_dec(limit) + SLOW_SQL_STARROCKS_8@
}

/// The StarRocks audit-log query of slow queries.
pub fn slow_queries_sql_starrocks(audit_table: &str, time_field: &str, hours: i64, query_time_field: &str, min_duration_ms: i64, is_query_field: &str, limit: u64) -> (r: String)
    ensures
        r@ == slow_sql_starrocks_text(audit_table@, time_field@, hours as int, query_time_field@, min_duration_ms as int, is_query_field@, limit as nat),
{
    let mut r = String::from_str(SLOW_SQL_STARROCKS_0);
    r.append(audit_table);
    r.append(SLOW_SQL_STARROCKS_1);
    r.append(time_field);
    r.append(SLOW_SQL_STARROCKS_2);
    let n2 = i64_string(hours);
    r.append(n2.as_str());
    r.append(SLOW_SQL_STARROCKS_3);
    r.append(query_time_field);
    r.append(SLOW_SQL_STARROCKS_4);
    let n4 = i64_string(min_duration_ms);
    r.append(n4.as_str());
    r.append(SLOW_SQL_STARROCKS_5);
    r.append(is_query_field);
    r.append(SLOW_SQL_STARROCKS_6);
    r.append(query_time_field);
    r.append(SLOW_SQL_STARROCKS_7);
    let n7 = string_of(u64_dec(limit).as_slice());
    r.append(n7.as_str());
    r.append(SLOW_SQL_STARROCKS_8);
    r
}

/// A fixed piece of the Doris audit-log query of slow queries.
pub const SLOW_SQL_DORIS_0: &'static str = r#"
                SELECT 
                    query_id,
                    `user`,
                    COALESCE(`db`, '') as `database`,
                    `query_time` as duration_ms,
                    `scan_rows`,
                    `scan_bytes`,
                    `return_rows`,
                    `cpu_time_ms` as cpu_cost_ms,
                    `peak_memory_bytes` as mem_cost_bytes,
                    `time` as timestamp,
                    `state`,
                    LEFT(`stmt`, 200) as query_preview
                FROM "#;

/// A fixed piece of the Doris audit-log query of slow queries.
pub const SLOW_SQL_DORIS_1: &'static str = r#"
                WHERE `"#;

/// A fixed piece of the Doris audit-log query of slow queries.
pub const SLOW_SQL_DORIS_2: &'static str = r#"` >= DATE_SUB(NOW(), INTERVAL "#;

/// A fixed piece of the Doris audit-log query of slow queries.
pub const SLOW_SQL_DORIS_3: &'static str = r#" HOUR)
                    AND `"#;

/// A fixed piece of the Doris audit-log query of slow queries.
pub const SLOW_SQL_DORIS_4: &'static str = r#"` >= "#;

/// A fixed piece of the Doris audit-log query of slow queries.
pub const SLOW_SQL_DORIS_5: &'static str = r#"
                    AND "#;

/// A fixed piece of the Doris audit-log query of slow queries.
pub const SLOW_SQL_DORIS_6: &'static str = r#" = 1
                AND `state` = 'EOF'
                ORDER BY `"#;

/// A fixed piece of the Doris audit-log query of slow queries.
pub const SLOW_SQL_DORIS_7: &'static str = r#"` DESC
            LIMIT "#;

/// A fixed piece of the Doris audit-log query of slow queries.
pub const SLOW_SQL_DORIS_8: &'static str = r#"
            "#;

/// The Doris audit-log query of slow queries.
pub open spec fn slow_sql_doris_text(audit_table: Seq<char>, time_field: Seq<char>, hours: int, query_time_field: Seq<char>, min_duration_ms: int, is_query_field: Seq<char>, limit: nat) -> Seq<char> {
    SLOW_SQL_DORIS_0@ + audit_table + SLOW_SQL_DORIS_1@ + time_field + SLOW_SQL_DORIS_2@ + int_dec(hours) + SLOW_SQL_DORIS_3@ + query_time_field + SLOW_SQL_DORIS_4@ + int_dec(min_duration_ms) + SLOW_SQL_DORIS_5@ + is_query_field + SLOW_SQL_DORIS_6@ + query_time_field + SLOW_SQL_DORIS_7@ + nat_dec(limit) + SLOW_SQL_DORIS_8@
}

/// The Doris audit-log query of slow queries.
pub fn slow_queries_sql_doris(audit_table: &str, time_field: &str, hours: i64, query_time_field: &str, min_duration_ms: i64, is_query_field: &str, limit: u64) -> (r: String)
    ensures
        r@ == slow_sql_doris_text(audit_table@, time_field@, hours as int, query_time_field@, min_duration_ms as int, is_query_field@, limit as nat),
{
    let mut r = String::from_str(SLOW_SQL_DORIS_0);
    r.append(audit_table);
    r.append(SLOW_SQL_DORIS_1);
    r.append(time_field);
    r.append(SLOW_SQL_DORIS_2);
    let n2 = i64_string(hours);
    r.append(n2.as_str());
    r.append(SLOW_SQL_DORIS_3);
    r.append(query_time_field);
    r.append(SLOW_SQL_DORIS_4);
    let n4 = i64_string(min_duration_ms);
    r.append(n4.as_str());
    r.append(SLOW_SQL_DORIS_5);
    r.append(is_query_field);
    r.append(SLOW_SQL_DORIS_6);
    r.append(query_time_field);
    r.append(SLOW_SQL_DORIS_7);
    let n7 = string_of(u64_dec(limit).as_slice());
    r.append(n7.as_str());
    r.append(SLOW_SQL_DORIS_8);
    r
}

// ---------------------------------------------------------------------------
// Slow queries
// ---------------------------------------------------------------------------

/// A slow query read from the audit log.
#[derive(Debug, Clone)]
pub struct SlowQuery {
    pub query_id: String,
    pub user: String,
    pub database: String,
    pub duration_ms: i64,
    pub scan_rows: Option<i64>,
    pub scan_bytes: Option<i64>,
    pub return_rows: Option<i64>,
    pub cpu_cost_ms: Option<i64>,
    pub mem_cost_bytes: Option<i64>,
    pub timestamp: String,
    pub state: String,
    /// The first 200 characters of the statement.
    pub query_preview: String,
}

/// The cell of column `name` (the last column of that name), if the row
/// has it.
pub open spec fn row_cell(columns: Seq<Seq<char>>, row: Seq<Seq<char>>, name: Seq<char>) -> Option<Seq<char>> {
    match last_column(columns, name) {
        Some(i) => if i < row.len() {
            Some(row[i])
        } else {
            None
        },
        None => None,
    }
}

/// A cell parsed as an integer (none when absent or not one).
pub open spec fn int_cell(c: Option<Seq<char>>) -> Option<i64> {
    match c {
        Some(t) => parsed_i64(t),
        None => None,
    }
}

/// A cell's text, or `default` when absent.
pub open spec fn cell_or(c: Option<Seq<char>>, default: Seq<char>) -> Seq<char> {
    match c {
        Some(t) => t,
        None => default,
    }
}

/// The slow query of a row: present when the row has the query id, user,
/// database and duration cells (a duration that is not an integer reads
/// as 0).
pub open spec fn slow_query_matches(q: SlowQuery, columns: Seq<Seq<char>>, row: Seq<Seq<char>>) -> bool {
    &&& row_cell(columns, row, "query_id"@) == Some(q.query_id@)
    &&& row_cell(columns, row, "user"@) == Some(q.user@)
    &&& row_cell(columns, row, "database"@) == Some(q.database@)
    &&& q.duration_ms == match int_cell(row_cell(columns, row, "duration_ms"@)) {
        Some(n) => n,
        None => 0,
    }
    &&& q.scan_rows == int_cell(row_cell(columns, row, "scan_rows"@))
    &&& q.scan_bytes == int_cell(row_cell(columns, row, "scan_bytes"@))
    &&& q.return_rows == int_cell(row_cell(columns, row, "return_rows"@))
    &&& q.cpu_cost_ms == int_cell(row_cell(columns, row, "cpu_cost_ms"@))
    &&& q.mem_cost_bytes == int_cell(row_cell(columns, row, "mem_cost_bytes"@))
    &&& q.timestamp@ == cell_or(row_cell(columns, row, "timestamp"@), Seq::empty())
    &&& q.state@ == cell_or(row_cell(columns, row, "state"@), "UNKNOWN"@)
    &&& q.query_preview@ == cell_or(row_cell(columns, row, "query_preview"@), Seq::empty())
}

/// A row has the cells a slow query needs.
pub open spec fn slow_query_row_complete(columns: Seq<Seq<char>>, row: Seq<Seq<char>>) -> bool {
    row_cell(columns, row, "query_id"@) is Some && row_cell(columns, row, "user"@) is Some
        && row_cell(columns, row, "database"@) is Some && row_cell(columns, row, "duration_ms"@) is Some
}

pub(crate) fn get_cell(columns: &[String], row: &[String], name: &str) -> (r: Option<String>)
    ensures
        match r {
            Some(c) => row_cell(texts(columns@), texts(row@), name@) == Some(c@),
            None => row_cell(texts(columns@), texts(row@), name@) is None,
        },
{
    assert(texts(columns@) =~= columns@.map_values(|s: String| s@));
    match column_position(columns, name) {
        Some(i) => if i < row.len() {
            Some(row[i].clone())
        } else {
            None
        },
        None => None,
    }
}

fn get_int_cell(columns: &[String], row: &[String], name: &str) -> (r: Option<i64>)
    ensures
        r == int_cell(row_cell(texts(columns@), texts(row@), name@)),
{
    match get_cell(columns, row, name) {
        Some(c) => parse_i64(c.as_str()),
        None => None,
    }
}

/// Reads one row of the slow-query answer (the columns named as the query
/// aliases them).
pub fn slow_query_from_row(columns: &[String], row: &[String]) -> (r: Option<SlowQuery>)
    ensures
        match r {
            Some(q) => slow_query_row_complete(texts(columns@), texts(row@)) && slow_query_matches(q, texts(columns@), texts(row@)),
            None => !slow_query_row_complete(texts(columns@), texts(row@)),
        },
{
    let query_id = get_cell(columns, row, "query_id");
    let user = get_cell(columns, row, "user");
    let database = get_cell(columns, row, "database");
    let duration = get_cell(columns, row, "duration_ms");
    match (query_id, user, database, duration) {
        (Some(q), Some(u), Some(d), Some(du)) => {
            let duration_ms = match parse_i64(du.as_str()) {
                Some(n) => n,
                None => 0,
            };
            let timestamp = match get_cell(columns, row, "timestamp") {
                Some(t) => t,
                None => String::new(),
            };
            let state = match get_cell(columns, row, "state") {
                Some(t) => t,
                None => String::from_str("UNKNOWN"),
            };
            let query_preview = match get_cell(columns, row, "query_preview") {
                Some(t) => t,
                None => String::new(),
            };
            Some(SlowQuery {
                query_id: q,
                user: u,
                database: d,
                duration_ms,
                scan_rows: get_int_cell(columns, row, "scan_rows"),
                scan_bytes: get_int_cell(columns, row, "scan_bytes"),
                return_rows: get_int_cell(columns, row, "return_rows"),
                cpu_cost_ms: get_int_cell(columns, row, "cpu_cost_ms"),
                mem_cost_bytes: get_int_cell(columns, row, "mem_cost_bytes"),
                timestamp,
                state,
                query_preview,
            })
        },
        _ => None,
    }
}


// ---------------------------------------------------------------------------
// Most accessed tables
// ---------------------------------------------------------------------------

/// A table and how its audited queries read it.
#[derive(Debug, Clone)]
pub struct TopTableByAccess {
    pub database: String,
    pub table: String,
    pub access_count: i64,
    pub last_access: Option<String>,
    pub unique_users: i32,
}

/// The accesses of one table while aggregating.
#[derive(Debug, Clone)]
pub struct TableAccess {
    pub database: String,
    pub table: String,
    pub access_count: i64,
    pub last_access: Option<String>,
    /// The distinct non-empty users, in order of appearance.
    pub users: Vec<String>,
}

/// Model of an aggregate.
pub struct AccessView {
    pub database: Seq<char>,
    pub table: Seq<char>,
    pub count: int,
    pub last: Option<Seq<char>>,
    pub users: Seq<Seq<char>>,
}

/// The model of an aggregate.
pub open spec fn access_view(a: TableAccess) -> AccessView {
    AccessView {
        database: a.database@,
        table: a.table@,
        count: a.access_count as int,
        last: match a.last_access {
            Some(l) => Some(l@),
            None => None,
        },
        users: texts(a.users@),
    }
}

/// The models of aggregates.
pub open spec fn access_views(v: Seq<TableAccess>) -> Seq<AccessView> {
    v.map_values(|a: TableAccess| access_view(a))
}

/// One table read: database, table, user and time of the query.
pub type AccessEvent = (Seq<char>, Seq<char>, Seq<char>, Seq<char>);

/// The position of a table's aggregate (`a.len()` when new).
pub open spec fn access_index(a: Seq<AccessView>, db: Seq<char>, table: Seq<char>) -> int
    decreases a.len(),
{
    if a.len() == 0 {
        0
    } else if a[0].database == db && a[0].table == table {
        0
    } else {
        1 + access_index(a.drop_first(), db, table)
    }
}

/// The latest access time: a non-empty time replaces an earlier one.
pub open spec fn later(last: Option<Seq<char>>, t: Seq<char>) -> Option<Seq<char>> {
    if t.len() > 0 && match last {
        Some(p) => text_lt(p, t),
        None => true,
    } {
        Some(t)
    } else {
        last
    }
}

/// A non-empty user added once.
pub open spec fn with_user(users: Seq<Seq<char>>, u: Seq<char>) -> Seq<Seq<char>> {
    if u.len() > 0 && !users.contains(u) {
        users.push(u)
    } else {
        users
    }
}

/// The aggregates after one table read.
pub open spec fn apply_access(a: Seq<AccessView>, e: AccessEvent) -> Seq<AccessView> {
    let j = access_index(a, e.0, e.1);
    if j < a.len() {
        a.update(
            j,
            AccessView {
                database: a[j].database,
                table: a[j].table,
                count: a[j].count + 1,
                last: later(a[j].last, e.3),
                users: with_user(a[j].users, e.2),
            },
        )
    } else {
        a.push(
            AccessView {
                database: e.0,
                table: e.1,
                count: 1,
                last: later(None, e.3),
                users: with_user(Seq::empty(), e.2),
            },
        )
    }
}

/// The aggregates of table reads, tables in order of first read.
pub open spec fn aggregate_accesses(es: Seq<AccessEvent>) -> Seq<AccessView>
    decreases es.len(),
{
    if es.len() == 0 {
        Seq::empty()
    } else {
        apply_access(aggregate_accesses(es.drop_last()), es.last())
    }
}

/// The table reads of one audit row (columns lower-cased): each table its
/// statement references, with the row's user and time; none for an empty
/// statement.
pub open spec fn row_accesses(columns: Seq<Seq<char>>, row: Seq<Seq<char>>) -> Seq<AccessEvent> {
    let stmt = row_field_spec(columns, row, "stmt"@);
    if stmt.len() == 0 {
        Seq::empty()
    } else {
        let user = row_field_spec(columns, row, "user"@);
        let at = row_field_spec(columns, row, "last_access"@);
        stmt_table_refs(stmt, row_field_spec(columns, row, "db_name"@), row_field_spec(columns, row, "catalog"@)).map_values(
            |t: (Seq<char>, Seq<char>)| (t.0, t.1, user, at),
        )
    }
}

/// The table reads of audit rows, in order.
pub open spec fn rows_accesses(columns: Seq<Seq<char>>, rows: Seq<Seq<Seq<char>>>) -> Seq<AccessEvent>
    decreases rows.len(),
{
    if rows.len() == 0 {
        Seq::empty()
    } else {
        rows_accesses(columns, rows.drop_last()) + row_accesses(columns, rows.last())
    }
}

proof fn lemma_access_index(a: Seq<AccessView>, db: Seq<char>, table: Seq<char>, j: int)
    requires
        0 <= j <= a.len(),
        forall|t: int| 0 <= t < j ==> !((#[trigger] a[t]).database == db && a[t].table == table),
        j < a.len() ==> a[j].database == db && a[j].table == table,
    ensures
        access_index(a, db, table) == j,
    decreases j,
{
    if j > 0 {
        let rest = a.drop_first();
        assert(!(a[0].database == db && a[0].table == table));
        assert forall|t: int| 0 <= t < j - 1 implies !((#[trigger] rest[t]).database == db && rest[t].table == table) by {
            assert(rest[t] == a[t + 1]);
        }
        lemma_access_index(rest, db, table, j - 1);
    }
}

proof fn lemma_access_index_range(a: Seq<AccessView>, db: Seq<char>, table: Seq<char>)
    ensures
        0 <= access_index(a, db, table) <= a.len(),
    decreases a.len(),
{
    if a.len() > 0 {
        lemma_access_index_range(a.drop_first(), db, table);
    }
}

proof fn lemma_aggregate_counts(es: Seq<AccessEvent>)
    ensures
        forall|k: int| 0 <= k < aggregate_accesses(es).len() ==> 1 <= #[trigger] aggregate_accesses(es)[k].count <= es.len(),
    decreases es.len(),
{
    if es.len() > 0 {
        lemma_aggregate_counts(es.drop_last());
        let prev = aggregate_accesses(es.drop_last());
        let e = es.last();
        let j = access_index(prev, e.0, e.1);
        lemma_access_index_range(prev, e.0, e.1);
        let cur = aggregate_accesses(es);
        assert(cur == apply_access(prev, e));
        if j < prev.len() {
            let nv = AccessView {
                database: prev[j].database,
                table: prev[j].table,
                count: prev[j].count + 1,
                last: later(prev[j].last, e.3),
                users: with_user(prev[j].users, e.2),
            };
            assert(cur == prev.update(j, nv));
            assert(cur.len() == prev.len());
            assert forall|k: int| 0 <= k < cur.len() implies 1 <= #[trigger] cur[k].count <= es.len() by {
                assert(k < prev.len());
                assert(1 <= aggregate_accesses(es.drop_last())[k].count <= es.drop_last().len());
                if k == j {
                    assert(cur[k] == nv);
                } else {
                    assert(cur[k] == prev[k]);
                }
            }
        } else {
            let nv = AccessView {
                database: e.0,
                table: e.1,
                count: 1,
                last: later(None, e.3),
                users: with_user(Seq::empty(), e.2),
            };
            assert(cur == prev.push(nv));
            assert forall|k: int| 0 <= k < cur.len() implies 1 <= #[trigger] cur[k].count <= es.len() by {
                if k < prev.len() {
                    assert(1 <= aggregate_accesses(es.drop_last())[k].count <= es.drop_last().len());
                    assert(cur[k] == prev[k]);
                }
            }
        }
    }
}

fn add_user_exec(users: &mut Vec<String>, u: &str)
    ensures
        texts(final(users)@) == with_user(texts(old(users)@), u@),
{
    if u.is_empty() {
        return;
    }
    let ghost tv = texts(users@);
    let mut k: usize = 0;
    while k < users.len()
        invariant
            k <= users@.len(),
            tv == texts(users@),
            forall|q: int| 0 <= q < k ==> tv[q] != u@,
        decreases users@.len() - k,
    {
        assert(tv[k as int] == users@[k as int]@);
        if str_eq(users[k].as_str(), u) {
            assert(tv.contains(u@));
            return;
        }
        k += 1;
    }
    let x = String::from_str(u);
    users.push(x);
    assert(texts(users@) =~= tv.push(x@));
}

fn later_exec(last: Option<String>, t: &str) -> (r: Option<String>)
    ensures
        match r {
            Some(x) => later(match last {
                Some(l) => Some(l@),
                None => None,
            }, t@) == Some(x@),
            None => later(match last {
                Some(l) => Some(l@),
                None => None,
            }, t@) is None,
        },
{
    if t.is_empty() {
        return last;
    }
    match last {
        Some(p) => if str_lt(p.as_str(), t) {
            Some(String::from_str(t))
        } else {
            Some(p)
        },
        None => Some(String::from_str(t)),
    }
}

fn apply_access_exec(aggs: &mut Vec<TableAccess>, db: String, table: String, user: &str, at: &str)
    requires
        forall|k: int| 0 <= k < old(aggs)@.len() ==> (#[trigger] old(aggs)@[k]).access_count < i64::MAX,
    ensures
        access_views(final(aggs)@) == apply_access(access_views(old(aggs)@), (db@, table@, user@, at@)),
{
    let ghost av = access_views(aggs@);
    let mut j: usize = 0;
    while j < aggs.len()
        invariant
            j <= aggs@.len(),
            av == access_views(aggs@),
            forall|t: int| 0 <= t < j ==> !((#[trigger] av[t]).database == db@ && av[t].table == table@),
        ensures
            j <= aggs@.len(),
            forall|t: int| 0 <= t < j ==> !((#[trigger] av[t]).database == db@ && av[t].table == table@),
            j < aggs@.len() ==> av[j as int].database == db@ && av[j as int].table == table@,
        decreases aggs@.len() - j,
    {
        assert(av[j as int] == access_view(aggs@[j as int]));
        if str_eq(aggs[j].database.as_str(), db.as_str()) && str_eq(aggs[j].table.as_str(), table.as_str()) {
            break;
        }
        j += 1;
    }
    proof {
        lemma_access_index(av, db@, table@, j as int);
    }
    if j < aggs.len() {
        let mut item = aggs.remove(j);
        assert(av[j as int] == access_view(item));
        let prev_last = match &item.last_access {
            Some(l) => Some(l.clone()),
            None => None,
        };
        item.access_count = item.access_count + 1;
        item.last_access = later_exec(prev_last, at);
        add_user_exec(&mut item.users, user);
        aggs.insert(j, item);
        assert(access_views(aggs@) =~= apply_access(av, (db@, table@, user@, at@)));
    } else {
        let mut users: Vec<String> = Vec::new();
        assert(texts(users@) =~= Seq::<Seq<char>>::empty());
        add_user_exec(&mut users, user);
        let item = TableAccess {
            database: db,
            table,
            access_count: 1,
            last_access: later_exec(None, at),
            users,
        };
        aggs.push(item);
        assert(access_views(aggs@) =~= apply_access(av, (db@, table@, user@, at@)));
    }
}


/// The rows of a result as texts.
pub open spec fn result_rows(rows: Seq<Vec<String>>) -> Seq<Seq<Seq<char>>> {
    rows.map_values(|r: Vec<String>| texts(r@))
}

/// Column names lower-cased (ASCII).
pub open spec fn lower_columns(columns: Seq<String>) -> Seq<Seq<char>> {
    texts(columns).map_values(|c: Seq<char>| ascii_lower(c))
}

proof fn lemma_rows_accesses_prefix(columns: Seq<Seq<char>>, rows: Seq<Seq<Seq<char>>>, i: int)
    requires
        0 <= i < rows.len(),
    ensures
        rows_accesses(columns, rows.take(i)).len() + row_accesses(columns, rows[i]).len()
            <= rows_accesses(columns, rows).len(),
    decreases rows.len() - i,
{
    if i + 1 < rows.len() {
        lemma_rows_accesses_prefix(columns, rows, i + 1);
        assert(rows.take(i + 1).drop_last() =~= rows.take(i));
        assert(rows.take(i + 1).last() == rows[i]);
        assert(rows.take(i + 2).drop_last() =~= rows.take(i + 1));
    } else {
        assert(rows.drop_last() =~= rows.take(i));
    }
}

fn lower_column_names(columns: &[String]) -> (r: Vec<String>)
    ensures
        texts(r@) == lower_columns(columns@),
{
    let ghost lc = lower_columns(columns@);
    let mut out: Vec<String> = Vec::new();
    let mut j: usize = 0;
    while j < columns.len()
        invariant
            j <= columns.len(),
            lc == lower_columns(columns@),
            texts(out@) == lc.take(j as int),
        decreases columns.len() - j,
    {
        let v = chars_of(columns[j].as_str());
        let lv = to_ascii_lower(v.as_slice());
        let ghost before = texts(out@);
        let x = string_of(lv.as_slice());
        out.push(x);
        assert(texts(out@) =~= before.push(x@));
        assert(lc.take(j + 1) =~= lc.take(j as int).push(lc[j as int]));
        j += 1;
    }
    assert(lc.take(columns.len() as int) =~= lc);
    out
}

/// Aggregates the table reads of audit rows (the result's column names are
/// compared lower-cased): per table, in order of first read, the number of
/// reads, the latest read time and the distinct users.
pub fn aggregate_table_access(columns: &[String], rows: &[Vec<String>]) -> (r: Vec<TableAccess>)
    requires
        rows_accesses(lower_columns(columns@), result_rows(rows@)).len() < i64::MAX,
    ensures
        access_views(r@) == aggregate_accesses(rows_accesses(lower_columns(columns@), result_rows(rows@))),
{
    let lcols = lower_column_names(columns);
    let ghost lc = lower_columns(columns@);
    let ghost rv = result_rows(rows@);
    assert(texts(lcols@) =~= lcols@.map_values(|s: String| s@));
    let mut aggs: Vec<TableAccess> = Vec::new();
    let mut i: usize = 0;
    while i < rows.len()
        invariant
            i <= rows.len(),
            lc == lower_columns(columns@),
            rv == result_rows(rows@),
            texts(lcols@) == lc,
            lcols@.map_values(|s: String| s@) == lc,
            rows_accesses(lc, rv).len() < i64::MAX,
            access_views(aggs@) == aggregate_accesses(rows_accesses(lc, rv.take(i as int))),
        decreases rows.len() - i,
    {
        proof {
            lemma_rows_accesses_prefix(lc, rv, i as int);
            assert(rv.take(i + 1).drop_last() =~= rv.take(i as int));
            assert(rv.take(i + 1).last() == rv[i as int]);
            assert(rv[i as int] == rows@[i as int]@.map_values(|s: String| s@));
        }
        let row = rows[i].as_slice();
        let stmt = row_field(lcols.as_slice(), row, "stmt");
        let ghost done = rows_accesses(lc, rv.take(i as int));
        let ghost evs = row_accesses(lc, rv[i as int]);
        if !stmt.as_str().is_empty() {
            let db_name = row_field(lcols.as_slice(), row, "db_name");
            let catalog = row_field(lcols.as_slice(), row, "catalog");
            let user = row_field(lcols.as_slice(), row, "user");
            let at = row_field(lcols.as_slice(), row, "last_access");
            let refs = extract_table_refs(stmt.as_str(), db_name.as_str(), catalog.as_str());
            assert(pairs_view(refs@).map_values(|t: (Seq<char>, Seq<char>)| (t.0, t.1, user@, at@)) =~= evs);
            let mut k: usize = 0;
            while k < refs.len()
                invariant
                    k <= refs.len(),
                    evs.len() == refs@.len(),
                    forall|q: int| 0 <= q < refs@.len() ==> #[trigger] evs[q] == (refs@[q].0@, refs@[q].1@, user@, at@),
                    done.len() + evs.len() < i64::MAX,
                    access_views(aggs@) == aggregate_accesses(done + evs.take(k as int)),
                decreases refs.len() - k,
            {
                proof {
                    lemma_aggregate_counts(done + evs.take(k as int));
                    assert((done + evs.take(k as int)).len() == done.len() + k);
                    assert forall|q: int| 0 <= q < aggs@.len() implies (#[trigger] aggs@[q]).access_count < i64::MAX by {
                        assert(access_views(aggs@)[q] == access_view(aggs@[q]));
                        assert(aggregate_accesses(done + evs.take(k as int))[q].count <= done.len() + k);
                    }
                    assert((done + evs.take(k + 1)).drop_last() =~= done + evs.take(k as int));
                    assert((done + evs.take(k + 1)).last() == evs[k as int]);
                }
                let db = refs[k].0.clone();
                let tb = refs[k].1.clone();
                apply_access_exec(&mut aggs, db, tb, user.as_str(), at.as_str());
                k += 1;
            }
            assert(evs.take(refs.len() as int) =~= evs);
        } else {
            assert(evs =~= Seq::<AccessEvent>::empty());
        }
        assert(rows_accesses(lc, rv.take(i + 1)) =~= done + evs);
        i += 1;
    }
    assert(rv.take(rows.len() as int) =~= rv);
    aggs
}

/// `x` placed after every aggregate with at least its count.
pub open spec fn insert_by_count(s: Seq<AccessView>, x: AccessView) -> Seq<AccessView>
    decreases s.len(),
{
    if s.len() == 0 {
        seq![x]
    } else if s[0].count < x.count {
        seq![x] + s
    } else {
        seq![s[0]] + insert_by_count(s.drop_first(), x)
    }
}

/// Aggregates by decreasing count, equal counts in their given order.
pub open spec fn by_count(s: Seq<AccessView>) -> Seq<AccessView>
    decreases s.len(),
{
    if s.len() == 0 {
        s
    } else {
        insert_by_count(by_count(s.drop_last()), s.last())
    }
}

proof fn lemma_insert_by_count_at(s: Seq<AccessView>, x: AccessView, j: int)
    requires
        0 <= j <= s.len(),
        forall|t: int| 0 <= t < j ==> !((#[trigger] s[t]).count < x.count),
        j < s.len() ==> s[j].count < x.count,
    ensures
        insert_by_count(s, x) == s.take(j) + seq![x] + s.skip(j),
    decreases j,
{
    if j == 0 {
        assert(s.take(0) + seq![x] + s.skip(0) =~= seq![x] + s);
        if s.len() == 0 {
            assert(seq![x] + s =~= seq![x]);
        }
    } else {
        let rest = s.drop_first();
        assert forall|t: int| 0 <= t < j - 1 implies !((#[trigger] rest[t]).count < x.count) by {
            assert(rest[t] == s[t + 1]);
        }
        assert(!(s[0].count < x.count));
        lemma_insert_by_count_at(rest, x, j - 1);
        assert(s.take(j) + seq![x] + s.skip(j) =~= seq![s[0]] + (rest.take(j - 1) + seq![x] + rest.skip(j - 1)));
    }
}

/// The entry of the most-accessed-tables answer for an aggregate.
pub open spec fn top_entry_matches(t: TopTableByAccess, a: AccessView) -> bool {
    &&& t.database@ == a.database
    &&& t.table@ == a.table
    &&& t.access_count == a.count
    &&& (match t.last_access {
        Some(l) => Some(l@),
        None => None,
    }) == a.last
    &&& t.unique_users == a.users.len() as i32
}

/// The most accessed tables: aggregates by decreasing count (equal counts
/// in order of first read), at most `limit` of them (at least one), each
/// with its number of distinct users.
pub fn top_tables_by_access(aggs: Vec<TableAccess>, limit: usize) -> (r: Vec<TopTableByAccess>)
    ensures
        ({
            let sorted = by_count(access_views(aggs@));
            let n = if limit < 1 {
                1
            } else {
                limit as int
            };
            let m = if sorted.len() < n {
                sorted.len() as int
            } else {
                n
            };
            &&& r@.len() == m
            &&& forall|k: int| 0 <= k < m ==> top_entry_matches(#[trigger] r@[k], sorted[k])
        }),
{
    let ghost av = access_views(aggs@);
    let n = aggs.len();
    let mut input = aggs;
    let mut out: Vec<TableAccess> = Vec::new();
    let mut i: usize = 0;
    while i < n
        invariant
            n == av.len(),
            i <= n,
            input@.len() == n - i,
            forall|t: int| 0 <= t < input@.len() ==> #[trigger] access_view(input@[t]) == av[t + i],
            access_views(out@) == by_count(av.take(i as int)),
        decreases n - i,
    {
        let x = input.remove(0);
        assert(access_view(x) == av[i as int]);
        let ghost ov = access_views(out@);
        let mut j: usize = 0;
        while j < out.len()
            invariant
                j <= out@.len(),
                ov == access_views(out@),
                forall|t: int| 0 <= t < j ==> !((#[trigger] ov[t]).count < x.access_count as int),
            ensures
                j <= out@.len(),
                forall|t: int| 0 <= t < j ==> !((#[trigger] ov[t]).count < x.access_count as int),
                j < out@.len() ==> ov[j as int].count < x.access_count as int,
            decreases out@.len() - j,
        {
            assert(ov[j as int] == access_view(out@[j as int]));
            if out[j].access_count < x.access_count {
                break;
            }
            j += 1;
        }
        proof {
            lemma_insert_by_count_at(ov, access_view(x), j as int);
            assert(av.take(i + 1).drop_last() =~= av.take(i as int));
            assert(av.take(i + 1).last() == av[i as int]);
        }
        out.insert(j, x);
        assert(access_views(out@) =~= ov.take(j as int) + seq![access_view(x)] + ov.skip(j as int));
        i += 1;
    }
    assert(av.take(n as int) =~= av);
    let ghost sorted = access_views(out@);
    assert(sorted == by_count(access_views(aggs@)));
    let cap: usize = if limit < 1 {
        1
    } else {
        limit
    };
    let mut r: Vec<TopTableByAccess> = Vec::new();
    let mut k: usize = 0;
    let total = out.len();
    let mut rest = out;
    while k < total && k < cap
        invariant
            k <= total,
            k <= cap,
            total == sorted.len(),
            rest@.len() == total - k,
            forall|t: int| 0 <= t < rest@.len() ==> #[trigger] access_view(rest@[t]) == sorted[t + k],
            r@.len() == k,
            forall|t: int| 0 <= t < k ==> top_entry_matches(#[trigger] r@[t], sorted[t]),
        decreases total - k,
    {
        let a = rest.remove(0);
        assert(access_view(a) == sorted[k as int]);
        let users = a.users.len() as i32;
        r.push(TopTableByAccess {
            database: a.database,
            table: a.table,
            access_count: a.access_count,
            last_access: a.last_access,
            unique_users: users,
        });
        k += 1;
    }
    assert(r@.len() == (if total < cap {
        total
    } else {
        cap
    }));
    r
}

} // verus!
