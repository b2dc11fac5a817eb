//! Materialized views of Doris: an asynchronous materialized view lives in a
//! database; a rollup (synchronous view) lives in a table and is maintained
//! by Doris itself. Which statement a management request becomes depends on
//! the kind found.

use vstd::prelude::*;
use vstd::string::*;
use crate::text::{chars_of, str_eq, string_of, to_uppercase, trim, trim_exec, unicode_upper};

verus! {

/// Where a materialized view was found.
#[derive(Debug, Clone)]
pub enum MvKind {
    /// An asynchronous materialized view in this database.
    AsyncMv(String),
    /// A rollup of this (database, table).
    Rollup(String, String),
}

/// The refusal of a manual refresh of a rollup.
pub open spec fn rollup_refresh_refusal(mv: Seq<char>, db: Seq<char>, table: Seq<char>) -> Seq<char> {
    "Doris Rollup '"@ + mv
        + "' is a synchronous materialized view that is automatically maintained in real-time. Manual refresh is not supported. The Rollup data is always up-to-date with the base table '"@
        + db + "."@ + table + "'."@
}

/// The refusal of pausing or resuming a rollup.
pub open spec fn rollup_toggle_refusal(mv: Seq<char>) -> Seq<char> {
    "Doris Rollup '"@ + mv
        + "' is a synchronous materialized view that is always active. ACTIVE/INACTIVE operations are only supported for asynchronous materialized views. Rollups are automatically maintained in real-time and cannot be paused."@
}

/// Drops an asynchronous view, or the rollup from its table.
pub fn mv_drop_sql(kind: &MvKind, mv: &str) -> (r: String)
    ensures
        match kind {
            MvKind::AsyncMv(db) => r@ == "DROP MATERIALIZED VIEW IF EXISTS `"@ + db@ + "`.`"@ + mv@
                + "`"@,
            MvKind::Rollup(db, t) => r@ == "ALTER TABLE `"@ + db@ + "`.`"@ + t@ + "` DROP ROLLUP `"@
                + mv@ + "`"@,
        },
{
    match kind {
        MvKind::AsyncMv(db) => {
            let mut r = String::from_str("DROP MATERIALIZED VIEW IF EXISTS `");
            r.append(db.as_str());
            r.append("`.`");
            r.append(mv);
            r.append("`");
            r
        },
        MvKind::Rollup(db, t) => {
            let mut r = String::from_str("ALTER TABLE `");
            r.append(db.as_str());
            r.append("`.`");
            r.append(t.as_str());
            r.append("` DROP ROLLUP `");
            r.append(mv);
            r.append("`");
            r
        },
    }
}

/// Refreshes an asynchronous view: the given partition range, else
/// completely when the mode is `COMPLETE` (any letter case), else
/// automatically. A rollup cannot be refreshed by hand.
pub fn mv_refresh_sql(
    kind: &MvKind,
    mv: &str,
    partition_start: Option<&str>,
    partition_end: Option<&str>,
    mode: &str,
) -> (r: Result<String, String>)
    ensures
        match kind {
            MvKind::AsyncMv(db) => r matches Ok(s) && s@ == "REFRESH MATERIALIZED VIEW "@ + db@ + "."@
                + mv@ + match (partition_start, partition_end) {
                (Some(a), Some(b)) => " PARTITION ("@ + a@ + ", "@ + b@ + ")"@,
                _ => if unicode_upper(mode@) == "COMPLETE"@ {
                    " COMPLETE"@
                } else {
                    " AUTO"@
                },
            },
            MvKind::Rollup(db, t) => r matches Err(e) && e@ == rollup_refresh_refusal(mv@, db@, t@),
        },
{
    match kind {
        MvKind::AsyncMv(db) => {
            let mut r = String::from_str("REFRESH MATERIALIZED VIEW ");
            r.append(db.as_str());
            r.append(".");
            r.append(mv);
            match (partition_start, partition_end) {
                (Some(a), Some(b)) => {
                    r.append(" PARTITION (");
                    r.append(a);
                    r.append(", ");
                    r.append(b);
                    r.append(")");
                },
                _ => {
                    let upper = to_uppercase(mode);
                    if str_eq(upper.as_str(), "COMPLETE") {
                        r.append(" COMPLETE");
                    } else {
                        r.append(" AUTO");
                    }
                },
            }
            Ok(r)
        },
        MvKind::Rollup(db, t) => {
            let mut e = String::from_str("Doris Rollup '");
            e.append(mv);
            e.append(
                "' is a synchronous materialized view that is automatically maintained in real-time. Manual refresh is not supported. The Rollup data is always up-to-date with the base table '",
            );
            e.append(db.as_str());
            e.append(".");
            e.append(t.as_str());
            e.append("'.");
            Err(e)
        },
    }
}

/// Whether an alter clause pauses or resumes a view: `ACTIVE` resumes,
/// `INACTIVE` pauses (trimmed, any letter case); other clauses are passed on.
pub open spec fn clause_toggle(clause: Seq<char>) -> Option<bool> {
    let u = unicode_upper(trim(clause));
    if u == "ACTIVE"@ {
        Some(true)
    } else if u == "INACTIVE"@ {
        Some(false)
    } else {
        None
    }
}

/// Reads whether an alter clause is a pause or resume (see `clause_toggle`).
pub fn toggle_of_clause(clause: &str) -> (r: Option<bool>)
    ensures
        r == clause_toggle(clause@),
{
    let t = string_of(trim_exec(chars_of(clause).as_slice()).as_slice());
    let u = to_uppercase(t.as_str());
    if str_eq(u.as_str(), "ACTIVE") {
        Some(true)
    } else if str_eq(u.as_str(), "INACTIVE") {
        Some(false)
    } else {
        None
    }
}

/// Resumes (`active`) or pauses the refresh job of an asynchronous view; a
/// rollup is always active and refuses both.
pub fn mv_toggle_sql(kind: &MvKind, mv: &str, active: bool) -> (r: Result<String, String>)
    ensures
        match kind {
            MvKind::AsyncMv(db) => r matches Ok(s) && s@ == (if active {
                "RESUME"@
            } else {
                "PAUSE"@
            }) + " MATERIALIZED VIEW JOB ON "@ + db@ + "."@ + mv@,
            MvKind::Rollup(_, _) => r matches Err(e) && e@ == rollup_toggle_refusal(mv@),
        },
{
    match kind {
        MvKind::AsyncMv(db) => {
            let mut r = if active {
                String::from_str("RESUME")
            } else {
                String::from_str("PAUSE")
            };
            r.append(" MATERIALIZED VIEW JOB ON ");
            r.append(db.as_str());
            r.append(".");
            r.append(mv);
            Ok(r)
        },
        MvKind::Rollup(_, _) => {
            let mut e = String::from_str("Doris Rollup '");
            e.append(mv);
            e.append(
                "' is a synchronous materialized view that is always active. ACTIVE/INACTIVE operations are only supported for asynchronous materialized views. Rollups are automatically maintained in real-time and cannot be paused.",
            );
            Err(e)
        },
    }
}

/// Any other alter clause, tried first as a materialized-view statement.
pub fn mv_alter_sql(mv: &str, clause: &str) -> (r: String)
    ensures
        r@ == "ALTER MATERIALIZED VIEW "@ + mv@ + " "@ + clause@,
{
    let mut r = String::from_str("ALTER MATERIALIZED VIEW ");
    r.append(mv);
    r.append(" ");
    r.append(clause);
    r
}

/// The same clause applied to the table of a rollup, when the view
/// statement failed and the view is a rollup.
pub fn rollup_alter_sql(db: &str, table: &str, clause: &str) -> (r: String)
    ensures
        r@ == "ALTER TABLE `"@ + db@ + "`.`"@ + table@ + "` "@ + clause@,
{
    let mut r = String::from_str("ALTER TABLE `");
    r.append(db);
    r.append("`.`");
    r.append(table);
    r.append("` ");
    r.append(clause);
    r
}

/// The probe of an asynchronous view in a database.
pub fn mv_probe_sql(db: &str, mv: &str) -> (r: String)
    ensures
        r@ == "SELECT 1 FROM "@ + db@ + "."@ + mv@ + " LIMIT 1"@,
{
    let mut r = String::from_str("SELECT 1 FROM ");
    r.append(db);
    r.append(".");
    r.append(mv);
    r.append(" LIMIT 1");
    r
}

/// The failure of a search that found no view of that name.
pub fn mv_not_found_text(mv: &str) -> (r: String)
    ensures
        r@ == "Materialized view "@ + mv@ + " not found in any database"@,
{
    let mut r = String::from_str("Materialized view ");
    r.append(mv);
    r.append(" not found in any database");
    r
}

} // verus!
