//! StarRocks specifics of the cluster adapter: `SHOW PROC` statements, and
//! the metric lines of the Prometheus text exposition of both engines.

use vstd::prelude::*;
use vstd::string::*;
use crate::cluster::doris_admin::{json_rows, SqlBlacklistItem};
use crate::rows::{field_str, get_field_str, JsonCell};
use crate::text::{chars_of, find_char, find_char_exec, push_char, rfind_char, rfind_char_exec, string_of, trim, trim_exec};

verus! {

/// A `SHOW PROC` path with a leading `/` (`/` for an empty path).
pub open spec fn proc_path(path: Seq<char>) -> Seq<char> {
    if path.len() == 0 {
        "/"@
    } else if path[0] == '/' {
        path
    } else {
        "/"@ + path
    }
}

/// A `SHOW PROC` path with a leading `/`.
pub fn normalize_proc_path(path: &str) -> (r: String)
    ensures
        r@ == proc_path(path@),
{
    let v = chars_of(path);
    if v.len() == 0 {
        String::from_str("/")
    } else if v[0] == '/' {
        String::from_str(path)
    } else {
        let mut r = String::from_str("/");
        r.append(path);
        r
    }
}

/// `s` with `\` and `"` escaped by a backslash.
pub open spec fn escaped(s: Seq<char>) -> Seq<char>
    decreases s.len(),
{
    if s.len() == 0 {
        Seq::empty()
    } else {
        escaped(s.drop_last()) + if s.last() == '\\' {
            seq!['\\', '\\']
        } else if s.last() == '"' {
            seq!['\\', '"']
        } else {
            seq![s.last()]
        }
    }
}

/// Escapes `\` and `"` for a double-quoted `SHOW PROC` argument.
pub fn escape_proc_path(path: &str) -> (r: String)
    ensures
        r@ == escaped(path@),
{
    let v = chars_of(path);
    let mut out: Vec<char> = Vec::new();
    let mut i: usize = 0;
    while i < v.len()
        invariant
            i <= v.len(),
            v@ == path@,
            out@ == escaped(v@.take(i as int)),
        decreases v.len() - i,
    {
        assert(v@.take(i + 1).drop_last() =~= v@.take(i as int));
        assert(v@.take(i + 1).last() == v@[i as int]);
        let c = v[i];
        if c == '\\' {
            out.push('\\');
            out.push('\\');
        } else if c == '"' {
            out.push('\\');
            out.push('"');
        } else {
            out.push(c);
        }
        assert(out@ =~= escaped(v@.take(i + 1)));
        i += 1;
    }
    assert(v@.take(v.len() as int) =~= v@);
    string_of(out.as_slice())
}

/// `SHOW PROC "<path>"` with the path normalised and escaped.
pub open spec fn show_proc_text(path: Seq<char>) -> Seq<char> {
    "SHOW PROC \""@ + escaped(proc_path(path)) + "\""@
}

/// The `SHOW PROC` statement of a path.
pub fn build_show_proc_sql(path: &str) -> (r: String)
    ensures
        r@ == show_proc_text(path@),
{
    let normalized = normalize_proc_path(path);
    let escaped_path = escape_proc_path(normalized.as_str());
    let mut r = String::from_str("SHOW PROC \"");
    r.append(escaped_path.as_str());
    r.append("\"");
    r
}

/// The metric name and value text of a Prometheus exposition line: none for
/// blank and `#` lines or lines without a space; otherwise the text after
/// the last space is the value and the name ends before any `{`.
pub open spec fn metric_line(line: Seq<char>) -> Option<(Seq<char>, Seq<char>)> {
    let t = trim(line);
    if t.len() == 0 || t[0] == '#' {
        None
    } else {
        match rfind_char(t, ' ') {
            Some(sp) => {
                let name_part = t.take(sp);
                let value = t.skip(sp + 1);
                let name = match find_char(name_part, '{') {
                    Some(b) => name_part.take(b),
                    None => name_part,
                };
                Some((name, value))
            },
            None => None,
        }
    }
}

/// Splits a Prometheus exposition line into metric name and value text
/// (the value is a float, read by the caller).
pub fn parse_metric_line(line: &str) -> (r: Option<(String, String)>)
    ensures
        match r {
            Some(p) => metric_line(line@) == Some((p.0@, p.1@)),
            None => metric_line(line@) is None,
        },
{
    let raw = chars_of(line);
    let t = trim_exec(raw.as_slice());
    if t.len() == 0 || t[0] == '#' {
        return None;
    }
    match rfind_char_exec(t.as_slice(), ' ') {
        Some(sp) => {
            proof {
                crate::text::lemma_rfind_char_some(t@, ' ');
            }
            let name_part = vstd::slice::slice_subrange(t.as_slice(), 0, sp);
            let value = vstd::slice::slice_subrange(t.as_slice(), sp + 1, t.len());
            assert(name_part@ =~= t@.take(sp as int));
            assert(value@ =~= t@.skip(sp + 1));
            let name = match find_char_exec(name_part, '{') {
                Some(b) => {
                    proof {
                        crate::text::lemma_find_char_some(name_part@, '{');
                    }
                    let n = vstd::slice::slice_subrange(name_part, 0, b);
                    assert(n@ =~= name_part@.take(b as int));
                    string_of(n)
                },
                None => string_of(name_part),
            };
            Some((name, string_of(value)))
        },
        None => None,
    }
}

/// The statement that removes a compute node (shared-data clusters) or a
/// backend (shared-nothing clusters).
pub fn drop_node_sql(shared_data: bool, host: &str, heartbeat_port: &str) -> (r: String)
    ensures
        shared_data ==> r@ == "ALTER SYSTEM DROP COMPUTE NODE \""@ + host@ + ":"@ + heartbeat_port@
            + "\""@,
        !shared_data ==> r@ == "ALTER SYSTEM DROP BACKEND \""@ + host@ + ":"@ + heartbeat_port@
            + "\""@,
{
    let mut r = if shared_data {
        String::from_str("ALTER SYSTEM DROP COMPUTE NODE \"")
    } else {
        String::from_str("ALTER SYSTEM DROP BACKEND \"")
    };
    r.append(host);
    r.append(":");
    r.append(heartbeat_port);
    r.append("\"");
    r
}

/// The blacklist entries of a `SHOW SQLBLACKLIST` answer: rows whose `Id`
/// and `Pattern` are both strings.
pub open spec fn blacklist_entries(rows: Seq<Seq<(String, JsonCell)>>) -> Seq<(Seq<char>, Seq<char>)>
    decreases rows.len(),
{
    if rows.len() == 0 {
        Seq::empty()
    } else {
        let r = blacklist_entries(rows.drop_last());
        match (field_str(rows.last(), "Id"@), field_str(rows.last(), "Pattern"@)) {
            (Some(i), Some(p)) => r.push((i, p)),
            _ => r,
        }
    }
}

/// Reads the entries of a `SHOW SQLBLACKLIST` answer.
pub fn blacklist_from_rows(rows: &[Vec<(String, JsonCell)>]) -> (r: Vec<SqlBlacklistItem>)
    ensures
        r@.map_values(|x: SqlBlacklistItem| (x.id@, x.pattern@)) == blacklist_entries(
            json_rows(rows@),
        ),
{
    let ghost rv = json_rows(rows@);
    let mut out: Vec<SqlBlacklistItem> = Vec::new();
    let mut k: usize = 0;
    while k < rows.len()
        invariant
            k <= rows@.len(),
            rv == json_rows(rows@),
            out@.map_values(|x: SqlBlacklistItem| (x.id@, x.pattern@)) == blacklist_entries(
                rv.take(k as int),
            ),
        decreases rows@.len() - k,
    {
        let row = rows[k].as_slice();
        proof {
            assert(rv.take(k + 1).drop_last() =~= rv.take(k as int));
            assert(rv.take(k + 1).last() == row@);
        }
        match (get_field_str(row, "Id"), get_field_str(row, "Pattern")) {
            (Some(i), Some(p)) => {
                let ghost before = out@.map_values(|x: SqlBlacklistItem| (x.id@, x.pattern@));
                let item = SqlBlacklistItem { id: i, pattern: p };
                let ghost iv = (item.id@, item.pattern@);
                out.push(item);
                assert(out@.map_values(|x: SqlBlacklistItem| (x.id@, x.pattern@)) =~= before.push(
                    iv,
                ));
            },
            _ => {},
        }
        k += 1;
    }
    assert(rv.take(rows@.len() as int) =~= rv);
    out
}

/// `s` with each `"` escaped as `\"`.
pub open spec fn escaped_dquotes(s: Seq<char>) -> Seq<char>
    decreases s.len(),
{
    if s.len() == 0 {
        Seq::empty()
    } else {
        escaped_dquotes(s.drop_last()) + if s.last() == '"' {
            seq!['\\', '"']
        } else {
            seq![s.last()]
        }
    }
}

/// `ADD SQLBLACKLIST "<pattern>"` with the pattern's double quotes escaped.
pub fn add_blacklist_sql(pattern: &str) -> (r: String)
    ensures
        r@ == "ADD SQLBLACKLIST \""@ + escaped_dquotes(pattern@) + "\""@,
{
    let mut r = String::from_str("ADD SQLBLACKLIST \"");
    let v = chars_of(pattern);
    let ghost base = r@;
    let mut i: usize = 0;
    while i < v.len()
        invariant
            i <= v@.len(),
            v@ == pattern@,
            r@ == base + escaped_dquotes(v@.take(i as int)),
        decreases v@.len() - i,
    {
        let c = v[i];
        proof {
            assert(v@.take(i + 1).drop_last() =~= v@.take(i as int));
            assert(v@.take(i + 1).last() == c);
        }
        let ghost before = r@;
        if c == '"' {
            push_char(&mut r, '\\');
            push_char(&mut r, '"');
            assert(r@ =~= before + seq!['\\', '"']);
        } else {
            push_char(&mut r, c);
            assert(r@ =~= before + seq![c]);
        }
        i += 1;
    }
    assert(v@.take(v@.len() as int) =~= v@);
    r.append("\"");
    r
}

/// `DELETE SQLBLACKLIST <id>`.
pub fn delete_blacklist_sql(id: &str) -> (r: String)
    ensures
        r@ == "DELETE SQLBLACKLIST "@ + id@,
{
    let mut r = String::from_str("DELETE SQLBLACKLIST ");
    r.append(id);
    r
}

/// `SELECT get_query_profile('<id>')`.
pub fn profile_query_sql(query_id: &str) -> (r: String)
    ensures
        r@ == "SELECT get_query_profile('"@ + query_id@ + "')"@,
{
    let mut r = String::from_str("SELECT get_query_profile('");
    r.append(query_id);
    r.append("')");
    r
}

/// The profile text of the answer: its first cell, refused when blank.
pub fn profile_from_rows(rows: &[Vec<String>], query_id: &str) -> (r: Result<String, String>)
    ensures
        ({
            let content = if rows@.len() > 0 && rows@[0]@.len() > 0 {
                rows@[0]@[0]@
            } else {
                Seq::empty()
            };
            if trim(content).len() == 0 {
                r matches Err(e) && e@ == "Profile not found for query: "@ + query_id@
            } else {
                r matches Ok(p) && p@ == content
            }
        }),
{
    let content = if rows.len() > 0 && rows[0].len() > 0 {
        string_of(chars_of(rows[0][0].as_str()).as_slice())
    } else {
        String::new()
    };
    let t = trim_exec(chars_of(content.as_str()).as_slice());
    if t.len() == 0 {
        let mut e = String::from_str("Profile not found for query: ");
        e.append(query_id);
        Err(e)
    } else {
        Ok(content)
    }
}

} // verus!
