//! Account and rule administration statements of Doris, and the reading of
//! the answers that list accounts, roles, catalogs and SQL block rules.

use vstd::prelude::*;
use vstd::string::*;
use crate::cluster::doris::{add_priv_suffix, build_resource_path, identity_parts, parse_user_identity, resource_path_of, with_priv_suffix};
use crate::rows::{field_str, get_field_str, JsonCell};
use crate::text::{chars_of, join, join_strings, push_char, str_eq, string_of, texts, trim, trim_exec};

verus! {

/// The message of an unknown principal type.
pub open spec fn principal_error_text() -> Seq<char> {
    "Principal type must be USER or ROLE"@
}

/// The grantee of a statement: a role by name, a user from any host.
pub open spec fn principal_spec(principal_type: Seq<char>, name: Seq<char>) -> Option<Seq<char>> {
    if principal_type == "ROLE"@ {
        Some("'"@ + name + "'"@)
    } else if principal_type == "USER"@ {
        Some("'"@ + name + "'@'%'"@)
    } else {
        None
    }
}

/// The grantee text of a principal, or the refusal of an unknown type.
pub fn principal_text(principal_type: &str, name: &str) -> (r: Result<String, String>)
    ensures
        match principal_spec(principal_type@, name@) {
            Some(p) => r matches Ok(x) && x@ == p,
            None => r matches Err(e) && e@ == principal_error_text(),
        },
{
    if str_eq(principal_type, "ROLE") {
        let mut r = String::from_str("'");
        r.append(name);
        r.append("'");
        Ok(r)
    } else if str_eq(principal_type, "USER") {
        let mut r = String::from_str("'");
        r.append(name);
        r.append("'@'%'");
        Ok(r)
    } else {
        Err(String::from_str("Principal type must be USER or ROLE"))
    }
}

/// The privileges of a statement, each with the `_PRIV` suffix, joined by
/// `, `.
pub open spec fn privilege_list(permissions: Seq<&str>) -> Seq<char> {
    join(permissions.map_values(|p: &str| with_priv_suffix(p@)), ", "@)
}

fn privilege_list_exec(permissions: &[&str]) -> (r: String)
    ensures
        r@ == privilege_list(permissions@),
{
    let v = add_priv_suffix(permissions);
    assert(texts(v@) =~= permissions@.map_values(|p: &str| with_priv_suffix(p@)));
    join_strings(v.as_slice(), ", ")
}

/// An optional text as a plain option of characters.
pub open spec fn opt_str(t: Option<&str>) -> Option<Seq<char>> {
    match t {
        Some(s) => Some(s@),
        None => None,
    }
}

/// `GRANT <privileges> ON <object> TO <grantee>;`, with ` WITH GRANT
/// OPTION` after it when asked.
pub fn grant_permissions_sql(
    principal_type: &str,
    principal_name: &str,
    permissions: &[&str],
    resource_type: &str,
    database: &str,
    table: Option<&str>,
    with_grant_option: bool,
) -> (r: Result<String, String>)
    ensures
        match principal_spec(principal_type@, principal_name@) {
            Some(p) => r matches Ok(x) && x@ == "GRANT "@ + privilege_list(permissions@) + " ON "@
                + resource_path_of(resource_type@, database@, opt_str(table)) + " TO "@ + p + ";"@
                + (if with_grant_option {
                " WITH GRANT OPTION"@
            } else {
                Seq::empty()
            }),
            None => r matches Err(e) && e@ == principal_error_text(),
        },
{
    let perms = privilege_list_exec(permissions);
    let resource = build_resource_path(resource_type, database, table);
    let principal = principal_text(principal_type, principal_name)?;
    let mut r = String::from_str("GRANT ");
    r.append(perms.as_str());
    r.append(" ON ");
    r.append(resource.as_str());
    r.append(" TO ");
    r.append(principal.as_str());
    r.append(";");
    let ghost before = r@;
    if with_grant_option {
        r.append(" WITH GRANT OPTION");
    } else {
        assert(r@ =~= before + Seq::<char>::empty());
    }
    Ok(r)
}

/// `REVOKE <privileges> ON <object> FROM <grantee>;`.
pub fn revoke_permissions_sql(
    principal_type: &str,
    principal_name: &str,
    permissions: &[&str],
    resource_type: &str,
    database: &str,
    table: Option<&str>,
) -> (r: Result<String, String>)
    ensures
        match principal_spec(principal_type@, principal_name@) {
            Some(p) => r matches Ok(x) && x@ == "REVOKE "@ + privilege_list(permissions@) + " ON "@
                + resource_path_of(resource_type@, database@, opt_str(table)) + " FROM "@ + p
                + ";"@,
            None => r matches Err(e) && e@ == principal_error_text(),
        },
{
    let perms = privilege_list_exec(permissions);
    let resource = build_resource_path(resource_type, database, table);
    let principal = principal_text(principal_type, principal_name)?;
    let mut r = String::from_str("REVOKE ");
    r.append(perms.as_str());
    r.append(" ON ");
    r.append(resource.as_str());
    r.append(" FROM ");
    r.append(principal.as_str());
    r.append(";");
    Ok(r)
}

/// `CREATE USER 'name'@'%'`, with `IDENTIFIED BY 'password'` when one is
/// given.
pub fn create_user_sql(username: &str, password: &str) -> (r: String)
    ensures
        password@.len() == 0 ==> r@ == "CREATE USER '"@ + username@ + "'@'%';"@,
        password@.len() > 0 ==> r@ == "CREATE USER '"@ + username@ + "'@'%' IDENTIFIED BY '"@
            + password@ + "';"@,
{
    let mut r = String::from_str("CREATE USER '");
    r.append(username);
    if password.is_empty() {
        r.append("'@'%';");
    } else {
        r.append("'@'%' IDENTIFIED BY '");
        r.append(password);
        r.append("';");
    }
    r
}

/// `GRANT 'role' TO 'user'@'%';`.
pub fn grant_role_sql(role_name: &str, username: &str) -> (r: String)
    ensures
        r@ == "GRANT '"@ + role_name@ + "' TO '"@ + username@ + "'@'%';"@,
{
    let mut r = String::from_str("GRANT '");
    r.append(role_name);
    r.append("' TO '");
    r.append(username);
    r.append("'@'%';");
    r
}

/// `ALTER SYSTEM DROP BACKEND "host:port"`.
pub fn drop_backend_sql(host: &str, heartbeat_port: &str) -> (r: String)
    ensures
        r@ == "ALTER SYSTEM DROP BACKEND \""@ + host@ + ":"@ + heartbeat_port@ + "\""@,
{
    let mut r = String::from_str("ALTER SYSTEM DROP BACKEND \"");
    r.append(host);
    r.append(":");
    r.append(heartbeat_port);
    r.append("\"");
    r
}

/// `s` with every single quote doubled.
pub open spec fn doubled_quotes(s: Seq<char>) -> Seq<char>
    decreases s.len(),
{
    if s.len() == 0 {
        Seq::empty()
    } else {
        doubled_quotes(s.drop_last()) + if s.last() == '\'' {
            seq!['\'', '\'']
        } else {
            seq![s.last()]
        }
    }
}

/// A global, enabled SQL block rule named `rule_name` for `pattern`
/// (single quotes in the pattern doubled).
pub fn create_block_rule_sql(rule_name: &str, pattern: &str) -> (r: String)
    ensures
        r@ == "CREATE SQL_BLOCK_RULE "@ + rule_name@ + " PROPERTIES(\"sql\"=\""@ + doubled_quotes(
            pattern@,
        ) + "\", \"global\"=\"true\", \"enable\"=\"true\")"@,
{
    let mut r = String::from_str("CREATE SQL_BLOCK_RULE ");
    r.append(rule_name);
    r.append(" PROPERTIES(\"sql\"=\"");
    let v = chars_of(pattern);
    let ghost base = r@;
    let mut i: usize = 0;
    while i < v.len()
        invariant
            i <= v@.len(),
            v@ == pattern@,
            r@ == base + doubled_quotes(v@.take(i as int)),
        decreases v@.len() - i,
    {
        let c = v[i];
        proof {
            assert(v@.take(i + 1).drop_last() =~= v@.take(i as int));
            assert(v@.take(i + 1).last() == c);
        }
        let ghost before = r@;
        if c == '\'' {
            push_char(&mut r, '\'');
            push_char(&mut r, '\'');
            assert(r@ =~= before + seq!['\'', '\'']);
        } else {
            push_char(&mut r, c);
            assert(r@ =~= before + seq![c]);
        }
        i += 1;
    }
    assert(v@.take(v@.len() as int) =~= v@);
    r.append("\", \"global\"=\"true\", \"enable\"=\"true\")");
    r
}

/// `DROP SQL_BLOCK_RULE <id>`.
pub fn drop_block_rule_sql(id: &str) -> (r: String)
    ensures
        r@ == "DROP SQL_BLOCK_RULE "@ + id@,
{
    let mut r = String::from_str("DROP SQL_BLOCK_RULE ");
    r.append(id);
    r
}

/// One SQL block rule.
#[derive(Debug, Clone)]
pub struct SqlBlacklistItem {
    pub id: String,
    pub pattern: String,
}

/// The rules of a `SHOW SQL_BLOCK_RULE` answer: rows with a string `Name`,
/// their `Sql` (empty when not a string).
pub open spec fn block_rules(rows: Seq<Seq<(String, JsonCell)>>) -> Seq<(Seq<char>, Seq<char>)>
    decreases rows.len(),
{
    if rows.len() == 0 {
        Seq::empty()
    } else {
        let r = block_rules(rows.drop_last());
        let row = rows.last();
        match field_str(row, "Name"@) {
            Some(n) => r.push(
                (
                    n,
                    match field_str(row, "Sql"@) {
                        Some(s) => s,
                        None => Seq::empty(),
                    },
                ),
            ),
            None => r,
        }
    }
}

/// The rows of an answer as plain sequences.
pub open spec fn json_rows(rows: Seq<Vec<(String, JsonCell)>>) -> Seq<Seq<(String, JsonCell)>> {
    rows.map_values(|r: Vec<(String, JsonCell)>| r@)
}

/// Reads the SQL block rules of a `SHOW SQL_BLOCK_RULE` answer.
pub fn block_rules_from_rows(rows: &[Vec<(String, JsonCell)>]) -> (r: Vec<SqlBlacklistItem>)
    ensures
        r@.map_values(|x: SqlBlacklistItem| (x.id@, x.pattern@)) == block_rules(json_rows(rows@)),
{
    let ghost rv = json_rows(rows@);
    let mut out: Vec<SqlBlacklistItem> = Vec::new();
    let mut k: usize = 0;
    while k < rows.len()
        invariant
            k <= rows@.len(),
            rv == json_rows(rows@),
            out@.map_values(|x: SqlBlacklistItem| (x.id@, x.pattern@)) == block_rules(
                rv.take(k as int),
            ),
        decreases rows@.len() - k,
    {
        let row = rows[k].as_slice();
        proof {
            assert(rv.take(k + 1).drop_last() =~= rv.take(k as int));
            assert(rv.take(k + 1).last() == row@);
        }
        match get_field_str(row, "Name") {
            Some(n) => {
                let pattern = match get_field_str(row, "Sql") {
                    Some(s) => s,
                    None => String::new(),
                };
                let ghost before = out@.map_values(|x: SqlBlacklistItem| (x.id@, x.pattern@));
                let item = SqlBlacklistItem { id: n, pattern };
                let ghost iv = (item.id@, item.pattern@);
                out.push(item);
                assert(out@.map_values(|x: SqlBlacklistItem| (x.id@, x.pattern@)) =~= before.push(
                    iv,
                ));
            },
            None => {},
        }
        k += 1;
    }
    assert(rv.take(rows@.len() as int) =~= rv);
    out
}

/// The catalogs of a `SHOW CATALOGS` answer: each row's string
/// `CatalogName` trimmed, blank names left out.
pub open spec fn catalog_names_spec(rows: Seq<Seq<(String, JsonCell)>>) -> Seq<Seq<char>>
    decreases rows.len(),
{
    if rows.len() == 0 {
        Seq::empty()
    } else {
        let r = catalog_names_spec(rows.drop_last());
        match field_str(rows.last(), "CatalogName"@) {
            Some(n) => if trim(n).len() > 0 {
                r.push(trim(n))
            } else {
                r
            },
            None => r,
        }
    }
}

/// Reads the catalog names of a `SHOW CATALOGS` answer.
pub fn catalog_names(rows: &[Vec<(String, JsonCell)>]) -> (r: Vec<String>)
    ensures
        texts(r@) == catalog_names_spec(json_rows(rows@)),
{
    let ghost rv = json_rows(rows@);
    let mut out: Vec<String> = Vec::new();
    let mut k: usize = 0;
    while k < rows.len()
        invariant
            k <= rows@.len(),
            rv == json_rows(rows@),
            texts(out@) == catalog_names_spec(rv.take(k as int)),
        decreases rows@.len() - k,
    {
        let row = rows[k].as_slice();
        proof {
            assert(rv.take(k + 1).drop_last() =~= rv.take(k as int));
            assert(rv.take(k + 1).last() == row@);
        }
        match get_field_str(row, "CatalogName") {
            Some(n) => {
                let t = trim_exec(chars_of(n.as_str()).as_slice());
                if t.len() > 0 {
                    let s = string_of(t.as_slice());
                    let ghost before = texts(out@);
                    out.push(s);
                    assert(texts(out@) =~= before.push(s@));
                }
            },
            None => {},
        }
        k += 1;
    }
    assert(rv.take(rows@.len() as int) =~= rv);
    out
}

/// A database account.
#[derive(Debug, Clone)]
pub struct DbAccountDto {
    pub account_name: String,
    pub host: String,
    pub roles: Vec<String>,
}

/// The distinct (account, host) pairs of the grantees, in order of first
/// appearance.
pub open spec fn distinct_accounts(grantees: Seq<Seq<char>>) -> Seq<(Seq<char>, Seq<char>)>
    decreases grantees.len(),
{
    if grantees.len() == 0 {
        Seq::empty()
    } else {
        let r = distinct_accounts(grantees.drop_last());
        let a = identity_parts(grantees.last());
        if r.contains(a) {
            r
        } else {
            r.push(a)
        }
    }
}

/// The account of an entry as a pair.
pub open spec fn account_pair(a: DbAccountDto) -> (Seq<char>, Seq<char>) {
    (a.account_name@, a.host@)
}

/// The accounts of the grantees of the user privileges (each once, with no
/// roles listed).
pub fn accounts_from_grantees(grantees: &[String]) -> (r: Vec<DbAccountDto>)
    ensures
        r@.map_values(|a: DbAccountDto| account_pair(a)) == distinct_accounts(texts(grantees@)),
        forall|i: int| 0 <= i < r@.len() ==> (#[trigger] r@[i]).roles@.len() == 0,
{
    let ghost gv = texts(grantees@);
    let mut out: Vec<DbAccountDto> = Vec::new();
    let mut k: usize = 0;
    while k < grantees.len()
        invariant
            k <= grantees@.len(),
            gv == texts(grantees@),
            out@.map_values(|a: DbAccountDto| account_pair(a)) == distinct_accounts(
                gv.take(k as int),
            ),
            forall|i: int| 0 <= i < out@.len() ==> (#[trigger] out@[i]).roles@.len() == 0,
        decreases grantees@.len() - k,
    {
        proof {
            assert(gv.take(k + 1).drop_last() =~= gv.take(k as int));
            assert(gv.take(k + 1).last() == grantees@[k as int]@);
        }
        let (name, host) = parse_user_identity(grantees[k].as_str());
        let ghost pv = out@.map_values(|a: DbAccountDto| account_pair(a));
        let ghost target = (name@, host@);
        let mut found = false;
        let mut j: usize = 0;
        while j < out.len()
            invariant
                j <= out@.len(),
                pv == out@.map_values(|a: DbAccountDto| account_pair(a)),
                target == (name@, host@),
                found == pv.take(j as int).contains(target),
            decreases out@.len() - j,
        {
            let same_name = str_eq(out[j].account_name.as_str(), name.as_str());
            let same_host = str_eq(out[j].host.as_str(), host.as_str());
            let same = same_name && same_host;
            proof {
                let a = pv.take(j as int);
                let b = pv.take(j + 1);
                assert(b =~= a.push(pv[j as int]));
                assert(pv[j as int] == account_pair(out@[j as int]));
                assert(same == (pv[j as int] == target));
                if a.contains(target) {
                    let w = choose|w: int| 0 <= w < a.len() && #[trigger] a[w] == target;
                    assert(b[w] == target);
                }
                if pv[j as int] == target {
                    assert(b[j as int] == target);
                }
                if b.contains(target) && pv[j as int] != target {
                    let w = choose|w: int| 0 <= w < b.len() && #[trigger] b[w] == target;
                    assert(a[w] == target);
                }
            }
            if same {
                found = true;
            }
            j += 1;
        }
        assert(pv.take(out@.len() as int) =~= pv);
        if !found {
            let acct = DbAccountDto { account_name: name, host, roles: Vec::new() };
            out.push(acct);
            assert(out@.map_values(|a: DbAccountDto| account_pair(a)) =~= pv.push(target));
        }
        k += 1;
    }
    assert(gv.take(grantees@.len() as int) =~= gv);
    out
}

/// A database role.
#[derive(Debug, Clone)]
pub struct DbRoleDto {
    pub role_name: String,
    pub role_type: String,
    pub permissions_count: Option<i64>,
}

/// The roles Doris ships with.
pub open spec fn builtin_role(name: Seq<char>) -> bool {
    name == "admin"@ || name == "operator"@ || name == "public"@ || name == "root"@
}

/// A role entry of `SHOW ROLES`: `built-in` for the shipped roles,
/// `custom` otherwise, with no permission count.
pub fn role_entry(name: String) -> (r: DbRoleDto)
    ensures
        r.role_name@ == name@,
        builtin_role(name@) ==> r.role_type@ == "built-in"@,
        !builtin_role(name@) ==> r.role_type@ == "custom"@,
        r.permissions_count is None,
{
    let n = name.as_str();
    let builtin = str_eq(n, "admin") || str_eq(n, "operator") || str_eq(n, "public") || str_eq(
        n,
        "root",
    );
    let role_type = if builtin {
        String::from_str("built-in")
    } else {
        String::from_str("custom")
    };
    DbRoleDto { role_name: name, role_type, permissions_count: None }
}

} // verus!
