//! Apache Doris specifics of the cluster adapter: privilege names and
//! resource paths of GRANT statements, the privileges listed by
//! `SHOW GRANTS`, user identities, `SHOW PROC` routing, the rows of
//! `SHOW BACKENDS` / `SHOW FRONTENDS` / `SHOW PROCESSLIST`, the listing of
//! materialized views and rollups, cancelled loads and query profiles.

use vstd::prelude::*;
use vstd::string::*;
use crate::rows::{JsonCell, cell_text, cell_text_exec, field_position, lemma_field_position};
use crate::text::{
    chars_of, contains, ends_with, ends_with_exec, eq_lit, find, find_char, find_char_exec,
    find_exec, has_char, remove_all, remove_all_exec, rfind_char, rfind_char_exec, split,
    split_exec, starts_with, starts_with_exec, str_eq, string_of, strip_char, strip_char_exec,
    strip_suffix_all, strip_suffix_all_exec, to_uppercase, trim, trim_exec, unicode_upper,
};

verus! {

// ---------------------------------------------------------------------------
// Privileges and resource paths
// ---------------------------------------------------------------------------

/// A privilege name with the `_PRIV` suffix Doris expects.
pub open spec fn with_priv_suffix(p: Seq<char>) -> Seq<char> {
    if ends_with(p, "_PRIV"@) {
        p
    } else {
        p + "_PRIV"@
    }
}

/// Adds the `_PRIV` suffix to each privilege name that lacks it.
pub fn add_priv_suffix(permissions: &[&str]) -> (r: Vec<String>)
    ensures
        r@.len() == permissions@.len(),
        forall|i: int| 0 <= i < r@.len() ==> #[trigger] r@[i]@ == with_priv_suffix(permissions@[i]@),
{
    let suffix = chars_of("_PRIV");
    let mut r: Vec<String> = Vec::new();
    let mut i: usize = 0;
    while i < permissions.len()
        invariant
            i <= permissions.len(),
            suffix@ == "_PRIV"@,
            r@.len() == i,
            forall|k: int| 0 <= k < i ==> #[trigger] r@[k]@ == with_priv_suffix(permissions@[k]@),
        decreases permissions.len() - i,
    {
        let p = chars_of(permissions[i]);
        let mut s = String::from_str(permissions[i]);
        if !ends_with_exec(p.as_slice(), suffix.as_slice()) {
            s.append("_PRIV");
        }
        r.push(s);
        i += 1;
    }
    r
}

/// The object of a grant: `ALL CATALOGS` / `CATALOG c` for catalogs,
/// `db.table` or `db.*` for tables, `db.*` for databases (`*.*` for all).
pub open spec fn resource_path_of(resource_type: Seq<char>, database: Seq<char>, table: Option<Seq<char>>) -> Seq<char> {
    let t = unicode_upper(resource_type);
    if t == "CATALOG"@ {
        if database == "*"@ {
            "ALL CATALOGS"@
        } else {
            "CATALOG "@ + database
        }
    } else if t == "TABLE"@ {
        if database == "*"@ {
            "*.*"@
        } else {
            match table {
                Some(tb) => if tb == "*"@ {
                    database + ".*"@
                } else {
                    database + "."@ + tb
                },
                None => database + ".*"@,
            }
        }
    } else if database == "*"@ {
        "*.*"@
    } else {
        database + ".*"@
    }
}

/// The Doris object path of a grant on a catalog, table or database.
pub fn build_resource_path(resource_type: &str, database: &str, table: Option<&str>) -> (r: String)
    ensures
        r@ == resource_path_of(
            resource_type@,
            database@,
            match table {
                Some(t) => Some(t@),
                None => None,
            },
        ),
{
    let t = to_uppercase(resource_type);
    let all_db = str_eq(database, "*");
    if str_eq(t.as_str(), "CATALOG") {
        if all_db {
            String::from_str("ALL CATALOGS")
        } else {
            let mut r = String::from_str("CATALOG ");
            r.append(database);
            r
        }
    } else if str_eq(t.as_str(), "TABLE") {
        if all_db {
            String::from_str("*.*")
        } else {
            let mut r = String::from_str(database);
            match table {
                Some(tb) => {
                    if str_eq(tb, "*") {
                        r.append(".*");
                    } else {
                        r.append(".");
                        r.append(tb);
                    }
                },
                None => {
                    r.append(".*");
                },
            }
            r
        }
    } else if all_db {
        String::from_str("*.*")
    } else {
        let mut r = String::from_str(database);
        r.append(".*");
        r
    }
}

/// A user identity without quotes: `'name'@'host'` gives (name, host); an
/// identity without `@` has host `%`.
pub open spec fn identity_parts(identity: Seq<char>) -> (Seq<char>, Seq<char>) {
    match find_char(identity, '@') {
        Some(i) => (
            strip_char(strip_char(identity.take(i), '\''), '"'),
            strip_char(strip_char(identity.skip(i + 1), '\''), '"'),
        ),
        None => (strip_char(strip_char(identity, '\''), '"'), "%"@),
    }
}

fn unquote(v: &[char]) -> (r: String)
    ensures
        r@ == strip_char(strip_char(v@, '\''), '"'),
{
    let a = strip_char_exec(v, '\'');
    let b = strip_char_exec(a.as_slice(), '"');
    string_of(b.as_slice())
}

/// Splits a user identity such as `'user'@'host'` into account and host.
pub fn parse_user_identity(identity: &str) -> (r: (String, String))
    ensures
        (r.0@, r.1@) == identity_parts(identity@),
{
    let v = chars_of(identity);
    match find_char_exec(v.as_slice(), '@') {
        Some(i) => {
            proof {
                crate::text::lemma_find_char_some(v@, '@');
            }
            assert(i < v.len());
            let name = vstd::slice::slice_subrange(v.as_slice(), 0, i);
            let host = vstd::slice::slice_subrange(v.as_slice(), i + 1, v.len());
            assert(name@ =~= v@.take(i as int));
            assert(host@ =~= v@.skip(i + 1));
            (unquote(name), unquote(host))
        },
        None => (unquote(v.as_slice()), String::from_str("%")),
    }
}

// ---------------------------------------------------------------------------
// GRANT statements
// ---------------------------------------------------------------------------

/// A GRANT statement in structured form.
pub struct DorisParsedGrant {
    pub privileges: Vec<String>,
    pub resource_type: String,
    pub resource_path: String,
    pub granted_role: Option<String>,
}

/// Model of a parsed grant.
pub struct GrantView {
    pub privileges: Seq<Seq<char>>,
    pub resource_type: Seq<char>,
    pub resource_path: Seq<char>,
    pub granted_role: Option<Seq<char>>,
}

impl View for DorisParsedGrant {
    type V = GrantView;

    open spec fn view(&self) -> GrantView {
        GrantView {
            privileges: self.privileges@.map_values(|s: String| s@),
            resource_type: self.resource_type@,
            resource_path: self.resource_path@,
            granted_role: match self.granted_role {
                Some(r) => Some(r@),
                None => None,
            },
        }
    }
}

/// The role name of `GRANT 'role' TO ...` (quoted with `'`, else `"`).
pub open spec fn role_grant(st: Seq<char>) -> Option<Seq<char>> {
    if starts_with(st, "GRANT '"@) || starts_with(st, "GRANT \""@) {
        let rest = st.skip(7);
        match find_char(rest, '\'') {
            Some(e) => Some(rest.take(e)),
            None => match find_char(rest, '"') {
                Some(e) => Some(rest.take(e)),
                None => None,
            },
        }
    } else {
        None
    }
}

/// Privilege names of a grant: upper-cased, without `_PRIV` suffixes, empty
/// ones left out.
pub open spec fn grant_privileges(parts: Seq<Seq<char>>) -> Seq<Seq<char>>
    decreases parts.len(),
{
    if parts.len() == 0 {
        Seq::empty()
    } else {
        let prev = grant_privileges(parts.drop_last());
        let p = strip_suffix_all(unicode_upper(trim(parts.last())), "_PRIV"@);
        if p.len() > 0 {
            prev.push(p)
        } else {
            prev
        }
    }
}

/// The kind of object a grant's path names.
pub open spec fn grant_resource_type(path: Seq<char>) -> Seq<char> {
    if path == "*.*"@ || path == "*.*.*"@ {
        "GLOBAL"@
    } else if ends_with(path, ".*"@) || ends_with(path, ".*.*"@) {
        "DATABASE"@
    } else if path.contains('.') {
        "TABLE"@
    } else {
        "CATALOG"@
    }
}

/// Where a privilege grant's positions would be out of order (` ON ` right
/// after `GRANT`, or the first ` TO ` before the end of ` ON `); such text
/// is not a statement Doris prints.
pub open spec fn grant_out_of_order(statement: Seq<char>) -> bool {
    let st = trim(statement);
    &&& role_grant(st) is None
    &&& starts_with(st, "GRANT "@)
    &&& match find(st, " ON "@) {
        Some(on) => on < 6 || match find(st, " TO "@) {
            Some(to) => to < on + 4,
            None => false,
        },
        None => false,
    }
}

/// The structured form of a GRANT statement, if it is one.
pub open spec fn parsed_grant(statement: Seq<char>) -> Option<GrantView> {
    let st = trim(statement);
    match role_grant(st) {
        Some(role) => Some(
            GrantView {
                privileges: seq!["ROLE"@],
                resource_type: "ROLE"@,
                resource_path: role,
                granted_role: Some(role),
            },
        ),
        None => if !starts_with(st, "GRANT "@) {
            None
        } else {
            match (find(st, " ON "@), find(st, " TO "@)) {
                (Some(on), Some(to)) => {
                    let path = trim(st.subrange(on + 4, to));
                    Some(
                        GrantView {
                            privileges: grant_privileges(split(st.subrange(6, on), ',')),
                            resource_type: grant_resource_type(path),
                            resource_path: path,
                            granted_role: None,
                        },
                    )
                },
                _ => None,
            }
        },
    }
}

fn upper_text(v: &[char]) -> (r: Vec<char>)
    ensures
        r@ == unicode_upper(v@),
{
    let s = string_of(v);
    let u = to_uppercase(s.as_str());
    chars_of(u.as_str())
}

fn grant_privileges_exec(text: &[char]) -> (r: Vec<String>)
    ensures
        r@.map_values(|s: String| s@) == grant_privileges(split(text@, ',')),
{
    let parts = split_exec(text, ',');
    let ghost pv = split(text@, ',');
    let mut r: Vec<String> = Vec::new();
    let mut i: usize = 0;
    while i < parts.len()
        invariant
            i <= parts.len(),
            parts@.len() == pv.len(),
            forall|k: int| 0 <= k < parts@.len() ==> #[trigger] parts@[k]@ == pv[k],
            r@.map_values(|s: String| s@) == grant_privileges(pv.take(i as int)),
        decreases parts.len() - i,
    {
        let t = trim_exec(parts[i].as_slice());
        let u = upper_text(t.as_slice());
        let p = strip_suffix_all_exec(u.as_slice(), "_PRIV");
        assert(pv.take(i + 1).drop_last() =~= pv.take(i as int));
        assert(pv.take(i + 1).last() == parts@[i as int]@);
        if p.len() > 0 {
            let ghost before = r@.map_values(|s: String| s@);
            let s = string_of(p.as_slice());
            r.push(s);
            assert(r@.map_values(|s: String| s@) =~= before.push(p@));
        }
        i += 1;
    }
    assert(pv.take(parts.len() as int) =~= pv);
    r
}

/// Parses a GRANT statement: a role grant `GRANT 'role' TO ...`, or
/// `GRANT privileges ON object TO ...` with the object classified as
/// global, database, table or catalog.
pub fn parse_grant_statement(statement: &str) -> (r: Option<DorisParsedGrant>)
    requires
        !grant_out_of_order(statement@),
    ensures
        match r {
            Some(g) => parsed_grant(statement@) == Some(g@),
            None => parsed_grant(statement@) is None,
        },
{
    let raw = chars_of(statement);
    let st = trim_exec(raw.as_slice());
    let p1 = chars_of("GRANT '");
    let p2 = chars_of("GRANT \"");
    proof {
        reveal_strlit("GRANT '");
        reveal_strlit("GRANT \"");
    }
    if starts_with_exec(st.as_slice(), p1.as_slice()) || starts_with_exec(
        st.as_slice(),
        p2.as_slice(),
    ) {
        let rest = vstd::slice::slice_subrange(st.as_slice(), 7, st.len());
        assert(rest@ =~= st@.skip(7));
        let end = match find_char_exec(rest, '\'') {
            Some(e) => Some(e),
            None => find_char_exec(rest, '"'),
        };
        if let Some(e) = end {
            proof {
                if rest@.contains('\'') {
                    crate::text::lemma_find_char_some(rest@, '\'');
                } else {
                    crate::text::lemma_find_char_some(rest@, '"');
                }
            }
            let role = vstd::slice::slice_subrange(rest, 0, e);
            assert(role@ =~= rest@.take(e as int));
            let mut privileges: Vec<String> = Vec::new();
            privileges.push(String::from_str("ROLE"));
            let g = DorisParsedGrant {
                privileges,
                resource_type: String::from_str("ROLE"),
                resource_path: string_of(role),
                granted_role: Some(string_of(role)),
            };
            assert(g@.privileges =~= seq!["ROLE"@]);
            return Some(g);
        }
    }
    assert(role_grant(st@) is None);
    let g = chars_of("GRANT ");
    if !starts_with_exec(st.as_slice(), g.as_slice()) {
        return None;
    }
    let on_pat = chars_of(" ON ");
    let to_pat = chars_of(" TO ");
    let on = match find_exec(st.as_slice(), on_pat.as_slice()) {
        Some(i) => i,
        None => {
            return None;
        },
    };
    proof {
        crate::text::lemma_find_some(st@, " ON "@);
    }
    let to = match find_exec(st.as_slice(), to_pat.as_slice()) {
        Some(i) => i,
        None => {
            return None;
        },
    };
    proof {
        crate::text::lemma_find_some(st@, " TO "@);
    }
    let privs_text = vstd::slice::slice_subrange(st.as_slice(), 6, on);
    assert(privs_text@ =~= st@.subrange(6, on as int));
    let res_text = vstd::slice::slice_subrange(st.as_slice(), on + 4, to);
    assert(res_text@ =~= st@.subrange(on + 4, to as int));
    let privileges = grant_privileges_exec(privs_text);
    let path = trim_exec(res_text);
    let rtype = if eq_lit(path.as_slice(), "*.*") || eq_lit(path.as_slice(), "*.*.*") {
        "GLOBAL"
    } else if ends_with_exec(path.as_slice(), chars_of(".*").as_slice()) || ends_with_exec(
        path.as_slice(),
        chars_of(".*.*").as_slice(),
    ) {
        "DATABASE"
    } else if has_char(path.as_slice(), '.') {
        "TABLE"
    } else {
        "CATALOG"
    };
    Some(
        DorisParsedGrant {
            privileges,
            resource_type: String::from_str(rtype),
            resource_path: string_of(path.as_slice()),
            granted_role: None,
        },
    )
}


// ---------------------------------------------------------------------------
// SHOW GRANTS
// ---------------------------------------------------------------------------

/// One privilege of a user as listed to the frontend.
#[derive(Debug, Clone)]
pub struct DbUserPermissionDto {
    pub id: i32,
    pub privilege_type: String,
    pub resource_type: String,
    pub resource_path: String,
    pub granted_role: Option<String>,
}

/// A privilege without its id: (privilege type, resource type, resource
/// path, granted role).
pub type PermEntry = (Seq<char>, Seq<char>, Seq<char>, Option<Seq<char>>);

/// The id-less model of a listed privilege.
pub open spec fn perm_entry(p: DbUserPermissionDto) -> PermEntry {
    (
        p.privilege_type@,
        p.resource_type@,
        p.resource_path@,
        match p.granted_role {
            Some(r) => Some(r@),
            None => None,
        },
    )
}

/// The id-less models of listed privileges.
pub open spec fn perm_entries(v: Seq<DbUserPermissionDto>) -> Seq<PermEntry> {
    v.map_values(|p: DbUserPermissionDto| perm_entry(p))
}

/// A privilege name as listed: trimmed, every `_priv` removed, upper-cased.
#[verifier::opaque]
pub open spec fn privilege_name(p: Seq<char>) -> Seq<char> {
    unicode_upper(remove_all(trim(p), "_priv"@))
}

/// The non-empty privilege names of comma-separated parts, each on the given
/// resource.
pub open spec fn privilege_entries(parts: Seq<Seq<char>>, rtype: Seq<char>, path: Seq<char>) -> Seq<PermEntry>
    decreases parts.len(),
{
    if parts.len() == 0 {
        Seq::empty()
    } else {
        let prev = privilege_entries(parts.drop_last(), rtype, path);
        let q = privilege_name(parts.last());
        if q.len() > 0 {
            prev.push((q, rtype, path, None))
        } else {
            prev
        }
    }
}

/// The privileges of one `path: Priv1, Priv2` entry (nothing for a blank
/// entry or one without `:`).
#[verifier::opaque]
pub open spec fn entry_privileges(raw: Seq<char>, rtype: Seq<char>) -> Seq<PermEntry> {
    let e = trim(raw);
    if e.len() == 0 {
        Seq::empty()
    } else {
        match rfind_char(e, ':') {
            Some(c) => privilege_entries(split(trim(e.skip(c + 1)), ','), rtype, trim(e.take(c))),
            None => Seq::empty(),
        }
    }
}

/// The privileges of `path: Priv1, Priv2` entries, in order.
pub open spec fn resource_entries(entries: Seq<Seq<char>>, rtype: Seq<char>) -> Seq<PermEntry>
    decreases entries.len(),
{
    if entries.len() == 0 {
        Seq::empty()
    } else {
        resource_entries(entries.drop_last(), rtype) + entry_privileges(entries.last(), rtype)
    }
}

/// The privileges listed in a Doris privilege column such as
/// `internal.db1: Select_priv; internal.db2: Load_priv`.
pub open spec fn resource_privs(privs: Seq<char>, rtype: Seq<char>) -> Seq<PermEntry> {
    resource_entries(split(privs, ';'), rtype)
}

/// The privileges of `v` are numbered `start`, `start + 1`, ... in order.
pub open spec fn ids_from(v: Seq<DbUserPermissionDto>, start: int) -> bool {
    forall|k: int| 0 <= k < v.len() ==> #[trigger] v[k].id == start + k
}

/// An id-less privilege.
pub type Entry = (String, String, String, Option<String>);

/// The model of an id-less privilege.
pub open spec fn entry_view(e: Entry) -> PermEntry {
    (
        e.0@,
        e.1@,
        e.2@,
        match e.3 {
            Some(r) => Some(r@),
            None => None,
        },
    )
}

/// The models of id-less privileges.
pub open spec fn entry_views(v: Seq<Entry>) -> Seq<PermEntry> {
    v.map_values(|e: Entry| entry_view(e))
}

fn privilege_name_exec(p: &[char]) -> (r: Vec<char>)
    ensures
        r@ == privilege_name(p@),
{
    let t = trim_exec(p);
    proof {
        reveal_strlit("_priv");
        reveal(privilege_name);
    }
    let x = remove_all_exec(t.as_slice(), "_priv");
    upper_text(x.as_slice())
}

fn privilege_entries_exec(text: &[char], rtype: &str, path: &[char]) -> (r: Vec<Entry>)
    ensures
        entry_views(r@) == privilege_entries(split(text@, ','), rtype@, path@),
{
    let parts = split_exec(text, ',');
    let ghost pv = split(text@, ',');
    let mut out: Vec<Entry> = Vec::new();
    let mut i: usize = 0;
    while i < parts.len()
        invariant
            i <= parts.len(),
            parts@.len() == pv.len(),
            forall|k: int| 0 <= k < parts@.len() ==> #[trigger] parts@[k]@ == pv[k],
            entry_views(out@) == privilege_entries(pv.take(i as int), rtype@, path@),
        decreases parts.len() - i,
    {
        let q = privilege_name_exec(parts[i].as_slice());
        proof {
            assert(pv.take(i + 1).drop_last() =~= pv.take(i as int));
            assert(pv.take(i + 1).last() == parts@[i as int]@);
        }
        if q.len() > 0 {
            let ghost before = entry_views(out@);
            let e: Entry = (string_of(q.as_slice()), String::from_str(rtype), string_of(path), None);
            out.push(e);
            assert(entry_views(out@) =~= before.push(entry_view(e)));
        }
        i += 1;
    }
    assert(pv.take(parts.len() as int) =~= pv);
    out
}

fn append_entries(out: &mut Vec<Entry>, more: Vec<Entry>)
    ensures
        entry_views(final(out)@) == entry_views(old(out)@) + entry_views(more@),
{
    let ghost base = entry_views(out@);
    let ghost mv = entry_views(more@);
    let ghost m0 = more@;
    let mut more = more;
    let n = more.len();
    let mut i: usize = 0;
    while i < n
        invariant
            n == m0.len(),
            i <= n,
            more@ == m0.skip(i as int),
            mv == entry_views(m0),
            entry_views(out@) == base + mv.take(i as int),
        decreases n - i,
    {
        let ghost before = entry_views(out@);
        let e = more.remove(0);
        assert(e == m0[i as int]);
        assert(more@ =~= m0.skip(i + 1));
        out.push(e);
        assert(entry_views(out@) =~= before.push(entry_view(e)));
        assert(mv.take(i + 1) =~= mv.take(i as int).push(mv[i as int]));
        i += 1;
    }
    assert(mv.take(n as int) =~= mv);
}

fn entry_privileges_exec(raw: &[char], rtype: &str) -> (r: Vec<Entry>)
    ensures
        entry_views(r@) == entry_privileges(raw@, rtype@),
{
    proof {
        reveal(entry_privileges);
    }
    let e = trim_exec(raw);
    if e.len() == 0 {
        let r: Vec<Entry> = Vec::new();
        assert(entry_views(r@) =~= Seq::<PermEntry>::empty());
        return r;
    }
    match rfind_char_exec(e.as_slice(), ':') {
        Some(c) => {
            proof {
                crate::text::lemma_rfind_char_some(e@, ':');
            }
            let head = vstd::slice::slice_subrange(e.as_slice(), 0, c);
            let tail = vstd::slice::slice_subrange(e.as_slice(), c + 1, e.len());
            assert(head@ =~= e@.take(c as int));
            assert(tail@ =~= e@.skip(c + 1));
            let path = trim_exec(head);
            let privs_part = trim_exec(tail);
            privilege_entries_exec(privs_part.as_slice(), rtype, path.as_slice())
        },
        None => {
            let r: Vec<Entry> = Vec::new();
            assert(entry_views(r@) =~= Seq::<PermEntry>::empty());
            r
        },
    }
}

fn resource_entries_exec(privs: &[char], rtype: &str) -> (r: Vec<Entry>)
    ensures
        entry_views(r@) == resource_privs(privs@, rtype@),
{
    let entries = split_exec(privs, ';');
    let ghost ev = split(privs@, ';');
    let mut out: Vec<Entry> = Vec::new();
    let mut i: usize = 0;
    while i < entries.len()
        invariant
            i <= entries.len(),
            entries@.len() == ev.len(),
            forall|k: int| 0 <= k < entries@.len() ==> #[trigger] entries@[k]@ == ev[k],
            entry_views(out@) == resource_entries(ev.take(i as int), rtype@),
        decreases entries.len() - i,
    {
        proof {
            assert(ev.take(i + 1).drop_last() =~= ev.take(i as int));
            assert(ev.take(i + 1).last() == entries@[i as int]@);
        }
        let more = entry_privileges_exec(entries[i].as_slice(), rtype);
        append_entries(&mut out, more);
        i += 1;
    }
    assert(ev.take(entries.len() as int) =~= ev);
    out
}

fn number_entries(
    entries: Vec<Entry>,
    permissions: &mut Vec<DbUserPermissionDto>,
    id_counter: &mut i32,
)
    requires
        *old(id_counter) + entries@.len() <= i32::MAX,
    ensures
        final(permissions)@.len() == old(permissions)@.len() + entries@.len(),
        final(permissions)@.take(old(permissions)@.len() as int) == old(permissions)@,
        perm_entries(final(permissions)@.skip(old(permissions)@.len() as int)) == entry_views(
            entries@,
        ),
        ids_from(final(permissions)@.skip(old(permissions)@.len() as int), *old(id_counter) as int),
        *final(id_counter) == *old(id_counter) + entries@.len(),
{
    let ghost base = permissions@;
    let ghost c0 = *id_counter;
    let n = entries.len();
    let mut entries = entries;
    let ghost ev = entries@;
    let mut i: usize = 0;
    while i < n
        invariant
            n == ev.len(),
            i <= n,
            entries@ == ev.skip(i as int),
            c0 + n <= i32::MAX,
            *id_counter == c0 + i,
            permissions@.len() == base.len() + i,
            permissions@.take(base.len() as int) == base,
            perm_entries(permissions@.skip(base.len() as int)) == entry_views(ev.take(i as int)),
            ids_from(permissions@.skip(base.len() as int), c0 as int),
        decreases n - i,
    {
        let e = entries.remove(0);
        assert(e == ev[i as int]);
        assert(entries@ =~= ev.skip(i + 1));
        let ghost before = permissions@;
        permissions.push(
            DbUserPermissionDto {
                id: *id_counter,
                privilege_type: e.0,
                resource_type: e.1,
                resource_path: e.2,
                granted_role: e.3,
            },
        );
        *id_counter = *id_counter + 1;
        assert(perm_entry(permissions@.last()) == entry_view(e));
        assert(permissions@.take(base.len() as int) =~= before.take(base.len() as int));
        assert(permissions@.skip(base.len() as int) =~= before.skip(base.len() as int).push(
            permissions@.last(),
        ));
        assert(ev.take(i + 1) =~= ev.take(i as int).push(ev[i as int]));
        assert(perm_entries(before.skip(base.len() as int).push(permissions@.last()))
            =~= perm_entries(before.skip(base.len() as int)).push(perm_entry(permissions@.last())));
        assert(entry_views(ev.take(i as int).push(ev[i as int])) =~= entry_views(
            ev.take(i as int),
        ).push(entry_view(ev[i as int])));
        assert(perm_entries(permissions@.skip(base.len() as int)) =~= entry_views(ev.take(i + 1)));
        i += 1;
    }
    assert(ev.take(n as int) =~= ev);
}

/// Appends the privileges of a Doris privilege column (`path: Priv1, Priv2;
/// ...`) on resources of type `resource_type`, numbering them from the
/// counter.
pub fn parse_doris_resource_privs(
    privs_str: &str,
    resource_type: &str,
    permissions: &mut Vec<DbUserPermissionDto>,
    id_counter: &mut i32,
)
    requires
        *old(id_counter) + resource_privs(privs_str@, resource_type@).len() <= i32::MAX,
    ensures
        final(permissions)@.len() == old(permissions)@.len() + resource_privs(
            privs_str@,
            resource_type@,
        ).len(),
        final(permissions)@.take(old(permissions)@.len() as int) == old(permissions)@,
        perm_entries(final(permissions)@.skip(old(permissions)@.len() as int)) == resource_privs(
            privs_str@,
            resource_type@,
        ),
        ids_from(final(permissions)@.skip(old(permissions)@.len() as int), *old(id_counter) as int),
        *final(id_counter) == *old(id_counter) + resource_privs(privs_str@, resource_type@).len(),
{
    let v = chars_of(privs_str);
    let entries = resource_entries_exec(v.as_slice(), resource_type);
    number_entries(entries, permissions, id_counter);
}


/// The privilege columns of one `SHOW GRANTS` row (a column absent from the
/// row, or NULL, is `None`).
#[derive(Debug, Clone)]
pub struct GrantRow {
    pub roles: Option<String>,
    pub global_privs: Option<String>,
    pub catalog_privs: Option<String>,
    pub database_privs: Option<String>,
    pub table_privs: Option<String>,
    pub col_privs: Option<String>,
    pub resource_privs: Option<String>,
    pub workload_group_privs: Option<String>,
}

/// A column's text when it lists something (not empty, not `NULL`).
pub open spec fn listed(o: Option<String>) -> Option<Seq<char>> {
    match o {
        Some(s) => if s@.len() > 0 && s@ != "NULL"@ {
            Some(s@)
        } else {
            None
        },
        None => None,
    }
}

/// The granted roles of comma-separated parts.
pub open spec fn role_entries(parts: Seq<Seq<char>>) -> Seq<PermEntry>
    decreases parts.len(),
{
    if parts.len() == 0 {
        Seq::empty()
    } else {
        let prev = role_entries(parts.drop_last());
        let t = trim(parts.last());
        if t.len() > 0 {
            prev.push(("ROLE"@, "ROLE"@, t, Some(t)))
        } else {
            prev
        }
    }
}

/// The privileges of a resource column of a grant row.
pub open spec fn column_entries(o: Option<String>, rtype: Seq<char>) -> Seq<PermEntry> {
    match listed(o) {
        Some(s) => resource_privs(s, rtype),
        None => Seq::empty(),
    }
}

/// The privileges of one grant row: roles, global privileges, then the
/// catalog, database, table, column, resource and workload-group columns.
#[verifier::opaque]
pub open spec fn grant_row_entries(r: GrantRow) -> Seq<PermEntry> {
    (match listed(r.roles) {
        Some(s) => role_entries(split(s, ',')),
        None => Seq::empty(),
    }) + (match listed(r.global_privs) {
        Some(s) => privilege_entries(split(s, ','), "GLOBAL"@, "*"@),
        None => Seq::empty(),
    }) + column_entries(r.catalog_privs, "CATALOG"@) + column_entries(
        r.database_privs,
        "DATABASE"@,
    ) + column_entries(r.table_privs, "TABLE"@) + column_entries(r.col_privs, "COLUMN"@)
        + column_entries(r.resource_privs, "RESOURCE"@) + column_entries(
        r.workload_group_privs,
        "WORKLOAD_GROUP"@,
    )
}

/// The privileges of grant rows, in order.
pub open spec fn grant_rows_entries(rows: Seq<GrantRow>) -> Seq<PermEntry>
    decreases rows.len(),
{
    if rows.len() == 0 {
        Seq::empty()
    } else {
        grant_rows_entries(rows.drop_last()) + grant_row_entries(rows.last())
    }
}

fn listed_exec(o: &Option<String>) -> (r: Option<Vec<char>>)
    ensures
        match listed(*o) {
            Some(s) => r matches Some(v) && v@ == s,
            None => r is None,
        },
{
    match o {
        Some(s) => {
            let v = chars_of(s.as_str());
            if v.len() > 0 && !eq_lit(v.as_slice(), "NULL") {
                Some(v)
            } else {
                None
            }
        },
        None => None,
    }
}

fn role_entries_exec(text: &[char]) -> (r: Vec<Entry>)
    ensures
        entry_views(r@) == role_entries(split(text@, ',')),
{
    let parts = split_exec(text, ',');
    let ghost pv = split(text@, ',');
    let mut out: Vec<Entry> = Vec::new();
    let mut i: usize = 0;
    while i < parts.len()
        invariant
            i <= parts.len(),
            parts@.len() == pv.len(),
            forall|k: int| 0 <= k < parts@.len() ==> #[trigger] parts@[k]@ == pv[k],
            entry_views(out@) == role_entries(pv.take(i as int)),
        decreases parts.len() - i,
    {
        proof {
            assert(pv.take(i + 1).drop_last() =~= pv.take(i as int));
            assert(pv.take(i + 1).last() == parts@[i as int]@);
        }
        let t = trim_exec(parts[i].as_slice());
        if t.len() > 0 {
            let ghost before = entry_views(out@);
            let e: Entry = (
                String::from_str("ROLE"),
                String::from_str("ROLE"),
                string_of(t.as_slice()),
                Some(string_of(t.as_slice())),
            );
            out.push(e);
            assert(entry_views(out@) =~= before.push(entry_view(e)));
        }
        i += 1;
    }
    assert(pv.take(parts.len() as int) =~= pv);
    out
}

fn column_entries_exec(o: &Option<String>, rtype: &str, out: &mut Vec<Entry>)
    ensures
        entry_views(final(out)@) == entry_views(old(out)@) + column_entries(*o, rtype@),
{
    match listed_exec(o) {
        Some(v) => {
            let more = resource_entries_exec(v.as_slice(), rtype);
            append_entries(out, more);
        },
        None => {
            assert(entry_views(out@) =~= entry_views(out@) + Seq::<PermEntry>::empty());
        },
    }
}

fn grant_row_entries_exec(row: &GrantRow) -> (r: Vec<Entry>)
    ensures
        entry_views(r@) == grant_row_entries(*row),
{
    proof {
        reveal(grant_row_entries);
    }
    let mut out: Vec<Entry> = Vec::new();
    match listed_exec(&row.roles) {
        Some(v) => {
            let more = role_entries_exec(v.as_slice());
            append_entries(&mut out, more);
        },
        None => {},
    }
    match listed_exec(&row.global_privs) {
        Some(v) => {
            let star = chars_of("*");
            let more = privilege_entries_exec(v.as_slice(), "GLOBAL", star.as_slice());
            append_entries(&mut out, more);
        },
        None => {},
    }
    let ghost head = entry_views(out@);
    column_entries_exec(&row.catalog_privs, "CATALOG", &mut out);
    column_entries_exec(&row.database_privs, "DATABASE", &mut out);
    column_entries_exec(&row.table_privs, "TABLE", &mut out);
    column_entries_exec(&row.col_privs, "COLUMN", &mut out);
    column_entries_exec(&row.resource_privs, "RESOURCE", &mut out);
    column_entries_exec(&row.workload_group_privs, "WORKLOAD_GROUP", &mut out);
    assert(entry_views(out@) =~= grant_row_entries(*row));
    out
}

/// The privileges a user holds according to its `SHOW GRANTS` rows,
/// numbered from 1.
pub fn permissions_from_grants(rows: &[GrantRow]) -> (r: Vec<DbUserPermissionDto>)
    requires
        1 + grant_rows_entries(rows@).len() <= i32::MAX,
    ensures
        perm_entries(r@) == grant_rows_entries(rows@),
        ids_from(r@, 1),
{
    let mut all: Vec<Entry> = Vec::new();
    let mut i: usize = 0;
    while i < rows.len()
        invariant
            i <= rows.len(),
            entry_views(all@) == grant_rows_entries(rows@.take(i as int)),
        decreases rows.len() - i,
    {
        let more = grant_row_entries_exec(&rows[i]);
        append_entries(&mut all, more);
        assert(rows@.take(i + 1).drop_last() =~= rows@.take(i as int));
        assert(rows@.take(i + 1).last() == rows@[i as int]);
        i += 1;
    }
    assert(rows@.take(rows.len() as int) =~= rows@);
    assert(all@.len() == entry_views(all@).len());
    let mut permissions: Vec<DbUserPermissionDto> = Vec::new();
    let mut counter: i32 = 1;
    number_entries(all, &mut permissions, &mut counter);
    assert(permissions@.skip(0) =~= permissions@);
    permissions
}


// ---------------------------------------------------------------------------
// SHOW PROC routing
// ---------------------------------------------------------------------------

/// The `SHOW PROC` paths Doris serves directly.
pub open spec fn supported_proc_paths() -> Seq<Seq<char>> {
    seq![
        "backends"@, "frontends"@, "dbs"@, "current_queries"@, "transactions"@,
        "routine_loads"@, "stream_loads"@, "tasks"@, "resources"@, "colocation_group"@,
        "jobs"@, "monitor"@, "statistic"@, "cluster_balance"@, "brokers"@, "catalogs"@,
        "current_backend_instances"@, "auth"@, "bdbje"@, "binlog"@, "cluster_health"@,
        "current_query_stmts"@, "diagnose"@, "trash"@,
    ]
}

fn supported_proc_list() -> (r: Vec<&'static str>)
    ensures
        r@.map_values(|s: &'static str| s@) == supported_proc_paths(),
{
    let r: Vec<&'static str> = vec![
        "backends", "frontends", "dbs", "current_queries", "transactions", "routine_loads",
        "stream_loads", "tasks", "resources", "colocation_group", "jobs", "monitor",
        "statistic", "cluster_balance", "brokers", "catalogs", "current_backend_instances",
        "auth", "bdbje", "binlog", "cluster_health", "current_query_stmts", "diagnose", "trash",
    ];
    assert(r@.map_values(|s: &'static str| s@) =~= supported_proc_paths());
    r
}

/// How a `SHOW PROC` request is served on Doris.
#[derive(Debug, Clone, PartialEq, Eq)]
pub enum ProcRoute {
    /// Run this statement.
    Run(String),
    /// Aggregate the cancelled loads of every database.
    LoadErrors,
    /// Doris has no such information: an empty result.
    Nothing,
    /// Refused with this message.
    Unsupported(String),
}

/// Model of a route.
pub enum ProcRouteView {
    Run(Seq<char>),
    LoadErrors,
    Nothing,
    Unsupported(Seq<char>),
}

impl View for ProcRoute {
    type V = ProcRouteView;

    open spec fn view(&self) -> ProcRouteView {
        match self {
            ProcRoute::Run(s) => ProcRouteView::Run(s@),
            ProcRoute::LoadErrors => ProcRouteView::LoadErrors,
            ProcRoute::Nothing => ProcRouteView::Nothing,
            ProcRoute::Unsupported(m) => ProcRouteView::Unsupported(m@),
        }
    }
}

/// The statement `SHOW PROC '<path>'`.
pub open spec fn show_proc_sql(path: Seq<char>) -> Seq<char> {
    "SHOW PROC '"@ + path + "'"@
}

/// The route of a `SHOW PROC` path: supported paths run as given (with a
/// leading `/`); StarRocks-only paths map to their Doris counterpart, an
/// aggregation, an empty result, or a refusal listing the supported paths.
pub open spec fn proc_route(path: Seq<char>) -> ProcRouteView {
    let normalized = normalized_proc_path(path);
    proc_route_named(normalized, crate::text::strip_char_start(normalized, '/'))
}

/// A `SHOW PROC` path with a leading `/`.
pub open spec fn normalized_proc_path(path: Seq<char>) -> Seq<char> {
    if path.len() > 0 && path[0] == '/' {
        path
    } else {
        "/"@ + path
    }
}

/// The route of a normalised path whose name (without leading `/`s) is
/// `name`.
pub open spec fn proc_route_named(normalized: Seq<char>, name: Seq<char>) -> ProcRouteView {
    if supported_proc_paths().contains(name) {
        ProcRouteView::Run(show_proc_sql(normalized))
    } else if name == "compactions"@ {
        ProcRouteView::Run(show_proc_sql("/cluster_health/tablet_health"@))
    } else if name == "load_error_hub"@ {
        ProcRouteView::LoadErrors
    } else if name == "replications"@ || name == "historical_nodes"@ || name == "meta_recovery"@
        || name == "warehouses"@ {
        ProcRouteView::Nothing
    } else if name == "compute_nodes"@ {
        ProcRouteView::Run(show_proc_sql("/backends"@))
    } else if name == "global_current_queries"@ {
        ProcRouteView::Run(show_proc_sql("/current_queries"@))
    } else if name == "catalog"@ {
        ProcRouteView::Run(show_proc_sql("/catalogs"@))
    } else {
        ProcRouteView::Unsupported(
            "SHOW PROC '"@ + normalized + "' is not supported in Doris. Supported paths: "@
                + crate::text::join(supported_proc_paths(), ", "@),
        )
    }
}

fn show_proc(path: &str) -> (r: String)
    ensures
        r@ == show_proc_sql(path@),
{
    let mut r = String::from_str("SHOW PROC '");
    r.append(path);
    r.append("'");
    r
}

/// How Doris serves a `SHOW PROC` path.
pub fn route_show_proc(path: &str) -> (r: ProcRoute)
    ensures
        r@ == proc_route(path@),
{
    let v = chars_of(path);
    let normalized = if v.len() > 0 && v[0] == '/' {
        String::from_str(path)
    } else {
        let mut n = String::from_str("/");
        n.append(path);
        n
    };
    let nv = chars_of(normalized.as_str());
    let mut a: usize = 0;
    assert(nv@.skip(0) =~= nv@);
    while a < nv.len() && nv[a] == '/'
        invariant
            a <= nv.len(),
            crate::text::strip_char_start(nv@, '/') == crate::text::strip_char_start(
                nv@.skip(a as int),
                '/',
            ),
        decreases nv.len() - a,
    {
        assert(nv@.skip(a as int).drop_first() =~= nv@.skip(a + 1));
        a += 1;
    }
    let name_chars = vstd::slice::slice_subrange(nv.as_slice(), a, nv.len());
    assert(name_chars@ =~= nv@.skip(a as int));
    assert(nv@.skip(a as int).len() > 0 ==> nv@.skip(a as int)[0] == nv@[a as int]);
    assert(crate::text::strip_char_start(nv@.skip(a as int), '/') == nv@.skip(a as int));
    let name = string_of(name_chars);
    assert(name@ == crate::text::strip_char_start(normalized@, '/'));
    let ghost spec_norm = normalized_proc_path(path@);
    assert(normalized@ == spec_norm);
    let supported = supported_proc_list();
    let ghost sp = supported_proc_paths();
    let mut i: usize = 0;
    while i < supported.len()
        invariant
            i <= supported.len(),
            supported@.map_values(|s: &'static str| s@) == sp,
            forall|k: int| 0 <= k < i ==> sp[k] != name@,
            name@ == crate::text::strip_char_start(normalized@, '/'),
            normalized@ == spec_norm,
            spec_norm == normalized_proc_path(path@),
            sp == supported_proc_paths(),
        decreases supported.len() - i,
    {
        assert(sp[i as int] == supported@[i as int]@);
        if str_eq(supported[i], name.as_str()) {
            assert(sp.contains(name@));
            return ProcRoute::Run(show_proc(normalized.as_str()));
        }
        i += 1;
    }
    assert(!sp.contains(name@));
    let n = name.as_str();
    if str_eq(n, "compactions") {
        ProcRoute::Run(show_proc("/cluster_health/tablet_health"))
    } else if str_eq(n, "load_error_hub") {
        ProcRoute::LoadErrors
    } else if str_eq(n, "replications") || str_eq(n, "historical_nodes") || str_eq(
        n,
        "meta_recovery",
    ) || str_eq(n, "warehouses") {
        ProcRoute::Nothing
    } else if str_eq(n, "compute_nodes") {
        ProcRoute::Run(show_proc("/backends"))
    } else if str_eq(n, "global_current_queries") {
        ProcRoute::Run(show_proc("/current_queries"))
    } else if str_eq(n, "catalog") {
        ProcRoute::Run(show_proc("/catalogs"))
    } else {
        let mut owned: Vec<String> = Vec::new();
        let mut k: usize = 0;
        while k < supported.len()
            invariant
                k <= supported.len(),
                supported@.map_values(|s: &'static str| s@) == sp,
                crate::text::texts(owned@) == sp.take(k as int),
            decreases supported.len() - k,
        {
            let ghost before = crate::text::texts(owned@);
            let x = String::from_str(supported[k]);
            owned.push(x);
            assert(crate::text::texts(owned@) =~= before.push(x@));
            assert(sp.take(k + 1) =~= sp.take(k as int).push(sp[k as int]));
            k += 1;
        }
        assert(sp.take(supported.len() as int) =~= sp);
        let list = crate::text::join_strings(owned.as_slice(), ", ");
        let mut m = String::from_str("SHOW PROC '");
        m.append(normalized.as_str());
        m.append("' is not supported in Doris. Supported paths: ");
        m.append(list.as_str());
        ProcRoute::Unsupported(m)
    }
}


// ---------------------------------------------------------------------------
// Rows of SHOW BACKENDS / FRONTENDS / PROCESSLIST
// ---------------------------------------------------------------------------

/// The text of field `key` of a row object, `0` when the field is absent.
pub open spec fn row_value(row: Seq<(String, JsonCell)>, key: Seq<char>) -> Seq<char> {
    match field_position(row, key) {
        Some(i) => cell_text(row[i].1),
        None => "0"@,
    }
}

/// The text of field `key` of a row object (`0` when absent).
pub fn get_str(row: &[(String, JsonCell)], key: &str) -> (r: String)
    ensures
        r@ == row_value(row@, key@),
{
    let mut j: usize = 0;
    while j < row.len()
        invariant
            j <= row.len(),
            forall|t: int| 0 <= t < j ==> (#[trigger] row@[t]).0@ != key@,
        ensures
            j <= row.len(),
            forall|t: int| 0 <= t < j ==> (#[trigger] row@[t]).0@ != key@,
            j < row.len() ==> row@[j as int].0@ == key@,
        decreases row.len() - j,
    {
        if str_eq(row[j].0.as_str(), key) {
            break;
        }
        j += 1;
    }
    proof {
        lemma_field_position(row@, key@, j as int);
    }
    if j < row.len() {
        cell_text_exec(&row[j].1)
    } else {
        String::from_str("0")
    }
}

/// A backend node as shown to the frontend.
#[derive(Debug, Clone)]
pub struct Backend {
    pub backend_id: String,
    pub host: String,
    pub heartbeat_port: String,
    pub be_port: String,
    pub http_port: String,
    pub brpc_port: String,
    pub last_start_time: String,
    pub last_heartbeat: String,
    pub alive: String,
    pub system_decommissioned: String,
    pub cluster_decommissioned: String,
    pub tablet_num: String,
    pub data_used_capacity: String,
    pub avail_capacity: String,
    pub total_capacity: String,
    pub used_pct: String,
    pub max_disk_used_pct: String,
    pub err_msg: String,
    pub version: String,
    pub status: String,
    pub data_total_capacity: String,
    pub data_used_pct: String,
    pub cpu_cores: String,
    pub mem_limit: String,
    pub num_running_queries: String,
    pub mem_used_pct: String,
    pub cpu_used_pct: String,
    pub data_cache_metrics: String,
    pub location: String,
    pub status_code: String,
    pub has_storage_path: String,
    pub starlet_port: String,
    pub worker_id: String,
    pub warehouse_name: String,
}

/// The fields of a backend read from a `SHOW BACKENDS` row.
pub open spec fn backend_of_row(r: Backend, row: Seq<(String, JsonCell)>) -> bool {
    &&& r.backend_id@ == row_value(row, "BackendId"@)
    &&& r.host@ == row_value(row, "Host"@)
    &&& r.heartbeat_port@ == row_value(row, "HeartbeatPort"@)
    &&& r.be_port@ == row_value(row, "BePort"@)
    &&& r.http_port@ == row_value(row, "HttpPort"@)
    &&& r.brpc_port@ == row_value(row, "BrpcPort"@)
    &&& r.last_start_time@ == row_value(row, "LastStartTime"@)
    &&& r.last_heartbeat@ == row_value(row, "LastHeartbeat"@)
    &&& r.alive@ == row_value(row, "Alive"@)
    &&& r.system_decommissioned@ == row_value(row, "SystemDecommissioned"@)
    &&& r.cluster_decommissioned@ == "false"@
    &&& r.tablet_num@ == row_value(row, "TabletNum"@)
    &&& r.data_used_capacity@ == row_value(row, "DataUsedCapacity"@)
    &&& r.avail_capacity@ == row_value(row, "AvailCapacity"@)
    &&& r.total_capacity@ == row_value(row, "TotalCapacity"@)
    &&& r.used_pct@ == row_value(row, "UsedPct"@)
    &&& r.max_disk_used_pct@ == row_value(row, "MaxDiskUsedPct"@)
    &&& r.err_msg@ == row_value(row, "ErrMsg"@)
    &&& r.version@ == row_value(row, "Version"@)
    &&& r.status@ == row_value(row, "Status"@)
    &&& r.data_total_capacity@ == "0"@
    &&& r.data_used_pct@ == "0"@
    &&& r.cpu_cores@ == row_value(row, "CpuCores"@)
    &&& r.mem_limit@ == "0"@
    &&& r.num_running_queries@ == "0"@
    &&& r.mem_used_pct@ == "0"@
    &&& r.cpu_used_pct@ == "0"@
    &&& r.data_cache_metrics@ == ""@
    &&& r.location@ == row_value(row, "Tag"@)
    &&& r.status_code@ == "0"@
    &&& r.has_storage_path@ == ""@
    &&& r.starlet_port@ == "0"@
    &&& r.worker_id@ == "0"@
    &&& r.warehouse_name@ == ""@
}

/// A `SHOW BACKENDS` row as a backend (fields Doris lacks get fixed values).
pub fn parse_backend_row(row: &[(String, JsonCell)]) -> (res: Option<Backend>)
    ensures
        res matches Some(r) && backend_of_row(r, row@),
{
    Some(
        Backend {
            backend_id: get_str(row, "BackendId"),
            host: get_str(row, "Host"),
            heartbeat_port: get_str(row, "HeartbeatPort"),
            be_port: get_str(row, "BePort"),
            http_port: get_str(row, "HttpPort"),
            brpc_port: get_str(row, "BrpcPort"),
            last_start_time: get_str(row, "LastStartTime"),
            last_heartbeat: get_str(row, "LastHeartbeat"),
            alive: get_str(row, "Alive"),
            system_decommissioned: get_str(row, "SystemDecommissioned"),
            cluster_decommissioned: String::from_str("false"),
            tablet_num: get_str(row, "TabletNum"),
            data_used_capacity: get_str(row, "DataUsedCapacity"),
            avail_capacity: get_str(row, "AvailCapacity"),
            total_capacity: get_str(row, "TotalCapacity"),
            used_pct: get_str(row, "UsedPct"),
            max_disk_used_pct: get_str(row, "MaxDiskUsedPct"),
            err_msg: get_str(row, "ErrMsg"),
            version: get_str(row, "Version"),
            status: get_str(row, "Status"),
            data_total_capacity: String::from_str("0"),
            data_used_pct: String::from_str("0"),
            cpu_cores: get_str(row, "CpuCores"),
            mem_limit: String::from_str("0"),
            num_running_queries: String::from_str("0"),
            mem_used_pct: String::from_str("0"),
            cpu_used_pct: String::from_str("0"),
            data_cache_metrics: String::from_str(""),
            location: get_str(row, "Tag"),
            status_code: String::from_str("0"),
            has_storage_path: String::from_str(""),
            starlet_port: String::from_str("0"),
            worker_id: String::from_str("0"),
            warehouse_name: String::from_str(""),
        }
    )
}

/// A frontend node as shown to the frontend.
#[derive(Debug, Clone)]
pub struct Frontend {
    pub name: String,
    pub host: String,
    pub edit_log_port: String,
    pub http_port: String,
    pub query_port: String,
    pub rpc_port: String,
    pub role: String,
    pub cluster_id: String,
    pub join: String,
    pub alive: String,
    pub replayed_journal_id: String,
    pub last_heartbeat: String,
    pub err_msg: String,
    pub version: String,
    pub is_master: Option<String>,
    pub is_helper: Option<String>,
    pub start_time: Option<String>,
}

/// The fields of a frontend read from a `SHOW FRONTENDS` row.
pub open spec fn frontend_of_row(r: Frontend, row: Seq<(String, JsonCell)>) -> bool {
    &&& r.name@ == row_value(row, "Name"@)
    &&& r.host@ == row_value(row, "Host"@)
    &&& r.edit_log_port@ == row_value(row, "EditLogPort"@)
    &&& r.http_port@ == row_value(row, "HttpPort"@)
    &&& r.query_port@ == row_value(row, "QueryPort"@)
    &&& r.rpc_port@ == row_value(row, "RpcPort"@)
    &&& r.role@ == row_value(row, "Role"@)
    &&& r.cluster_id@ == row_value(row, "ClusterId"@)
    &&& r.join@ == row_value(row, "Join"@)
    &&& r.alive@ == row_value(row, "Alive"@)
    &&& r.replayed_journal_id@ == row_value(row, "ReplayedJournalId"@)
    &&& r.last_heartbeat@ == row_value(row, "LastHeartbeat"@)
    &&& r.err_msg@ == row_value(row, "ErrMsg"@)
    &&& r.version@ == row_value(row, "Version"@)
    &&& r.is_master matches Some(m) && m@ == row_value(row, "IsMaster"@)
    &&& r.is_helper matches Some(h) && h@ == row_value(row, "IsHelper"@)
    &&& r.start_time is None
}

/// A `SHOW FRONTENDS` row as a frontend.
pub fn parse_frontend_row(row: &[(String, JsonCell)]) -> (res: Option<Frontend>)
    ensures
        res matches Some(r) && frontend_of_row(r, row@),
{
    Some(
        Frontend {
            name: get_str(row, "Name"),
            host: get_str(row, "Host"),
            edit_log_port: get_str(row, "EditLogPort"),
            http_port: get_str(row, "HttpPort"),
            query_port: get_str(row, "QueryPort"),
            rpc_port: get_str(row, "RpcPort"),
            role: get_str(row, "Role"),
            cluster_id: get_str(row, "ClusterId"),
            join: get_str(row, "Join"),
            alive: get_str(row, "Alive"),
            replayed_journal_id: get_str(row, "ReplayedJournalId"),
            last_heartbeat: get_str(row, "LastHeartbeat"),
            err_msg: get_str(row, "ErrMsg"),
            version: get_str(row, "Version"),
            is_master: Some(get_str(row, "IsMaster")),
            is_helper: Some(get_str(row, "IsHelper")),
            start_time: None,
        }
    )
}

/// A running query as shown to the frontend.
#[derive(Debug, Clone)]
pub struct Query {
    pub query_id: String,
    pub connection_id: String,
    pub database: String,
    pub user: String,
    pub scan_bytes: String,
    pub process_rows: String,
    pub cpu_time: String,
    pub exec_time: String,
    pub sql: String,
    pub start_time: Option<String>,
    pub fe_ip: Option<String>,
    pub memory_usage: Option<String>,
    pub disk_spill_size: Option<String>,
    pub exec_progress: Option<String>,
    pub warehouse: Option<String>,
    pub custom_query_id: Option<String>,
    pub resource_group: Option<String>,
}

/// The fields of a query read from a `SHOW PROCESSLIST` row.
pub open spec fn query_of_row(r: Query, row: Seq<(String, JsonCell)>) -> bool {
    &&& r.query_id@ == (if row_value(row, "QueryId"@).len() == 0 {
            row_value(row, "Id"@)
        } else {
            row_value(row, "QueryId"@)
        })
    &&& r.connection_id@ == row_value(row, "Id"@)
    &&& r.database@ == row_value(row, "Db"@)
    &&& r.user@ == row_value(row, "User"@)
    &&& r.scan_bytes@ == "0"@ && r.process_rows@ == "0"@ && r.cpu_time@ == "0"@
    &&& r.exec_time@ == row_value(row, "Time"@)
    &&& r.sql@ == row_value(row, "Info"@)
    &&& r.start_time matches Some(t) && t@ == row_value(row, "LoginTime"@)
    &&& r.fe_ip is None && r.memory_usage is None && r.disk_spill_size is None
    &&& r.exec_progress is None && r.warehouse is None && r.custom_query_id is None
    &&& r.resource_group is None
}

/// A `SHOW PROCESSLIST` row as a query: its query id, or the connection id
/// when the query id is empty.
pub fn parse_query_row(row: &[(String, JsonCell)]) -> (res: Option<Query>)
    ensures
        res matches Some(r) && query_of_row(r, row@),
{
    let query_id = get_str(row, "QueryId");
    let connection_id = get_str(row, "Id");
    let qid = if query_id.as_str().is_empty() {
        connection_id.clone()
    } else {
        query_id
    };
    Some(
        Query {
            query_id: qid,
            connection_id,
            database: get_str(row, "Db"),
            user: get_str(row, "User"),
            scan_bytes: String::from_str("0"),
            process_rows: String::from_str("0"),
            cpu_time: String::from_str("0"),
            exec_time: get_str(row, "Time"),
            sql: get_str(row, "Info"),
            start_time: Some(get_str(row, "LoginTime")),
            fe_ip: None,
            memory_usage: None,
            disk_spill_size: None,
            exec_progress: None,
            warehouse: None,
            custom_query_id: None,
            resource_group: None,
        }
    )
}


// ---------------------------------------------------------------------------
// Materialized views and rollups
// ---------------------------------------------------------------------------

/// A materialized view (an asynchronous one or a rollup) as listed.
#[derive(Debug, Clone)]
pub struct MaterializedView {
    pub id: String,
    pub name: String,
    pub database_name: String,
    pub text: String,
    pub rows: Option<i64>,
    pub refresh_type: String,
    pub is_active: bool,
    pub partition_type: Option<String>,
    pub task_id: Option<String>,
    pub task_name: Option<String>,
    pub last_refresh_start_time: Option<String>,
    pub last_refresh_finished_time: Option<String>,
    pub last_refresh_duration: Option<String>,
    pub last_refresh_state: Option<String>,
}

/// The text of an optional string.
pub open spec fn opt_view(o: Option<String>) -> Option<Seq<char>> {
    match o {
        Some(s) => Some(s@),
        None => None,
    }
}

/// The listing skips internal (`__...`) and system databases.
pub open spec fn mv_listing_skips(db: Seq<char>) -> bool {
    starts_with(db, "__"@) || db == "information_schema"@ || db == "mysql"@ || db == "sys"@
}

/// Whether the listing of materialized views skips a database.
pub fn skip_in_mv_listing(db: &str) -> (r: bool)
    ensures
        r == mv_listing_skips(db@),
{
    let v = chars_of(db);
    let p = chars_of("__");
    starts_with_exec(v.as_slice(), p.as_slice()) || str_eq(db, "information_schema") || str_eq(
        db,
        "mysql",
    ) || str_eq(db, "sys")
}

/// The texts of result rows.
pub open spec fn rows_text(rows: Seq<Vec<String>>) -> Seq<Seq<Seq<char>>> {
    rows.map_values(|r: Vec<String>| r@.map_values(|c: String| c@))
}

/// The first cell of the first row, if any.
pub open spec fn first_value_of(rows: Seq<Seq<Seq<char>>>) -> Option<Seq<char>> {
    if rows.len() > 0 && rows[0].len() > 0 {
        Some(rows[0][0])
    } else {
        None
    }
}

/// The first cell of the first row, if any.
pub fn first_value(rows: &[Vec<String>]) -> (r: Option<String>)
    ensures
        opt_view(r) == first_value_of(rows_text(rows@)),
{
    if rows.len() > 0 && rows[0].len() > 0 {
        Some(rows[0][0].clone())
    } else {
        None
    }
}

/// The row count a `COUNT(*)` result reports (its first cell, if numeric).
pub fn count_from_rows(rows: &[Vec<String>]) -> (r: Option<i64>)
    ensures
        r == match first_value_of(rows_text(rows@)) {
            Some(c) => crate::text::parsed_i64(c),
            None => None,
        },
{
    match first_value(rows) {
        Some(c) => crate::text::parse_i64(c.as_str()),
        None => None,
    }
}

/// `SELECT COUNT(*)` of a table.
pub fn count_sql(db: &str, table: &str) -> (r: String)
    ensures
        r@ == "SELECT COUNT(*) FROM `"@ + db@ + "`.`"@ + table@ + "`"@,
{
    let mut r = String::from_str("SELECT COUNT(*) FROM `");
    r.append(db);
    r.append("`.`");
    r.append(table);
    r.append("`");
    r
}

/// `SHOW CREATE MATERIALIZED VIEW` of a table (it succeeds only for an
/// asynchronous materialized view).
pub fn show_create_mv_sql(db: &str, table: &str) -> (r: String)
    ensures
        r@ == "SHOW CREATE MATERIALIZED VIEW `"@ + db@ + "`.`"@ + table@ + "`"@,
{
    let mut r = String::from_str("SHOW CREATE MATERIALIZED VIEW `");
    r.append(db);
    r.append("`.`");
    r.append(table);
    r.append("`");
    r
}

/// `SHOW TABLES` of a database.
pub fn show_tables_sql(db: &str) -> (r: String)
    ensures
        r@ == "SHOW TABLES FROM "@ + db@,
{
    let mut r = String::from_str("SHOW TABLES FROM ");
    r.append(db);
    r
}

/// The creation time of a table, from `information_schema`.
pub fn table_create_time_sql(db: &str, table: &str) -> (r: String)
    ensures
        r@ == "SELECT CREATE_TIME FROM information_schema.TABLES WHERE TABLE_SCHEMA='"@ + db@
            + "' AND TABLE_NAME='"@ + table@ + "'"@,
{
    let mut r = String::from_str("SELECT CREATE_TIME FROM information_schema.TABLES WHERE TABLE_SCHEMA='");
    r.append(db);
    r.append("' AND TABLE_NAME='");
    r.append(table);
    r.append("'");
    r
}

/// The rollup jobs of a database.
pub fn rollup_jobs_sql(db: &str) -> (r: String)
    ensures
        r@ == "SHOW ALTER TABLE ROLLUP FROM `"@ + db@ + "`"@,
{
    let mut r = String::from_str("SHOW ALTER TABLE ROLLUP FROM `");
    r.append(db);
    r.append("`");
    r
}

/// `DESC ... ALL` of a table (listing its indexes).
pub fn desc_all_sql(db: &str, table: &str) -> (r: String)
    ensures
        r@ == "DESC `"@ + db@ + "`.`"@ + table@ + "` ALL"@,
{
    let mut r = String::from_str("DESC `");
    r.append(db);
    r.append("`.`");
    r.append(table);
    r.append("` ALL");
    r
}

/// The entry of an asynchronous materialized view.
pub open spec fn async_mv_matches(m: MaterializedView, db: Seq<char>, table: Seq<char>, rows: Option<i64>, create_time: Option<Seq<char>>) -> bool {
    &&& m.id@ == db + "."@ + table
    &&& m.name@ == table
    &&& m.database_name@ == db
    &&& m.text@ == "Async materialized view in database "@ + db
    &&& m.rows == rows
    &&& m.refresh_type@ == "ASYNC"@
    &&& m.is_active
    &&& opt_view(m.partition_type) == Some("UNPARTITIONED"@)
    &&& m.task_id is None && m.task_name is None && m.last_refresh_duration is None
    &&& opt_view(m.last_refresh_start_time) == create_time
    &&& opt_view(m.last_refresh_finished_time) == create_time
    &&& opt_view(m.last_refresh_state) == Some("SUCCESS"@)
}

fn clone_opt(o: &Option<String>) -> (r: Option<String>)
    ensures
        opt_view(r) == opt_view(*o),
{
    match o {
        Some(s) => Some(s.clone()),
        None => None,
    }
}

/// The listing entry of an asynchronous materialized view, refreshed when
/// it was created.
pub fn async_mv_entry(db: &str, table: &str, rows: Option<i64>, create_time: Option<String>) -> (r: MaterializedView)
    ensures
        async_mv_matches(r, db@, table@, rows, opt_view(create_time)),
{
    let mut id = String::from_str(db);
    id.append(".");
    id.append(table);
    let mut text = String::from_str("Async materialized view in database ");
    text.append(db);
    MaterializedView {
        id,
        name: String::from_str(table),
        database_name: String::from_str(db),
        text,
        rows,
        refresh_type: String::from_str("ASYNC"),
        is_active: true,
        partition_type: Some(String::from_str("UNPARTITIONED")),
        task_id: None,
        task_name: None,
        last_refresh_start_time: clone_opt(&create_time),
        last_refresh_finished_time: create_time,
        last_refresh_duration: None,
        last_refresh_state: Some(String::from_str("SUCCESS")),
    }
}

/// The rollup index names of `DESC ... ALL` rows: first cells other than the
/// table's own name and the empty one, each once, in order.
pub open spec fn rollup_names(rows: Seq<Seq<Seq<char>>>, table: Seq<char>) -> Seq<Seq<char>>
    decreases rows.len(),
{
    if rows.len() == 0 {
        Seq::empty()
    } else {
        let prev = rollup_names(rows.drop_last(), table);
        let row = rows.last();
        if row.len() > 0 && row[0] != table && row[0].len() > 0 && !prev.contains(row[0]) {
            prev.push(row[0])
        } else {
            prev
        }
    }
}

/// The rollup index names of a table from its `DESC ... ALL` rows.
pub fn rollup_index_names(rows: &[Vec<String>], table: &str) -> (r: Vec<String>)
    ensures
        crate::text::texts(r@) == rollup_names(rows_text(rows@), table@),
{
    let ghost rv = rows_text(rows@);
    let mut out: Vec<String> = Vec::new();
    let mut i: usize = 0;
    while i < rows.len()
        invariant
            i <= rows.len(),
            rv == rows_text(rows@),
            crate::text::texts(out@) == rollup_names(rv.take(i as int), table@),
        decreases rows.len() - i,
    {
        assert(rv.take(i + 1).drop_last() =~= rv.take(i as int));
        assert(rv.take(i + 1).last() == rv[i as int]);
        assert(rv[i as int] == rows@[i as int]@.map_values(|c: String| c@));
        if rows[i].len() > 0 {
            let cell = &rows[i][0];
            assert(rv[i as int][0] == cell@);
            if !str_eq(cell.as_str(), table) && !cell.as_str().is_empty() {
                let ghost tv = crate::text::texts(out@);
                let mut seen = false;
                let mut k: usize = 0;
                while k < out.len()
                    invariant
                        k <= out@.len(),
                        tv == crate::text::texts(out@),
                        seen == exists|t: int| 0 <= t < k && tv[t] == cell@,
                    decreases out@.len() - k,
                {
                    assert(tv[k as int] == out@[k as int]@);
                    if str_eq(out[k].as_str(), cell.as_str()) {
                        seen = true;
                    }
                    k += 1;
                }
                if !seen {
                    let x = cell.clone();
                    out.push(x);
                    assert(crate::text::texts(out@) =~= tv.push(x@));
                }
            }
        }
        i += 1;
    }
    assert(rv.take(rows.len() as int) =~= rv);
    out
}

/// The cell at `k` of a row, if present.
pub open spec fn cell_at(row: Seq<Seq<char>>, k: int) -> Option<Seq<char>> {
    if 0 <= k < row.len() {
        Some(row[k])
    } else {
        None
    }
}

/// The first `SHOW ALTER TABLE ROLLUP` job of a table's index (table in
/// column 1, index in column 5), if any.
pub open spec fn rollup_job(jobs: Seq<Seq<Seq<char>>>, table: Seq<char>, index: Seq<char>) -> Option<int>
    decreases jobs.len(),
{
    if jobs.len() == 0 {
        None
    } else if cell_at(jobs[0], 1) == Some(table) && cell_at(jobs[0], 5) == Some(index) {
        Some(0)
    } else {
        match rollup_job(jobs.drop_first(), table, index) {
            Some(j) => Some(j + 1),
            None => None,
        }
    }
}

/// State, creation and finish time of a rollup: those of its job (state in
/// column 8, `FINISHED` when missing; times in columns 2 and 3), else
/// `FINISHED` with the table's creation time (also when the jobs could not
/// be read, `jobs` being `None`).
pub open spec fn rollup_state(jobs: Option<Seq<Seq<Seq<char>>>>, table: Seq<char>, index: Seq<char>, create_time: Option<Seq<char>>) -> (Seq<char>, Option<Seq<char>>, Option<Seq<char>>) {
    match jobs {
        Some(js) => match rollup_job(js, table, index) {
            Some(j) => (
                match cell_at(js[j], 8) {
                    Some(st) => st,
                    None => "FINISHED"@,
                },
                cell_at(js[j], 2),
                cell_at(js[j], 3),
            ),
            None => ("FINISHED"@, create_time, create_time),
        },
        None => ("FINISHED"@, create_time, create_time),
    }
}

proof fn lemma_rollup_job(jobs: Seq<Seq<Seq<char>>>, table: Seq<char>, index: Seq<char>, j: int)
    requires
        0 <= j <= jobs.len(),
        forall|t: int|
            0 <= t < j ==> !(cell_at(#[trigger] jobs[t], 1) == Some(table) && cell_at(
                jobs[t],
                5,
            ) == Some(index)),
        j < jobs.len() ==> cell_at(jobs[j], 1) == Some(table) && cell_at(jobs[j], 5) == Some(index),
    ensures
        rollup_job(jobs, table, index) == (if j < jobs.len() {
            Some(j)
        } else {
            None::<int>
        }),
    decreases j,
{
    if j > 0 {
        let rest = jobs.drop_first();
        assert(!(cell_at(jobs[0], 1) == Some(table) && cell_at(jobs[0], 5) == Some(index)));
        assert forall|t: int|
            0 <= t < j - 1 implies !(cell_at(#[trigger] rest[t], 1) == Some(table) && cell_at(
                rest[t],
                5,
            ) == Some(index)) by {
            assert(rest[t] == jobs[t + 1]);
        }
        lemma_rollup_job(rest, table, index, j - 1);
    }
}

fn cell_opt(row: &Vec<String>, k: usize) -> (r: Option<String>)
    ensures
        opt_view(r) == cell_at(row@.map_values(|c: String| c@), k as int),
{
    if k < row.len() {
        Some(row[k].clone())
    } else {
        None
    }
}

fn cell_is(row: &Vec<String>, k: usize, v: &str) -> (r: bool)
    ensures
        r == (cell_at(row@.map_values(|c: String| c@), k as int) == Some(v@)),
{
    k < row.len() && str_eq(row[k].as_str(), v)
}

/// State and times of a rollup from the table's rollup jobs.
pub fn rollup_job_state(
    jobs: Option<&[Vec<String>]>,
    table: &str,
    index: &str,
    create_time: Option<String>,
) -> (r: (String, Option<String>, Option<String>))
    ensures
        (r.0@, opt_view(r.1), opt_view(r.2)) == rollup_state(
            match jobs {
                Some(js) => Some(rows_text(js@)),
                None => None,
            },
            table@,
            index@,
            opt_view(create_time),
        ),
{
    match jobs {
        None => (String::from_str("FINISHED"), clone_opt(&create_time), create_time),
        Some(js) => {
            let ghost jv = rows_text(js@);
            let mut j: usize = 0;
            while j < js.len()
                invariant
                    j <= js.len(),
                    jv == rows_text(js@),
                    forall|t: int|
                        0 <= t < j ==> !(cell_at(#[trigger] jv[t], 1) == Some(table@) && cell_at(
                            jv[t],
                            5,
                        ) == Some(index@)),
                ensures
                    j <= js.len(),
                    forall|t: int|
                        0 <= t < j ==> !(cell_at(#[trigger] jv[t], 1) == Some(table@) && cell_at(
                            jv[t],
                            5,
                        ) == Some(index@)),
                    j < js.len() ==> cell_at(jv[j as int], 1) == Some(table@) && cell_at(
                        jv[j as int],
                        5,
                    ) == Some(index@),
                decreases js.len() - j,
            {
                assert(jv[j as int] == js@[j as int]@.map_values(|c: String| c@));
                if cell_is(&js[j], 1, table) && cell_is(&js[j], 5, index) {
                    break;
                }
                j += 1;
            }
            proof {
                lemma_rollup_job(jv, table@, index@, j as int);
            }
            if j < js.len() {
                assert(jv[j as int] == js@[j as int]@.map_values(|c: String| c@));
                let state = match cell_opt(&js[j], 8) {
                    Some(st) => st,
                    None => String::from_str("FINISHED"),
                };
                (state, cell_opt(&js[j], 2), cell_opt(&js[j], 3))
            } else {
                (String::from_str("FINISHED"), clone_opt(&create_time), create_time)
            }
        },
    }
}

/// The entry of a rollup: active when its state is `FINISHED`.
pub open spec fn rollup_matches(m: MaterializedView, db: Seq<char>, table: Seq<char>, index: Seq<char>, rows: Option<i64>, state: Seq<char>, created: Option<Seq<char>>, finished: Option<Seq<char>>) -> bool {
    &&& m.id@ == db + "."@ + table + "."@ + index
    &&& m.name@ == index
    &&& m.database_name@ == db
    &&& m.text@ == "Rollup of table "@ + db + "."@ + table
    &&& m.rows == rows
    &&& m.refresh_type@ == "ROLLUP"@
    &&& m.is_active == (state == "FINISHED"@)
    &&& opt_view(m.partition_type) == Some("UNPARTITIONED"@)
    &&& m.task_id is None && m.task_name is None && m.last_refresh_duration is None
    &&& opt_view(m.last_refresh_start_time) == created
    &&& opt_view(m.last_refresh_finished_time) == finished
    &&& opt_view(m.last_refresh_state) == Some(state)
}

/// The listing entry of a rollup index of a table.
pub fn rollup_entry(
    db: &str,
    table: &str,
    index: &str,
    rows: Option<i64>,
    state: String,
    created: Option<String>,
    finished: Option<String>,
) -> (r: MaterializedView)
    ensures
        rollup_matches(r, db@, table@, index@, rows, state@, opt_view(created), opt_view(finished)),
{
    let mut id = String::from_str(db);
    id.append(".");
    id.append(table);
    id.append(".");
    id.append(index);
    let mut text = String::from_str("Rollup of table ");
    text.append(db);
    text.append(".");
    text.append(table);
    let active = str_eq(state.as_str(), "FINISHED");
    MaterializedView {
        id,
        name: String::from_str(index),
        database_name: String::from_str(db),
        text,
        rows,
        refresh_type: String::from_str("ROLLUP"),
        is_active: active,
        partition_type: Some(String::from_str("UNPARTITIONED")),
        task_id: None,
        task_name: None,
        last_refresh_start_time: created,
        last_refresh_finished_time: finished,
        last_refresh_duration: None,
        last_refresh_state: Some(state),
    }
}

// ---------------------------------------------------------------------------
// Cancelled loads and rollup lookup
// ---------------------------------------------------------------------------

/// Databases whose loads are not reported (compared lower-cased).
pub open spec fn load_report_skips(db: Seq<char>) -> bool {
    let l = crate::text::unicode_lower(db);
    l == "information_schema"@ || l == "_statistics_"@ || l == "starrocks_audit_db__"@ || l
        == "__internal_schema"@ || l == "sys"@ || l == "mysql"@
}

/// Whether the load-error report skips a database.
pub fn skip_in_load_report(db: &str) -> (r: bool)
    ensures
        r == load_report_skips(db@),
{
    let l = crate::text::to_lowercase(db);
    let s = l.as_str();
    str_eq(s, "information_schema") || str_eq(s, "_statistics_") || str_eq(
        s,
        "starrocks_audit_db__",
    ) || str_eq(s, "__internal_schema") || str_eq(s, "sys") || str_eq(s, "mysql")
}

/// The fields of one cancelled load: its database, then each column with
/// the row's value (as many as the row has).
pub open spec fn load_error_fields_spec(db: Seq<char>, columns: Seq<Seq<char>>, row: Seq<Seq<char>>) -> Seq<(Seq<char>, Seq<char>)> {
    seq![("Database"@, db)] + Seq::new(
        if row.len() < columns.len() {
            row.len()
        } else {
            columns.len()
        },
        |i: int| (columns[i], row[i]),
    )
}

/// The fields of one cancelled load, as name/value pairs.
pub fn load_error_fields(db: &str, columns: &[String], row: &[String]) -> (r: Vec<(String, String)>)
    ensures
        r@.map_values(|p: (String, String)| (p.0@, p.1@)) == load_error_fields_spec(
            db@,
            crate::text::texts(columns@),
            crate::text::texts(row@),
        ),
{
    let n = if row.len() < columns.len() {
        row.len()
    } else {
        columns.len()
    };
    let ghost cv = crate::text::texts(columns@);
    let ghost rv = crate::text::texts(row@);
    let mut r: Vec<(String, String)> = Vec::new();
    r.push((String::from_str("Database"), String::from_str(db)));
    let mut i: usize = 0;
    while i < n
        invariant
            n <= row.len(),
            n <= columns.len(),
            i <= n,
            cv == crate::text::texts(columns@),
            rv == crate::text::texts(row@),
            r@.map_values(|p: (String, String)| (p.0@, p.1@)) == seq![("Database"@, db@)]
                + Seq::new(i as nat, |k: int| (cv[k], rv[k])),
        decreases n - i,
    {
        let ghost before = r@.map_values(|p: (String, String)| (p.0@, p.1@));
        let p = (columns[i].clone(), row[i].clone());
        r.push(p);
        assert(r@.map_values(|p: (String, String)| (p.0@, p.1@)) =~= before.push((p.0@, p.1@)));
        assert(seq![("Database"@, db@)] + Seq::new((i + 1) as nat, |k: int| (cv[k], rv[k]))
            =~= (seq![("Database"@, db@)] + Seq::new(i as nat, |k: int| (cv[k], rv[k]))).push(
            (cv[i as int], rv[i as int]),
        ));
        i += 1;
    }
    r
}

/// The search for a materialized view by name skips these databases.
pub open spec fn mv_search_skips(db: Seq<char>) -> bool {
    db == "information_schema"@ || db == "mysql"@ || db == "__internal_schema"@
}

/// Whether the search for a materialized view skips a database.
pub fn skip_in_mv_search(db: &str) -> (r: bool)
    ensures
        r == mv_search_skips(db@),
{
    str_eq(db, "information_schema") || str_eq(db, "mysql") || str_eq(db, "__internal_schema")
}

/// `DESC ... ALL` rows name the index `mv_name` in their `IndexName` column
/// (the first column of that name).
pub open spec fn names_rollup(columns: Seq<Seq<char>>, rows: Seq<Seq<Seq<char>>>, mv_name: Seq<char>) -> bool {
    match crate::audit::first_column(columns, "IndexName"@) {
        Some(c) => exists|i: int| 0 <= i < rows.len() && cell_at(#[trigger] rows[i], c) == Some(mv_name),
        None => false,
    }
}

/// Whether a table's `DESC ... ALL` result has the rollup `mv_name`.
pub fn has_rollup(columns: &[String], rows: &[Vec<String>], mv_name: &str) -> (r: bool)
    ensures
        r == names_rollup(crate::text::texts(columns@), rows_text(rows@), mv_name@),
{
    assert(crate::text::texts(columns@) =~= columns@.map_values(|s: String| s@));
    let c = match crate::audit::first_column_exec(columns, "IndexName") {
        Some(c) => c,
        None => {
            return false;
        },
    };
    let ghost rv = rows_text(rows@);
    let mut i: usize = 0;
    while i < rows.len()
        invariant
            i <= rows.len(),
            rv == rows_text(rows@),
            crate::audit::first_column(crate::text::texts(columns@), "IndexName"@) == Some(c as int),
            forall|t: int| 0 <= t < i ==> cell_at(#[trigger] rv[t], c as int) != Some(mv_name@),
        decreases rows.len() - i,
    {
        assert(rv[i as int] == rows@[i as int]@.map_values(|x: String| x@));
        if cell_is(&rows[i], c, mv_name) {
            assert(cell_at(rv[i as int], c as int) == Some(mv_name@));
            return true;
        }
        i += 1;
    }
    false
}

// ---------------------------------------------------------------------------
// Cancelled loads and query profiles
// ---------------------------------------------------------------------------

/// The cancelled loads of a database.
pub fn cancelled_loads_sql(db: &str) -> (r: String)
    ensures
        r@ == "SHOW LOAD FROM `"@ + db@ + "` WHERE State = 'CANCELLED'"@,
{
    let mut r = String::from_str("SHOW LOAD FROM `");
    r.append(db);
    r.append("` WHERE State = 'CANCELLED'");
    r
}

/// The frontend's HTTP endpoint of a query's profile text.
pub fn profile_text_url(fe_host: &str, fe_http_port: i32, query_id: &str) -> (r: String)
    ensures
        r@ == "http://"@ + fe_host@ + ":"@ + crate::text::int_dec(fe_http_port as int)
            + "/api/profile/text?query_id="@ + query_id@,
{
    let mut r = String::from_str("http://");
    r.append(fe_host);
    r.append(":");
    let port = crate::text::i64_string(fe_http_port as i64);
    r.append(port.as_str());
    r.append("/api/profile/text?query_id=");
    r.append(query_id);
    r
}

/// Why a query profile could not be had.
#[derive(Debug, Clone, PartialEq, Eq)]
pub enum ProfileFetchError {
    /// No profile for the query.
    NotFound(String),
    /// The frontend refused the request.
    ConnectionFailed(String),
}

/// The profile of a query from the frontend's reply: a 404, or a blank
/// body, means the profile does not exist; another non-success status is a
/// failure quoting the body; otherwise the body is the profile.
pub fn profile_from_reply(status: u16, body: &str, query_id: &str) -> (r: Result<String, ProfileFetchError>)
    ensures
        !(200 <= status < 300) && status != 404 ==> (r matches Err(ProfileFetchError::ConnectionFailed(m))
            && m@ == "Profile API failed: "@ + body@),
        (status == 404 || (200 <= status < 300 && trim(body@).len() == 0)) ==> (r matches Err(
            ProfileFetchError::NotFound(m),
        ) && m@ == "Profile not found for query: "@ + query_id@),
        200 <= status < 300 && trim(body@).len() > 0 ==> (r matches Ok(p) && p@ == body@),
{
    if !(200 <= status && status < 300) {
        if status == 404 {
            let mut m = String::from_str("Profile not found for query: ");
            m.append(query_id);
            return Err(ProfileFetchError::NotFound(m));
        }
        let mut m = String::from_str("Profile API failed: ");
        m.append(body);
        return Err(ProfileFetchError::ConnectionFailed(m));
    }
    let t = trim_exec(chars_of(body).as_slice());
    if t.len() == 0 {
        let mut m = String::from_str("Profile not found for query: ");
        m.append(query_id);
        Err(ProfileFetchError::NotFound(m))
    } else {
        Ok(String::from_str(body))
    }
}

} // verus!
