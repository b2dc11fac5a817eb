//! Rules of cluster registration: how a new cluster's form is cleaned and
//! checked, which organization a cluster goes to, which columns an update
//! writes, and when a cached active cluster may be reused.

use vstd::prelude::*;
use vstd::string::*;
use crate::text::{chars_of, i64_string, int_dec, join, string_of, texts, trim, trim_exec};

verus! {

/// The text fields of a new cluster that are cleaned before it is stored.
#[derive(Debug, Clone)]
pub struct ClusterForm {
    pub name: String,
    pub description: Option<String>,
    pub fe_host: String,
    pub username: String,
    pub catalog: String,
}

/// Why a new cluster's form is refused.
#[derive(Debug, Clone, Copy, PartialEq, Eq)]
pub enum ClusterFormError {
    EmptyName,
    EmptyHost,
    EmptyUsername,
}

/// The message of a refused form.
pub open spec fn form_error_text(e: ClusterFormError) -> Seq<char> {
    match e {
        ClusterFormError::EmptyName => "Cluster name cannot be empty"@,
        ClusterFormError::EmptyHost => "FE host cannot be empty"@,
        ClusterFormError::EmptyUsername => "Username cannot be empty"@,
    }
}

impl ClusterFormError {
    /// The message shown for the refusal.
    pub fn message(&self) -> (r: &'static str)
        ensures
            r@ == form_error_text(*self),
    {
        match self {
            ClusterFormError::EmptyName => "Cluster name cannot be empty",
            ClusterFormError::EmptyHost => "FE host cannot be empty",
            ClusterFormError::EmptyUsername => "Username cannot be empty",
        }
    }
}

fn trimmed(s: &str) -> (r: String)
    ensures
        r@ == trim(s@),
{
    let t = trim_exec(chars_of(s).as_slice());
    string_of(t.as_slice())
}

/// Cleans a new cluster's form (every field trimmed) and checks that the
/// name, the FE host and the user name are not empty, in that order.
pub fn normalize_cluster_form(form: ClusterForm) -> (r: Result<ClusterForm, ClusterFormError>)
    ensures
        trim(form.name@).len() == 0 ==> r == Err::<ClusterForm, ClusterFormError>(
            ClusterFormError::EmptyName,
        ),
        trim(form.name@).len() > 0 && trim(form.fe_host@).len() == 0 ==> r == Err::<
            ClusterForm,
            ClusterFormError,
        >(ClusterFormError::EmptyHost),
        trim(form.name@).len() > 0 && trim(form.fe_host@).len() > 0 && trim(form.username@).len()
            == 0 ==> r == Err::<ClusterForm, ClusterFormError>(ClusterFormError::EmptyUsername),
        r is Ok <==> (trim(form.name@).len() > 0 && trim(form.fe_host@).len() > 0 && trim(
            form.username@,
        ).len() > 0),
        r matches Ok(f) ==> {
            &&& f.name@ == trim(form.name@)
            &&& f.fe_host@ == trim(form.fe_host@)
            &&& f.username@ == trim(form.username@)
            &&& f.catalog@ == trim(form.catalog@)
            &&& match form.description {
                Some(d) => f.description matches Some(x) && x@ == trim(d@),
                None => f.description is None,
            }
        },
{
    let name = trimmed(form.name.as_str());
    let fe_host = trimmed(form.fe_host.as_str());
    let username = trimmed(form.username.as_str());
    let catalog = trimmed(form.catalog.as_str());
    let description = match &form.description {
        Some(d) => Some(trimmed(d.as_str())),
        None => None,
    };
    if name.as_str().is_empty() {
        return Err(ClusterFormError::EmptyName);
    }
    if fe_host.as_str().is_empty() {
        return Err(ClusterFormError::EmptyHost);
    }
    if username.as_str().is_empty() {
        return Err(ClusterFormError::EmptyUsername);
    }
    Ok(ClusterForm { name, description, fe_host, username, catalog })
}

/// The organization a cluster operation acts in.
#[derive(Debug, Clone, Copy, PartialEq, Eq)]
pub enum OrgChoice {
    /// This organization.
    Org(i64),
    /// The default organization (looked up, and created if missing).
    DefaultOrg,
    /// Refused: a non-super-admin without an organization.
    Forbidden,
}

/// A super admin acts in the requested organization, else in their own,
/// else in the default one; anyone else acts in their own organization and
/// is refused without one.
pub fn resolve_target_org(requested: Option<i64>, requestor: Option<i64>, is_super_admin: bool) -> (r:
    OrgChoice)
    ensures
        r == (if is_super_admin {
            match requested {
                Some(id) => OrgChoice::Org(id),
                None => match requestor {
                    Some(id) => OrgChoice::Org(id),
                    None => OrgChoice::DefaultOrg,
                },
            }
        } else {
            match requestor {
                Some(id) => OrgChoice::Org(id),
                None => OrgChoice::Forbidden,
            }
        }),
{
    if is_super_admin {
        match requested {
            Some(id) => OrgChoice::Org(id),
            None => match requestor {
                Some(id) => OrgChoice::Org(id),
                None => OrgChoice::DefaultOrg,
            },
        }
    } else {
        match requestor {
            Some(id) => OrgChoice::Org(id),
            None => OrgChoice::Forbidden,
        }
    }
}

/// The message of a refused organization.
pub fn org_forbidden_text() -> (r: &'static str)
    ensures
        r@ == "Organization context required for cluster operations"@,
{
    "Organization context required for cluster operations"
}

/// A cached active cluster answers a request for an organization's active
/// cluster only when an organization is given and the cluster belongs to it.
pub fn cached_active_matches(cached_org: Option<i64>, org: Option<i64>) -> (r: bool)
    ensures
        r == (org is Some && cached_org == org),
{
    match org {
        Some(o) => match cached_org {
            Some(c) => c == o,
            None => false,
        },
        None => false,
    }
}

/// The changes of a cluster update; absent fields keep their stored value.
/// Tags, deployment mode and cluster type come already rendered as stored.
#[derive(Debug, Clone)]
pub struct ClusterUpdate {
    pub name: Option<String>,
    pub description: Option<String>,
    pub fe_host: Option<String>,
    pub fe_http_port: Option<i64>,
    pub fe_query_port: Option<i64>,
    pub username: Option<String>,
    pub password: Option<String>,
    pub enable_ssl: Option<bool>,
    pub connection_timeout: Option<i64>,
    pub tags: Option<String>,
    pub catalog: Option<String>,
    pub organization_id: Option<i64>,
    pub deployment_mode: Option<String>,
    pub cluster_type: Option<String>,
    pub admin_user: Option<String>,
    pub admin_password: Option<String>,
}

/// A text change as (column, value).
pub open spec fn text_change(col: Seq<char>, v: Option<String>) -> Seq<(Seq<char>, Seq<char>)> {
    match v {
        Some(x) => seq![(col, x@)],
        None => Seq::empty(),
    }
}

/// An integer change as (column, decimal value).
pub open spec fn int_change(col: Seq<char>, v: Option<i64>) -> Seq<(Seq<char>, Seq<char>)> {
    match v {
        Some(x) => seq![(col, int_dec(x as int))],
        None => Seq::empty(),
    }
}

/// The changes of an update in column order, each as (column, value); a
/// flag is stored as `1` or `0`.
pub open spec fn update_changes(u: ClusterUpdate) -> Seq<(Seq<char>, Seq<char>)> {
    text_change("name"@, u.name) + text_change("description"@, u.description) + text_change(
        "fe_host"@,
        u.fe_host,
    ) + int_change("fe_http_port"@, u.fe_http_port) + int_change("fe_query_port"@, u.fe_query_port)
        + text_change("username"@, u.username) + text_change("password_encrypted"@, u.password)
        + match u.enable_ssl {
        Some(b) => seq![("enable_ssl"@, if b {
            "1"@
        } else {
            "0"@
        })],
        None => Seq::empty(),
    } + int_change("connection_timeout"@, u.connection_timeout) + text_change("tags"@, u.tags)
        + text_change("catalog"@, u.catalog) + int_change("organization_id"@, u.organization_id)
        + text_change("deployment_mode"@, u.deployment_mode) + text_change(
        "cluster_type"@,
        u.cluster_type,
    ) + text_change("admin_user"@, u.admin_user) + text_change(
        "admin_password_encrypted"@,
        u.admin_password,
    )
}

/// The statement of an update with changes: each changed column set from a
/// parameter, then `updated_at` stamped, for the cluster given last.
pub open spec fn update_sql_spec(changes: Seq<(Seq<char>, Seq<char>)>) -> Seq<char> {
    "UPDATE clusters SET "@ + join(
        changes.map_values(|c: (Seq<char>, Seq<char>)| c.0 + " = ?"@).push(
            "updated_at = CURRENT_TIMESTAMP"@,
        ),
        ", "@,
    ) + " WHERE id = ?"@
}

fn push_change(
    cols: &mut Vec<String>,
    params: &mut Vec<String>,
    col: &str,
    value: String,
)
    ensures
        texts(final(cols)@) == texts(old(cols)@).push(col@),
        texts(final(params)@) == texts(old(params)@).push(value@),
        final(cols)@.len() == old(cols)@.len() + 1,
        final(params)@.len() == old(params)@.len() + 1,
{
    let ghost c0 = texts(cols@);
    let ghost p0 = texts(params@);
    let c = String::from_str(col);
    let ghost cv = c@;
    let ghost vv = value@;
    cols.push(c);
    params.push(value);
    assert(texts(cols@) =~= c0.push(cv));
    assert(texts(params@) =~= p0.push(vv));
}

fn put_text(cols: &mut Vec<String>, params: &mut Vec<String>, col: &str, v: &Option<String>)
    requires
        old(cols)@.len() == old(params)@.len(),
    ensures
        zip_texts(texts(final(cols)@), texts(final(params)@)) == zip_texts(
            texts(old(cols)@),
            texts(old(params)@),
        ) + text_change(col@, *v),
        final(cols)@.len() == final(params)@.len(),
{
    match v {
        Some(x) => {
            let ghost z0 = zip_texts(texts(cols@), texts(params@));
            push_change(cols, params, col, string_of(chars_of(x.as_str()).as_slice()));
            proof {
                lemma_zip_push(texts(old(cols)@), texts(old(params)@), col@, x@);
            }
        },
        None => {
            assert(text_change(col@, *v) =~= Seq::<(Seq<char>, Seq<char>)>::empty());
            assert(zip_texts(texts(cols@), texts(params@)) + text_change(col@, *v) =~= zip_texts(
                texts(cols@),
                texts(params@),
            ));
        },
    }
}

fn put_int(cols: &mut Vec<String>, params: &mut Vec<String>, col: &str, v: Option<i64>)
    requires
        old(cols)@.len() == old(params)@.len(),
    ensures
        zip_texts(texts(final(cols)@), texts(final(params)@)) == zip_texts(
            texts(old(cols)@),
            texts(old(params)@),
        ) + int_change(col@, v),
        final(cols)@.len() == final(params)@.len(),
{
    match v {
        Some(x) => {
            push_change(cols, params, col, i64_string(x));
            proof {
                lemma_zip_push(texts(old(cols)@), texts(old(params)@), col@, int_dec(x as int));
            }
        },
        None => {
            assert(zip_texts(texts(cols@), texts(params@)) + int_change(col@, v) =~= zip_texts(
                texts(cols@),
                texts(params@),
            ));
        },
    }
}

/// Columns paired with their values (by position; the shorter list bounds).
pub open spec fn zip_texts(cols: Seq<Seq<char>>, vals: Seq<Seq<char>>) -> Seq<(Seq<char>, Seq<char>)> {
    Seq::new(
        if cols.len() < vals.len() {
            cols.len()
        } else {
            vals.len()
        },
        |i: int| (cols[i], vals[i]),
    )
}

proof fn lemma_zip_push(cols: Seq<Seq<char>>, vals: Seq<Seq<char>>, c: Seq<char>, v: Seq<char>)
    requires
        cols.len() == vals.len(),
    ensures
        zip_texts(cols.push(c), vals.push(v)) == zip_texts(cols, vals) + seq![(c, v)],
{
    assert(zip_texts(cols.push(c), vals.push(v)) =~= zip_texts(cols, vals) + seq![(c, v)]);
}

/// The statement and parameters of a cluster update, or `None` when nothing
/// changes (the stored cluster is then returned as it is). The parameters
/// are the changed values in column order; the cluster id is bound after
/// them.
pub fn cluster_update_statement(u: &ClusterUpdate) -> (r: Option<(String, Vec<String>)>)
    ensures
        update_changes(*u).len() == 0 <==> r is None,
        r matches Some(p) ==> {
            &&& p.0@ == update_sql_spec(update_changes(*u))
            &&& texts(p.1@) == update_changes(*u).map_values(|c: (Seq<char>, Seq<char>)| c.1)
        },
{
    let mut cols: Vec<String> = Vec::new();
    let mut params: Vec<String> = Vec::new();
    assert(zip_texts(texts(cols@), texts(params@)) =~= Seq::<(Seq<char>, Seq<char>)>::empty());
    put_text(&mut cols, &mut params, "name", &u.name);
    put_text(&mut cols, &mut params, "description", &u.description);
    put_text(&mut cols, &mut params, "fe_host", &u.fe_host);
    put_int(&mut cols, &mut params, "fe_http_port", u.fe_http_port);
    put_int(&mut cols, &mut params, "fe_query_port", u.fe_query_port);
    put_text(&mut cols, &mut params, "username", &u.username);
    put_text(&mut cols, &mut params, "password_encrypted", &u.password);
    match u.enable_ssl {
        Some(b) => {
            let ghost c0 = texts(cols@);
            let ghost p0 = texts(params@);
            let v = if b {
                String::from_str("1")
            } else {
                String::from_str("0")
            };
            let ghost vv = v@;
            push_change(&mut cols, &mut params, "enable_ssl", v);
            proof {
                lemma_zip_push(c0, p0, "enable_ssl"@, vv);
            }
        },
        None => {},
    }
    let ghost z_ssl = zip_texts(texts(cols@), texts(params@));
    put_int(&mut cols, &mut params, "connection_timeout", u.connection_timeout);
    put_text(&mut cols, &mut params, "tags", &u.tags);
    put_text(&mut cols, &mut params, "catalog", &u.catalog);
    put_int(&mut cols, &mut params, "organization_id", u.organization_id);
    put_text(&mut cols, &mut params, "deployment_mode", &u.deployment_mode);
    put_text(&mut cols, &mut params, "cluster_type", &u.cluster_type);
    put_text(&mut cols, &mut params, "admin_user", &u.admin_user);
    put_text(&mut cols, &mut params, "admin_password_encrypted", &u.admin_password);
    let ghost changes = update_changes(*u);
    proof {
        reveal_strlit("1");
        reveal_strlit("0");
        assert(zip_texts(texts(cols@), texts(params@)) =~= changes);
    }
    if cols.len() == 0 {
        assert(changes.len() == 0);
        return None;
    }
    let ghost cv = texts(cols@);
    let ghost pv = texts(params@);
    assert(cv.len() == pv.len());
    let mut parts: Vec<String> = Vec::new();
    let mut i: usize = 0;
    while i < cols.len()
        invariant
            i <= cols@.len(),
            cv == texts(cols@),
            texts(parts@) == cv.take(i as int).map_values(|c: Seq<char>| c + " = ?"@),
        decreases cols@.len() - i,
    {
        let mut p = string_of(chars_of(cols[i].as_str()).as_slice());
        p.append(" = ?");
        let ghost before = texts(parts@);
        parts.push(p);
        assert(texts(parts@) =~= before.push(p@));
        assert(cv.take(i + 1).map_values(|c: Seq<char>| c + " = ?"@) =~= cv.take(i as int).map_values(
            |c: Seq<char>| c + " = ?"@,
        ).push(cv[i as int] + " = ?"@));
        i += 1;
    }
    let stamp = String::from_str("updated_at = CURRENT_TIMESTAMP");
    let ghost before = texts(parts@);
    parts.push(stamp);
    assert(texts(parts@) =~= before.push("updated_at = CURRENT_TIMESTAMP"@));
    assert(cv.take(cols@.len() as int) =~= cv);
    assert(cv.map_values(|c: Seq<char>| c + " = ?"@) =~= changes.map_values(
        |c: (Seq<char>, Seq<char>)| c.0 + " = ?"@,
    ));
    assert(pv =~= changes.map_values(|c: (Seq<char>, Seq<char>)| c.1));
    let body = crate::text::join_strings(parts.as_slice(), ", ");
    let mut sql = String::from_str("UPDATE clusters SET ");
    sql.append(body.as_str());
    sql.append(" WHERE id = ?");
    Some((sql, params))
}

} // verus!
