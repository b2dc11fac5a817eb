//! The role-based access policies handed to the policy enforcer: how users,
//! roles and organization-scoped resources are named, and which policy a
//! stored permission grants.
//!
//! Users are named `u:<id>` and roles `r:<id>`, so a user id equal to a role
//! id can never be taken for that role. A permission code reads
//! `kind:resource[:action...]`; its resource is scoped to the role's
//! organization (`org:<id>:<resource>`) or to the system
//! (`system:<resource>`).

use vstd::prelude::*;
use vstd::string::*;
use crate::text::{chars_of, concat2, i64_string, int_dec, join, join_strings, split, split_exec, string_of, texts};

verus! {

/// The enforcer subject of a user.
pub open spec fn user_subject_spec(user_id: i64) -> Seq<char> {
    "u:"@ + int_dec(user_id as int)
}

/// The enforcer subject of a role.
pub open spec fn role_subject_spec(role_id: i64) -> Seq<char> {
    "r:"@ + int_dec(role_id as int)
}

/// The subject name of a user: `u:<id>`.
pub fn user_subject(user_id: i64) -> (r: String)
    ensures
        r@ == user_subject_spec(user_id),
{
    let d = i64_string(user_id);
    concat2("u:", d.as_str())
}

/// The subject name of a role: `r:<id>`.
pub fn role_subject(role_id: i64) -> (r: String)
    ensures
        r@ == role_subject_spec(role_id),
{
    let d = i64_string(role_id);
    concat2("r:", d.as_str())
}

/// A user is never named like a role, whatever the two ids.
pub proof fn law_user_and_role_subjects_distinct(user_id: i64, role_id: i64)
    ensures
        user_subject_spec(user_id) != role_subject_spec(role_id),
{
    reveal_strlit("u:");
    reveal_strlit("r:");
    assert(user_subject_spec(user_id)[0] == 'u');
    assert(role_subject_spec(role_id)[0] == 'r');
}

/// The resource key of a resource in an organization, or of the system.
pub open spec fn resource_key_spec(org_id: Option<i64>, resource: Seq<char>) -> Seq<char> {
    match org_id {
        Some(id) => "org:"@ + int_dec(id as int) + ":"@ + resource,
        None => "system:"@ + resource,
    }
}

/// Resource keys never collide across scopes: equal keys name the same
/// resource in the same organization (or both in the system scope).
pub proof fn law_resource_keys_scoped(a: Option<i64>, r: Seq<char>, b: Option<i64>, s: Seq<char>)
    ensures
        resource_key_spec(a, r) == resource_key_spec(b, s) ==> a == b && r == s,
{
    reveal_strlit("org:");
    reveal_strlit("system:");
    reveal_strlit(":");
    let ka = resource_key_spec(a, r);
    let kb = resource_key_spec(b, s);
    if ka == kb {
        match (a, b) {
            (Some(x), Some(y)) => {
                let dx = int_dec(x as int);
                let nx: int = dx.len() as int;
                let dy = int_dec(y as int);
                let ny: int = dy.len() as int;
                crate::text::lemma_nat_dec_digits(if x < 0 { (-x) as nat } else { x as nat });
                crate::text::lemma_nat_dec_digits(if y < 0 { (-y) as nat } else { y as nat });
                assert forall|i: int| 0 <= i < dx.len() implies #[trigger] dx[i] != ':' by {
                    if x < 0 && i > 0 {
                        assert(dx[i] == crate::text::nat_dec((-x) as nat)[i - 1]);
                    }
                }
                assert forall|i: int| 0 <= i < dy.len() implies #[trigger] dy[i] != ':' by {
                    if y < 0 && i > 0 {
                        assert(dy[i] == crate::text::nat_dec((-y) as nat)[i - 1]);
                    }
                }
                assert(ka[4 + nx] == ':');
                assert(kb[4 + ny] == ':');
                if dx.len() < dy.len() {
                    assert(kb[4 + nx] == dy[nx]);
                } else if dy.len() < dx.len() {
                    assert(ka[4 + ny] == dx[ny]);
                }
                assert(dx.len() == dy.len());
                assert(dx =~= ka.subrange(4, 4 + nx));
                assert(dy =~= kb.subrange(4, 4 + ny));
                crate::text::lemma_int_dec_injective(x as int, y as int);
                assert(r =~= ka.skip(5 + nx));
                assert(s =~= kb.skip(5 + ny));
            },
            (None, None) => {
                assert(r =~= ka.skip(7));
                assert(s =~= kb.skip(7));
            },
            (Some(_), None) => {
                assert(ka[0] == 'o');
                assert(kb[0] == 's');
            },
            (None, Some(_)) => {
                assert(ka[0] == 's');
                assert(kb[0] == 'o');
            },
        }
    }
}

/// Scopes a resource to an organization (`org:<id>:<resource>`) or to the
/// system (`system:<resource>`).
pub fn format_resource_key(org_id: Option<i64>, resource: &str) -> (r: String)
    ensures
        r@ == resource_key_spec(org_id, resource@),
{
    match org_id {
        Some(id) => {
            let d = i64_string(id);
            let mut r = concat2("org:", d.as_str());
            r.append(":");
            r.append(resource);
            r
        },
        None => concat2("system:", resource),
    }
}

/// The (subject, resource key, action) policy a stored permission grants a
/// role: the resource is the code's second part; the action is the stored
/// one, else the code's remaining parts, else `view`. Codes with fewer than
/// two parts grant nothing.
pub open spec fn permission_policy(
    role_id: i64,
    org_id: Option<i64>,
    code: Seq<char>,
    action: Seq<char>,
) -> Option<(Seq<char>, Seq<char>, Seq<char>)> {
    let parts = split(code, ':');
    if parts.len() >= 2 {
        let act = if action.len() > 0 {
            action
        } else if parts.len() >= 3 {
            join(parts.skip(2), ":"@)
        } else {
            "view"@
        };
        Some((role_subject_spec(role_id), resource_key_spec(org_id, parts[1]), act))
    } else {
        None
    }
}

/// The policy of a stored permission (see `permission_policy`).
pub fn policy_of_permission(role_id: i64, org_id: Option<i64>, code: &str, action: &str) -> (r:
    Option<(String, String, String)>)
    ensures
        match permission_policy(role_id, org_id, code@, action@) {
            Some(p) => r matches Some(q) && q.0@ == p.0 && q.1@ == p.1 && q.2@ == p.2,
            None => r is None,
        },
{
    let parts = split_exec(chars_of(code).as_slice(), ':');
    let ghost pv = split(code@, ':');
    assert(parts@.len() == pv.len());
    if parts.len() < 2 {
        return None;
    }
    let resource = string_of(parts[1].as_slice());
    let act = if !action.is_empty() {
        String::from_str(action)
    } else if parts.len() >= 3 {
        let mut rest: Vec<String> = Vec::new();
        let mut k: usize = 2;
        while k < parts.len()
            invariant
                2 <= k <= parts@.len(),
                parts@.len() == pv.len(),
                forall|i: int| 0 <= i < parts@.len() ==> #[trigger] parts@[i]@ == pv[i],
                texts(rest@) == pv.subrange(2, k as int),
            decreases parts@.len() - k,
        {
            let s = string_of(parts[k].as_slice());
            let ghost before = texts(rest@);
            rest.push(s);
            assert(texts(rest@) =~= before.push(s@));
            assert(pv.subrange(2, k + 1) =~= pv.subrange(2, k as int).push(pv[k as int]));
            k += 1;
        }
        assert(pv.subrange(2, parts@.len() as int) =~= pv.skip(2));
        join_strings(rest.as_slice(), ":")
    } else {
        proof {
            reveal_strlit("view");
        }
        String::from_str("view")
    };
    let subject = role_subject(role_id);
    let key = format_resource_key(org_id, resource.as_str());
    Some((subject, key, act))
}

/// The (user subject, role subject) pair of a role assignment.
pub fn role_assignment(user_id: i64, role_id: i64) -> (r: (String, String))
    ensures
        r.0@ == user_subject_spec(user_id),
        r.1@ == role_subject_spec(role_id),
{
    (user_subject(user_id), role_subject(role_id))
}

} // verus!
