//! The audit record of a frontend-profile access.

use vstd::prelude::*;

verus! {

/// Who read or downloaded which frontend profile, and how it went.
#[derive(Debug, Clone, Copy)]
pub struct FrontendProfileAccess<'a> {
    pub user_id: i64,
    pub username: &'a str,
    pub organization_id: Option<i64>,
    pub cluster_id: i64,
    pub cluster_name: &'a str,
    pub frontend_name: &'a str,
    pub frontend_host: &'a str,
    pub http_port: i32,
    pub action: &'a str,
    pub profile_filename: Option<&'a str>,
    pub outcome: &'a str,
}

/// The statement that stores one access record (its parameters in field
/// order).
pub fn profile_access_insert_sql() -> (r: &'static str)
    ensures
        r@ == "INSERT INTO frontend_profile_access_logs (user_id, username, organization_id, cluster_id, cluster_name, frontend_name, frontend_host, http_port, action, profile_filename, outcome) VALUES (?, ?, ?, ?, ?, ?, ?, ?, ?, ?, ?)"@,
{
    "INSERT INTO frontend_profile_access_logs (user_id, username, organization_id, cluster_id, cluster_name, frontend_name, frontend_host, http_port, action, profile_filename, outcome) VALUES (?, ?, ?, ?, ?, ?, ?, ?, ?, ?, ?)"
}

} // verus!
