//! Two-phase write actions (`kill_query`, `update_variable`): parameter
//! validation against SQL injection, and the lifecycle rules of a stored
//! action (confirm once, before expiry; cancel only while pending).

use vstd::prelude::*;
use vstd::string::*;
use crate::text::{
    all_ascii, append_chars, ascii_lower, ascii_upper, chars_of, has_char, is_alnum_ascii,
    is_hex_ascii, seq_eq, string_of, to_ascii_lower, to_ascii_upper, to_uppercase, trim, trim_exec,
    text_lt, str_lt, unicode_upper,
};

verus! {

/// The string-valued parameters an action may carry (absent or non-string
/// JSON values are `None`).
#[derive(Debug, Clone)]
pub struct ActionParams {
    pub query_id: Option<String>,
    pub key: Option<String>,
    pub value: Option<String>,
    pub scope: Option<String>,
}

/// The text of an optional parameter, or `default`.
pub open spec fn param_or(o: Option<String>, default: Seq<char>) -> Seq<char> {
    match o {
        Some(s) => s@,
        None => default,
    }
}

/// A query id has UUID shape: 1 to 64 hexadecimal digits and dashes, with a
/// dash or exactly 32 digits.
pub open spec fn query_id_ok(q: Seq<char>) -> bool {
    &&& 0 < q.len() <= 64
    &&& forall|i: int| 0 <= i < q.len() ==> is_hex_ascii(q[i]) || q[i] == '-'
    &&& (q.contains('-') || q.len() == 32)
}

/// A variable name: 1 to 64 ASCII letters, digits, `_` or `.`.
pub open spec fn var_key_ok(k: Seq<char>) -> bool {
    &&& 0 < k.len() <= 64
    &&& forall|i: int| 0 <= i < k.len() ==> is_alnum_ascii(k[i]) || k[i] == '_' || k[i] == '.'
}

/// A variable value: 1 to 64 ASCII letters, digits, `_`, `-`, `.` or spaces.
pub open spec fn var_value_ok(v: Seq<char>) -> bool {
    &&& 0 < v.len() <= 64
    &&& forall|i: int|
        0 <= i < v.len() ==> is_alnum_ascii(v[i]) || v[i] == '_' || v[i] == '-' || v[i] == '.'
            || v[i] == ' '
}

/// Message for an invalid query id.
pub open spec fn bad_query_id_text() -> Seq<char> {
    "query_id 必须是 UUID 形态（十六进制与 -，≤64 字符）"@
}

/// Message for an invalid variable name or value.
pub open spec fn bad_variable_text() -> Seq<char> {
    "变量名（字母/数字/_/.，≤64）与值（字母数字与 _-. 空格，≤64）不合法"@
}

/// Message for an invalid scope.
pub open spec fn bad_scope_text() -> Seq<char> {
    "scope 只能是 global 或 session"@
}

/// Validation of an action's parameters: the title of the action (the
/// statement it will run) or the reason it is refused. The scope is compared
/// case-insensitively (for `global` and `session`, Unicode and ASCII
/// lower-casing agree).
pub open spec fn validate_spec(kind: Seq<char>, p: ActionParams) -> Result<Seq<char>, Seq<char>> {
    if kind == "kill_query"@ {
        let q = trim(param_or(p.query_id, Seq::empty()));
        if query_id_ok(q) {
            Ok("KILL QUERY "@ + q)
        } else {
            Err(bad_query_id_text())
        }
    } else if kind == "update_variable"@ {
        let k = trim(param_or(p.key, Seq::empty()));
        let v = trim(param_or(p.value, Seq::empty()));
        let scope = ascii_lower(param_or(p.scope, "global"@));
        if !(var_key_ok(k) && var_value_ok(v)) {
            Err(bad_variable_text())
        } else if scope != "global"@ && scope != "session"@ {
            Err(bad_scope_text())
        } else {
            Ok("SET "@ + ascii_upper(scope) + " "@ + k + " = "@ + v)
        }
    } else {
        Err("未知动作类型: "@ + kind + "（白名单: kill_query, update_variable）"@)
    }
}

fn param_text(o: &Option<String>, default: &str) -> (r: Vec<char>)
    ensures
        r@ == param_or(*o, default@),
{
    match o {
        Some(s) => chars_of(s.as_str()),
        None => chars_of(default),
    }
}

fn all_match_query_id(q: &[char]) -> (r: bool)
    ensures
        r == forall|i: int| 0 <= i < q@.len() ==> is_hex_ascii(q@[i]) || q@[i] == '-',
{
    let mut i: usize = 0;
    while i < q.len()
        invariant
            i <= q.len(),
            forall|j: int| 0 <= j < i ==> is_hex_ascii(q@[j]) || q@[j] == '-',
        decreases q.len() - i,
    {
        let c = q[i];
        let u: u32 = c as u32;
        let ok = (48 <= u && u <= 57) || (65 <= u && u <= 70) || (97 <= u && u <= 102) || c == '-';
        if !ok {
            return false;
        }
        i += 1;
    }
    true
}

fn is_alnum_exec(c: char) -> (r: bool)
    ensures
        r == is_alnum_ascii(c),
{
    let u: u32 = c as u32;
    (48 <= u && u <= 57) || (65 <= u && u <= 90) || (97 <= u && u <= 122)
}

fn all_match_key(k: &[char]) -> (r: bool)
    ensures
        r == forall|i: int|
            0 <= i < k@.len() ==> is_alnum_ascii(k@[i]) || k@[i] == '_' || k@[i] == '.',
{
    let mut i: usize = 0;
    while i < k.len()
        invariant
            i <= k.len(),
            forall|j: int| 0 <= j < i ==> is_alnum_ascii(k@[j]) || k@[j] == '_' || k@[j] == '.',
        decreases k.len() - i,
    {
        let c = k[i];
        if !(is_alnum_exec(c) || c == '_' || c == '.') {
            return false;
        }
        i += 1;
    }
    true
}

fn all_match_value(v: &[char]) -> (r: bool)
    ensures
        r == forall|i: int|
            0 <= i < v@.len() ==> is_alnum_ascii(v@[i]) || v@[i] == '_' || v@[i] == '-' || v@[i]
                == '.' || v@[i] == ' ',
{
    let mut i: usize = 0;
    while i < v.len()
        invariant
            i <= v.len(),
            forall|j: int|
                0 <= j < i ==> is_alnum_ascii(v@[j]) || v@[j] == '_' || v@[j] == '-' || v@[j]
                    == '.' || v@[j] == ' ',
        decreases v.len() - i,
    {
        let c = v[i];
        if !(is_alnum_exec(c) || c == '_' || c == '-' || c == '.' || c == ' ') {
            return false;
        }
        i += 1;
    }
    true
}

/// Checks the parameters of a write action against its whitelist; on
/// success returns the action title (the statement it runs).
pub fn validate_params(kind: &str, params: &ActionParams) -> (r: Result<String, String>)
    ensures
        match r {
            Ok(t) => validate_spec(kind@, *params) == Ok::<Seq<char>, Seq<char>>(t@),
            Err(e) => validate_spec(kind@, *params) == Err::<Seq<char>, Seq<char>>(e@),
        },
{
    let k = chars_of(kind);
    let kill = chars_of("kill_query");
    let update = chars_of("update_variable");
    if seq_eq(k.as_slice(), kill.as_slice()) {
        let raw = param_text(&params.query_id, "");
        proof {
            assert(""@ =~= Seq::<char>::empty()) by {
                reveal_strlit("");
            }
        }
        let q = trim_exec(raw.as_slice());
        let ok = q.len() > 0 && q.len() <= 64 && all_match_query_id(q.as_slice()) && (has_char(
            q.as_slice(),
            '-',
        ) || q.len() == 32);
        if !ok {
            return Err(String::from_str("query_id 必须是 UUID 形态（十六进制与 -，≤64 字符）"));
        }
        let mut t = String::from_str("KILL QUERY ");
        append_chars(&mut t, q.as_slice());
        Ok(t)
    } else if seq_eq(k.as_slice(), update.as_slice()) {
        let rk = param_text(&params.key, "");
        let rv = param_text(&params.value, "");
        let rs = param_text(&params.scope, "global");
        proof {
            assert(""@ =~= Seq::<char>::empty()) by {
                reveal_strlit("");
            }
        }
        let key = trim_exec(rk.as_slice());
        let value = trim_exec(rv.as_slice());
        let scope = to_ascii_lower(rs.as_slice());
        let valid_key = key.len() > 0 && key.len() <= 64 && all_match_key(key.as_slice());
        let valid_value = value.len() > 0 && value.len() <= 64 && all_match_value(
            value.as_slice(),
        );
        if !valid_key || !valid_value {
            return Err(
                String::from_str("变量名（字母/数字/_/.，≤64）与值（字母数字与 _-. 空格，≤64）不合法"),
            );
        }
        let global = chars_of("global");
        let session = chars_of("session");
        if !seq_eq(scope.as_slice(), global.as_slice()) && !seq_eq(
            scope.as_slice(),
            session.as_slice(),
        ) {
            return Err(String::from_str("scope 只能是 global 或 session"));
        }
        let upper = to_ascii_upper(scope.as_slice());
        let mut t = String::from_str("SET ");
        append_chars(&mut t, upper.as_slice());
        t.append(" ");
        append_chars(&mut t, key.as_slice());
        t.append(" = ");
        append_chars(&mut t, value.as_slice());
        Ok(t)
    } else {
        let mut e = String::from_str("未知动作类型: ");
        e.append(kind);
        e.append("（白名单: kill_query, update_variable）");
        Err(e)
    }
}

/// The statement that executes a confirmed action: the query id (trimmed)
/// quoted, or the variable assignment in the scope given (upper-cased,
/// `GLOBAL` by default); an unknown kind is refused.
pub open spec fn action_statement_spec(kind: Seq<char>, p: ActionParams) -> Result<Seq<char>, Seq<char>> {
    if kind == "kill_query"@ {
        Ok("KILL QUERY '"@ + trim(param_or(p.query_id, Seq::empty())) + "'"@)
    } else if kind == "update_variable"@ {
        Ok(
            "SET "@ + unicode_upper(param_or(p.scope, "global"@)) + " "@ + trim(
                param_or(p.key, Seq::empty()),
            ) + " = "@ + trim(param_or(p.value, Seq::empty())),
        )
    } else {
        Err("未知动作类型: "@ + kind)
    }
}

/// The statement that executes a confirmed action (see
/// `action_statement_spec`).
pub fn action_statement(kind: &str, params: &ActionParams) -> (r: Result<String, String>)
    ensures
        match r {
            Ok(t) => action_statement_spec(kind@, *params) == Ok::<Seq<char>, Seq<char>>(t@),
            Err(e) => action_statement_spec(kind@, *params) == Err::<Seq<char>, Seq<char>>(e@),
        },
{
    proof {
        assert(""@ =~= Seq::<char>::empty()) by {
            reveal_strlit("");
        }
    }
    if str_eq_lit(kind, "kill_query") {
        let raw = param_text(&params.query_id, "");
        let q = trim_exec(raw.as_slice());
        let mut t = String::from_str("KILL QUERY '");
        append_chars(&mut t, q.as_slice());
        t.append("'");
        Ok(t)
    } else if str_eq_lit(kind, "update_variable") {
        let rk = param_text(&params.key, "");
        let rv = param_text(&params.value, "");
        let scope = match &params.scope {
            Some(s) => to_uppercase(s.as_str()),
            None => to_uppercase("global"),
        };
        let key = trim_exec(rk.as_slice());
        let value = trim_exec(rv.as_slice());
        let mut t = String::from_str("SET ");
        t.append(scope.as_str());
        t.append(" ");
        append_chars(&mut t, key.as_slice());
        t.append(" = ");
        append_chars(&mut t, value.as_slice());
        Ok(t)
    } else {
        let mut e = String::from_str("未知动作类型: ");
        e.append(kind);
        Err(e)
    }
}

fn str_eq_lit(a: &str, b: &str) -> (r: bool)
    ensures
        r == (a@ == b@),
{
    let x = chars_of(a);
    let y = chars_of(b);
    seq_eq(x.as_slice(), y.as_slice())
}

/// The recorded result of a statement that ran.
pub fn executed_text(sql: &str) -> (r: String)
    ensures
        r@ == "执行成功: "@ + sql@,
{
    let mut r = String::from_str("执行成功: ");
    r.append(sql);
    r
}

/// The recorded result of a statement the cluster refused.
pub fn execution_failed_text(sql: &str, error: &str) -> (r: String)
    ensures
        r@ == "执行失败: "@ + sql@ + "（"@ + error@ + "）"@,
{
    let mut r = String::from_str("执行失败: ");
    r.append(sql);
    r.append("（");
    r.append(error);
    r.append("）");
    r
}

/// The recorded result when no connection to the cluster could be had.
pub fn connection_failed_text(error: &str) -> (r: String)
    ensures
        r@ == "获取集群连接失败: "@ + error@,
{
    let mut r = String::from_str("获取集群连接失败: ");
    r.append(error);
    r
}

/// An accepted action title never carries a quote, semicolon or comment
/// marker: the parameters it embeds are whitelisted characters only.
pub proof fn law_accepted_params_whitelisted(kind: Seq<char>, p: ActionParams)
    ensures
        kind == "kill_query"@ && validate_spec(kind, p) is Ok ==> query_id_ok(
            trim(param_or(p.query_id, Seq::empty())),
        ),
        kind == "update_variable"@ && validate_spec(kind, p) is Ok ==> var_key_ok(
            trim(param_or(p.key, Seq::empty())),
        ) && var_value_ok(trim(param_or(p.value, Seq::empty()))),
        kind != "kill_query"@ && kind != "update_variable"@ ==> validate_spec(kind, p) is Err,
{
    reveal_strlit("kill_query");
    reveal_strlit("update_variable");
    assert("kill_query"@.len() != "update_variable"@.len());
}

// ---------------------------------------------------------------------------
// Lifecycle of a stored action
// ---------------------------------------------------------------------------

/// Status of a stored action.
#[derive(Debug, Clone, Copy, PartialEq, Eq, Structural)]
pub enum ActionStatus {
    Pending,
    Executing,
    Executed,
    Failed,
    Cancelled,
    Expired,
}

/// The stored name of an action status.
pub open spec fn action_status_name(s: ActionStatus) -> Seq<char> {
    match s {
        ActionStatus::Pending => "pending"@,
        ActionStatus::Executing => "executing"@,
        ActionStatus::Executed => "executed"@,
        ActionStatus::Failed => "failed"@,
        ActionStatus::Cancelled => "cancelled"@,
        ActionStatus::Expired => "expired"@,
    }
}

impl ActionStatus {
    pub fn as_str(&self) -> (r: &'static str)
        ensures
            r@ == action_status_name(*self),
    {
        match self {
            ActionStatus::Pending => "pending",
            ActionStatus::Executing => "executing",
            ActionStatus::Executed => "executed",
            ActionStatus::Failed => "failed",
            ActionStatus::Cancelled => "cancelled",
            ActionStatus::Expired => "expired",
        }
    }
}


/// Refusal of a confirmation, if any: only a pending, unexpired action can
/// be confirmed (once).
pub open spec fn confirm_refusal(status: Seq<char>, expires_at: Seq<char>, now: Seq<char>) -> Option<
    Seq<char>,
> {
    if status != "pending"@ {
        Some("动作已处于 "@ + status + " 状态，不可重复确认（单次执行）"@)
    } else if text_lt(expires_at, now) {
        Some("动作已过期，不可执行"@)
    } else {
        None
    }
}

/// Checks that a stored action may be confirmed now.
pub fn check_confirm(status: &str, expires_at: &str, now: &str) -> (r: Result<(), String>)
    ensures
        match r {
            Ok(_) => confirm_refusal(status@, expires_at@, now@) is None,
            Err(e) => confirm_refusal(status@, expires_at@, now@) == Some(e@),
        },
{
    let s = chars_of(status);
    let pending = chars_of("pending");
    if !seq_eq(s.as_slice(), pending.as_slice()) {
        let mut e = String::from_str("动作已处于 ");
        e.append(status);
        e.append(" 状态，不可重复确认（单次执行）");
        return Err(e);
    }
    if str_lt(expires_at, now) {
        return Err(String::from_str("动作已过期，不可执行"));
    }
    Ok(())
}

/// Refusal of a cancellation, if any: only a pending action can be
/// cancelled.
pub open spec fn cancel_refusal(status: Seq<char>) -> Option<Seq<char>> {
    if status != "pending"@ {
        Some("动作已处于 "@ + status + " 状态，不可取消"@)
    } else {
        None
    }
}

/// Checks that a stored action may be cancelled.
pub fn check_cancel(status: &str) -> (r: Result<(), String>)
    ensures
        match r {
            Ok(_) => cancel_refusal(status@) is None,
            Err(e) => cancel_refusal(status@) == Some(e@),
        },
{
    let s = chars_of(status);
    let pending = chars_of("pending");
    if !seq_eq(s.as_slice(), pending.as_slice()) {
        let mut e = String::from_str("动作已处于 ");
        e.append(status);
        e.append(" 状态，不可取消");
        return Err(e);
    }
    Ok(())
}

/// A pending action past its expiry time is marked expired (lazily, when it
/// is listed or loaded).
pub fn should_expire(status: &str, expires_at: &str, now: &str) -> (r: bool)
    ensures
        r == (status@ == "pending"@ && text_lt(expires_at@, now@)),
{
    let s = chars_of(status);
    let pending = chars_of("pending");
    seq_eq(s.as_slice(), pending.as_slice()) && str_lt(expires_at, now)
}

/// The status recorded after execution: `executed` on success, `failed`
/// otherwise, with the result text.
pub fn execution_status(result: &Result<String, String>) -> (r: (ActionStatus, String))
    ensures
        match result {
            Ok(t) => r.0 == ActionStatus::Executed && r.1@ == t@,
            Err(e) => r.0 == ActionStatus::Failed && r.1@ == e@,
        },
{
    match result {
        Ok(t) => (ActionStatus::Executed, t.clone()),
        Err(e) => (ActionStatus::Failed, e.clone()),
    }
}

/// The atomic claim `pending -> executing` succeeded only if it changed a row.
pub fn check_claim(rows_affected: u64) -> (r: Result<(), String>)
    ensures
        r is Ok <==> rows_affected > 0,
        r matches Err(e) ==> e@ == "动作已被其他会话处理"@,
{
    if rows_affected == 0 {
        Err(String::from_str("动作已被其他会话处理"))
    } else {
        Ok(())
    }
}

proof fn lemma_status_names_distinct()
    ensures
        forall|a: ActionStatus, b: ActionStatus|
            a != b ==> action_status_name(a) != action_status_name(b),
{
    reveal_strlit("pending");
    reveal_strlit("executing");
    reveal_strlit("executed");
    reveal_strlit("failed");
    reveal_strlit("cancelled");
    reveal_strlit("expired");
    assert("pending"@.len() == 7);
    assert("executing"@.len() == 9);
    assert("executed"@.len() == 8);
    assert("failed"@.len() == 6);
    assert("cancelled"@.len() == 9);
    assert("expired"@.len() == 7);
    assert("pending"@[0] != "expired"@[0]);
    assert("executing"@[0] != "cancelled"@[0]);
}

/// Confirmation is single-shot: once an action has been confirmed (and so
/// moved on from `pending`), every later confirmation is refused, whatever
/// the time. Likewise no action can be cancelled after leaving `pending`.
pub proof fn law_confirm_single_shot(next: ActionStatus, expires_at: Seq<char>, now: Seq<char>)
    requires
        next != ActionStatus::Pending,
    ensures
        confirm_refusal(action_status_name(next), expires_at, now) is Some,
        cancel_refusal(action_status_name(next)) is Some,
{
    lemma_status_names_distinct();
    assert(action_status_name(next) != action_status_name(ActionStatus::Pending));
}

/// One confirmation of a stored action in status `status`: refused (the
/// action stays as it is and nothing runs) unless it is pending and
/// unexpired; otherwise it is claimed, runs once, and is recorded as
/// executed or failed by its outcome.
pub open spec fn confirm_step(status: ActionStatus, expires_at: Seq<char>, now: Seq<char>, succeeded: bool) -> (
    ActionStatus,
    bool,
) {
    if confirm_refusal(action_status_name(status), expires_at, now) is Some {
        (status, false)
    } else if succeeded {
        (ActionStatus::Executed, true)
    } else {
        (ActionStatus::Failed, true)
    }
}

/// How many times the action runs over successive confirmations, each given
/// its time and outcome.
pub open spec fn runs(status: ActionStatus, expires_at: Seq<char>, calls: Seq<(Seq<char>, bool)>) -> nat
    decreases calls.len(),
{
    if calls.len() == 0 {
        0
    } else {
        let s = confirm_step(status, expires_at, calls[0].0, calls[0].1);
        (if s.1 {
            1nat
        } else {
            0nat
        }) + runs(s.0, expires_at, calls.drop_first())
    }
}

proof fn lemma_no_runs_after_leaving_pending(status: ActionStatus, expires_at: Seq<char>, calls: Seq<(Seq<char>, bool)>)
    requires
        status != ActionStatus::Pending,
    ensures
        runs(status, expires_at, calls) == 0,
    decreases calls.len(),
{
    if calls.len() > 0 {
        law_confirm_single_shot(status, expires_at, calls[0].0);
        lemma_no_runs_after_leaving_pending(status, expires_at, calls.drop_first());
    }
}

/// However often an action is confirmed, it runs at most once; and a
/// confirmation after its expiry never runs it.
pub proof fn law_action_runs_at_most_once(status: ActionStatus, expires_at: Seq<char>, calls: Seq<(Seq<char>, bool)>)
    ensures
        runs(status, expires_at, calls) <= 1,
        forall|now: Seq<char>, ok: bool|
            text_lt(expires_at, now) ==> !(#[trigger] confirm_step(status, expires_at, now, ok)).1,
    decreases calls.len(),
{
    if calls.len() > 0 {
        let s = confirm_step(status, expires_at, calls[0].0, calls[0].1);
        if s.1 {
            lemma_no_runs_after_leaving_pending(s.0, expires_at, calls.drop_first());
        } else {
            law_action_runs_at_most_once(s.0, expires_at, calls.drop_first());
        }
    }
}

/// An expired action can never be confirmed.
pub proof fn law_expired_never_confirmed(status: Seq<char>, expires_at: Seq<char>, now: Seq<char>)
    requires
        text_lt(expires_at, now),
    ensures
        confirm_refusal(status, expires_at, now) is Some,
{
}

} // verus!
