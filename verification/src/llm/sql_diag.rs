//! The SQL diagnosis scenario: the parts of its request keys and of its
//! answer that are decided here.

use vstd::prelude::*;
use vstd::string::*;
use crate::text::{chars_of, concat2, is_ws, is_ws_exec, parse_u64, parsed_u64, push_char};

verus! {

/// A performance issue the model reports.
#[derive(Debug, Clone)]
pub struct PerfIssue {
    /// The issue's kind (`type` in the answer).
    pub issue_type: String,
    pub severity: String,
    pub desc: String,
    pub fix: Option<String>,
}

/// The model's reading of the explain output.
#[derive(Debug, Clone)]
pub struct ExplainAnalysis {
    pub scan_type: Option<String>,
    pub join_strategy: Option<String>,
    pub estimated_rows: Option<u64>,
    pub estimated_cost: Option<String>,
}

/// The raw `estimated_rows` value of an answer, as decoded JSON.
#[derive(Debug, Clone)]
pub enum EstimatedRowsValue {
    Unsigned(u64),
    Signed(i64),
    Text(String),
    Null,
}

/// The row estimate a raw value stands for: a non-negative number, or a
/// text that parses as one; anything else (such as `unknown`) is none.
pub open spec fn estimated_rows_spec(v: EstimatedRowsValue) -> Option<u64> {
    match v {
        EstimatedRowsValue::Unsigned(n) => Some(n),
        EstimatedRowsValue::Signed(n) => if n >= 0 {
            Some(n as u64)
        } else {
            None
        },
        EstimatedRowsValue::Text(t) => parsed_u64(t@),
        EstimatedRowsValue::Null => None,
    }
}

/// Reads the `estimated_rows` of an answer (see `estimated_rows_spec`).
pub fn estimated_rows_of(v: &EstimatedRowsValue) -> (r: Option<u64>)
    ensures
        r == estimated_rows_spec(*v),
{
    match v {
        EstimatedRowsValue::Unsigned(n) => Some(*n),
        EstimatedRowsValue::Signed(n) => if *n >= 0 {
            Some(*n as u64)
        } else {
            None
        },
        EstimatedRowsValue::Text(t) => parse_u64(t.as_str()),
        EstimatedRowsValue::Null => None,
    }
}

/// The words of `s` joined by single spaces, with whether a space is owed
/// before the next word.
pub open spec fn squeeze_state(s: Seq<char>) -> (Seq<char>, bool)
    decreases s.len(),
{
    if s.len() == 0 {
        (Seq::empty(), false)
    } else {
        let prev = squeeze_state(s.drop_last());
        let c = s.last();
        if is_ws(c) {
            (prev.0, prev.0.len() > 0)
        } else if prev.1 {
            (prev.0.push(' ').push(c), false)
        } else {
            (prev.0.push(c), false)
        }
    }
}

/// The SQL text as the diagnosis keys see it: its words (white-space
/// separated) joined by single spaces.
pub open spec fn squeezed(s: Seq<char>) -> Seq<char> {
    squeeze_state(s).0
}

/// A text in collapsed form: its only white space is single spaces, each
/// between two other characters.
pub open spec fn collapsed(t: Seq<char>) -> bool {
    forall|i: int|
        0 <= i < t.len() && #[trigger] is_ws(t[i]) ==> t[i] == ' ' && 0 < i < t.len() - 1 && !is_ws(
            t[i - 1],
        ) && !is_ws(t[i + 1])
}

proof fn lemma_squeeze_collapsed(s: Seq<char>)
    ensures
        collapsed(squeeze_state(s).0),
        squeeze_state(s).1 ==> squeeze_state(s).0.len() > 0,
    decreases s.len(),
{
    if s.len() > 0 {
        lemma_squeeze_collapsed(s.drop_last());
        let o = squeeze_state(s.drop_last()).0;
        let c = s.last();
        assert(is_ws(' ')) by {
            assert((' ' as u32) == 32);
        }
        if o.len() > 0 {
            assert(!is_ws(o[o.len() - 1]));
        }
        if !is_ws(c) {
            let t = squeeze_state(s).0;
            assert forall|i: int| 0 <= i < t.len() && #[trigger] is_ws(t[i]) implies t[i] == ' ' && 0 < i
                < t.len() - 1 && !is_ws(t[i - 1]) && !is_ws(t[i + 1]) by {
                if i < o.len() {
                    assert(t[i] == o[i]);
                    assert(t[i - 1] == o[i - 1]);
                }
            }
        }
    }
}

proof fn lemma_collapsed_prefix(t: Seq<char>, k: int)
    requires
        collapsed(t),
        0 <= k <= t.len(),
    ensures
        squeeze_state(t.take(k)) == (if k > 0 && t[k - 1] == ' ' {
            (t.take(k - 1), true)
        } else {
            (t.take(k), false)
        }),
    decreases k,
{
    assert(is_ws(' ')) by {
        assert((' ' as u32) == 32);
    }
    if k > 0 {
        lemma_collapsed_prefix(t, k - 1);
        let c = t[k - 1];
        assert(t.take(k).drop_last() =~= t.take(k - 1));
        assert(t.take(k).last() == c);
        if is_ws(c) {
            assert(k - 1 > 0 && !is_ws(t[k - 2]));
        } else if k > 1 && t[k - 2] == ' ' {
            assert(t.take(k - 2).push(' ').push(c) =~= t.take(k));
        } else {
            assert(t.take(k - 1).push(c) =~= t.take(k));
        }
    }
}

/// Collapsing white space twice is collapsing it once: a statement and its
/// collapsed text give the same diagnosis key.
pub proof fn law_squeeze_idempotent(s: Seq<char>)
    ensures
        squeezed(squeezed(s)) == squeezed(s),
{
    let t = squeezed(s);
    lemma_squeeze_collapsed(s);
    lemma_collapsed_prefix(t, t.len() as int);
    assert(t.take(t.len() as int) =~= t);
    if t.len() > 0 {
        assert(!is_ws(t[t.len() - 1]));
        assert(is_ws(' ')) by {
            assert((' ' as u32) == 32);
        }
    }
}

/// Collapses the white space of a statement (see `squeezed`).
pub fn normalize_sql_whitespace(sql: &str) -> (r: String)
    ensures
        r@ == squeezed(sql@),
{
    let v = chars_of(sql);
    let mut out = String::new();
    let mut pending = false;
    let mut i: usize = 0;
    while i < v.len()
        invariant
            i <= v@.len(),
            v@ == sql@,
            (out@, pending) == squeeze_state(v@.take(i as int)),
        decreases v@.len() - i,
    {
        let c = v[i];
        proof {
            assert(v@.take(i + 1).drop_last() =~= v@.take(i as int));
            assert(v@.take(i + 1).last() == c);
        }
        if is_ws_exec(c) {
            pending = !out.as_str().is_empty();
        } else {
            if pending {
                push_char(&mut out, ' ');
            }
            push_char(&mut out, c);
            pending = false;
        }
        i += 1;
    }
    assert(v@.take(v@.len() as int) =~= v@);
    out
}

/// The cache key of a diagnosis: `sqldiag:` and the SQL digest.
pub fn sql_diag_cache_key(sql_hash: &str) -> (r: String)
    ensures
        r@ == "sqldiag:"@ + sql_hash@,
{
    concat2("sqldiag:", sql_hash)
}

/// The profile digest of a diagnosis without an explain output.
pub fn no_explain_hash() -> (r: &'static str)
    ensures
        r@ == "none"@,
{
    "none"
}

} // verus!
