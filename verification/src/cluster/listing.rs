//! Reading the listing statements both engines answer with plain rows:
//! `SHOW PROCESSLIST` (sessions), the profile list and `SHOW DATABASES`.
//! The two engines lay the columns out differently; a layout names the
//! positions read.

use vstd::prelude::*;
use vstd::string::*;
use crate::text::{
    ascii_lower, chars_of, eq_ignore_ascii_case, string_of, texts, trim, trim_exec,
};

verus! {

/// A client session of the cluster.
#[derive(Debug, Clone)]
pub struct Session {
    pub id: String,
    pub user: String,
    pub host: String,
    pub db: Option<String>,
    pub command: String,
    pub time: String,
    pub state: String,
    pub info: Option<String>,
}

/// One entry of the query profile list.
#[derive(Debug, Clone)]
pub struct ProfileListItem {
    pub query_id: String,
    pub start_time: String,
    pub time: String,
    pub state: String,
    pub statement: String,
}

/// Column positions of a process-list row, and the fewest columns a row
/// must have to be read.
#[derive(Debug, Clone, Copy)]
pub struct SessionLayout {
    pub min_len: usize,
    pub id: usize,
    pub user: usize,
    pub host: usize,
    pub db: usize,
    pub command: usize,
    pub time: usize,
    pub state: usize,
    pub info: usize,
}

/// Column positions of a profile-list row.
#[derive(Debug, Clone, Copy)]
pub struct ProfileLayout {
    pub query_id: usize,
    pub start_time: usize,
    pub time: usize,
    pub state: usize,
    pub statement: usize,
}

/// The process list of StarRocks: at least 7 columns, read in order.
pub fn starrocks_session_layout() -> (r: SessionLayout)
    ensures
        r == (SessionLayout {
            min_len: 7,
            id: 0,
            user: 1,
            host: 2,
            db: 3,
            command: 4,
            time: 5,
            state: 6,
            info: 7,
        }),
{
    SessionLayout { min_len: 7, id: 0, user: 1, host: 2, db: 3, command: 4, time: 5, state: 6, info: 7 }
}

/// The process list of Doris: at least 12 columns, the session's fields
/// at positions 1, 2, 3, 6, 7, 8, 9 and 11.
pub fn doris_session_layout() -> (r: SessionLayout)
    ensures
        r == (SessionLayout {
            min_len: 12,
            id: 1,
            user: 2,
            host: 3,
            db: 6,
            command: 7,
            time: 8,
            state: 9,
            info: 11,
        }),
{
    SessionLayout {
        min_len: 12,
        id: 1,
        user: 2,
        host: 3,
        db: 6,
        command: 7,
        time: 8,
        state: 9,
        info: 11,
    }
}

/// The profile list of StarRocks (`SHOW PROFILELIST`): columns in order.
pub fn starrocks_profile_layout() -> (r: ProfileLayout)
    ensures
        r == (ProfileLayout { query_id: 0, start_time: 1, time: 2, state: 3, statement: 4 }),
{
    ProfileLayout { query_id: 0, start_time: 1, time: 2, state: 3, statement: 4 }
}

/// The profile list of Doris (`SHOW QUERY PROFILE`): profile id, start time,
/// total, task state and statement at positions 0, 2, 4, 5 and 9.
pub fn doris_profile_layout() -> (r: ProfileLayout)
    ensures
        r == (ProfileLayout { query_id: 0, start_time: 2, time: 4, state: 5, statement: 9 }),
{
    ProfileLayout { query_id: 0, start_time: 2, time: 4, state: 5, statement: 9 }
}

/// The cell at a position, if the row has it.
pub open spec fn cell(row: Seq<Seq<char>>, i: int) -> Option<Seq<char>> {
    if 0 <= i < row.len() {
        Some(row[i])
    } else {
        None
    }
}

/// A cell's text, or `default` when the row is too short.
pub open spec fn cell_or_default(row: Seq<Seq<char>>, i: int, default: Seq<char>) -> Seq<char> {
    match cell(row, i) {
        Some(c) => c,
        None => default,
    }
}

/// The text of an optional string.
pub open spec fn opt_text(o: Option<String>) -> Option<Seq<char>> {
    match o {
        Some(s) => Some(s@),
        None => None,
    }
}

/// `s` is the session read from `row` by layout `l`.
pub open spec fn session_matches(s: Session, l: SessionLayout, row: Seq<Seq<char>>) -> bool {
    &&& s.id@ == cell_or_default(row, l.id as int, Seq::empty())
    &&& s.user@ == cell_or_default(row, l.user as int, Seq::empty())
    &&& s.host@ == cell_or_default(row, l.host as int, Seq::empty())
    &&& opt_text(s.db) == cell(row, l.db as int)
    &&& s.command@ == cell_or_default(row, l.command as int, Seq::empty())
    &&& s.time@ == cell_or_default(row, l.time as int, "0"@)
    &&& s.state@ == cell_or_default(row, l.state as int, Seq::empty())
    &&& opt_text(s.info) == cell(row, l.info as int)
}

/// The sessions of the rows with enough columns, in row order.
pub open spec fn session_rows(l: SessionLayout, rows: Seq<Seq<Seq<char>>>) -> Seq<Seq<Seq<char>>>
    decreases rows.len(),
{
    if rows.len() == 0 {
        Seq::empty()
    } else {
        let r = session_rows(l, rows.drop_last());
        if rows.last().len() >= l.min_len {
            r.push(rows.last())
        } else {
            r
        }
    }
}

/// The rows of a result as texts.
pub open spec fn row_texts(rows: Seq<Vec<String>>) -> Seq<Seq<Seq<char>>> {
    rows.map_values(|r: Vec<String>| texts(r@))
}

fn get_cell(row: &[String], i: usize) -> (r: Option<String>)
    ensures
        opt_text(r) == cell(texts(row@), i as int),
{
    if i < row.len() {
        Some(string_of(chars_of(row[i].as_str()).as_slice()))
    } else {
        None
    }
}

fn get_cell_or(row: &[String], i: usize, default: &str) -> (r: String)
    ensures
        r@ == cell_or_default(texts(row@), i as int, default@),
{
    match get_cell(row, i) {
        Some(c) => c,
        None => String::from_str(default),
    }
}

/// Reads the sessions of a process list: rows with fewer columns than the
/// layout needs are skipped, a missing time reads as `0`.
pub fn sessions_from_rows(l: SessionLayout, rows: &[Vec<String>]) -> (r: Vec<Session>)
    ensures
        r@.len() == session_rows(l, row_texts(rows@)).len(),
        forall|i: int|
            0 <= i < r@.len() ==> session_matches(#[trigger] r@[i], l, session_rows(l, row_texts(rows@))[i]),
{
    let ghost rv = row_texts(rows@);
    let mut out: Vec<Session> = Vec::new();
    let mut k: usize = 0;
    while k < rows.len()
        invariant
            k <= rows@.len(),
            rv == row_texts(rows@),
            out@.len() == session_rows(l, rv.take(k as int)).len(),
            forall|i: int|
                0 <= i < out@.len() ==> session_matches(#[trigger] out@[i], l, session_rows(l, rv.take(k as int))[i]),
        decreases rows@.len() - k,
    {
        let row = rows[k].as_slice();
        proof {
            assert(rv.take(k + 1).drop_last() =~= rv.take(k as int));
            assert(rv.take(k + 1).last() == texts(row@));
        }
        if row.len() >= l.min_len {
            proof {
                reveal_strlit("");
                reveal_strlit("0");
                assert(""@ =~= Seq::<char>::empty());
            }
            let s = Session {
                id: get_cell_or(row, l.id, ""),
                user: get_cell_or(row, l.user, ""),
                host: get_cell_or(row, l.host, ""),
                db: get_cell(row, l.db),
                command: get_cell_or(row, l.command, ""),
                time: get_cell_or(row, l.time, "0"),
                state: get_cell_or(row, l.state, ""),
                info: get_cell(row, l.info),
            };
            out.push(s);
        }
        k += 1;
    }
    assert(rv.take(rows@.len() as int) =~= rv);
    out
}

/// `p` is the profile entry read from `row` by layout `l`.
pub open spec fn profile_matches(p: ProfileListItem, l: ProfileLayout, row: Seq<Seq<char>>) -> bool {
    &&& p.query_id@ == cell_or_default(row, l.query_id as int, Seq::empty())
    &&& p.start_time@ == cell_or_default(row, l.start_time as int, Seq::empty())
    &&& p.time@ == cell_or_default(row, l.time as int, Seq::empty())
    &&& p.state@ == cell_or_default(row, l.state as int, Seq::empty())
    &&& p.statement@ == cell_or_default(row, l.statement as int, Seq::empty())
}

/// A profile row whose state is `aborted` (in any letter case).
pub open spec fn aborted_row(l: ProfileLayout, row: Seq<Seq<char>>) -> bool {
    ascii_lower(cell_or_default(row, l.state as int, Seq::empty())) == "aborted"@
}

/// The profile rows kept: those not aborted, in order.
pub open spec fn profile_rows(l: ProfileLayout, rows: Seq<Seq<Seq<char>>>) -> Seq<Seq<Seq<char>>>
    decreases rows.len(),
{
    if rows.len() == 0 {
        Seq::empty()
    } else {
        let r = profile_rows(l, rows.drop_last());
        if aborted_row(l, rows.last()) {
            r
        } else {
            r.push(rows.last())
        }
    }
}

/// Reads the profile list, leaving out aborted queries.
pub fn profiles_from_rows(l: ProfileLayout, rows: &[Vec<String>]) -> (r: Vec<ProfileListItem>)
    ensures
        r@.len() == profile_rows(l, row_texts(rows@)).len(),
        forall|i: int|
            0 <= i < r@.len() ==> profile_matches(#[trigger] r@[i], l, profile_rows(l, row_texts(rows@))[i]),
{
    let ghost rv = row_texts(rows@);
    let mut out: Vec<ProfileListItem> = Vec::new();
    let mut k: usize = 0;
    proof {
        reveal_strlit("");
        assert(""@ =~= Seq::<char>::empty());
    }
    while k < rows.len()
        invariant
            k <= rows@.len(),
            rv == row_texts(rows@),
            ""@ =~= Seq::<char>::empty(),
            out@.len() == profile_rows(l, rv.take(k as int)).len(),
            forall|i: int|
                0 <= i < out@.len() ==> profile_matches(#[trigger] out@[i], l, profile_rows(l, rv.take(k as int))[i]),
        decreases rows@.len() - k,
    {
        let row = rows[k].as_slice();
        proof {
            assert(rv.take(k + 1).drop_last() =~= rv.take(k as int));
            assert(rv.take(k + 1).last() == texts(row@));
        }
        let state = get_cell_or(row, l.state, "");
        let aborted = eq_ignore_ascii_case(chars_of(state.as_str()).as_slice(), chars_of("aborted").as_slice());
        proof {
            reveal_strlit("aborted");
            assert(ascii_lower("aborted"@) =~= "aborted"@);
        }
        if !aborted {
            let p = ProfileListItem {
                query_id: get_cell_or(row, l.query_id, ""),
                start_time: get_cell_or(row, l.start_time, ""),
                time: get_cell_or(row, l.time, ""),
                state,
                statement: get_cell_or(row, l.statement, ""),
            };
            out.push(p);
        }
        k += 1;
    }
    assert(rv.take(rows@.len() as int) =~= rv);
    out
}

/// The database names of a `SHOW DATABASES` answer: each row's first cell
/// trimmed, blank names left out.
pub open spec fn database_names_spec(rows: Seq<Seq<Seq<char>>>) -> Seq<Seq<char>>
    decreases rows.len(),
{
    if rows.len() == 0 {
        Seq::empty()
    } else {
        let r = database_names_spec(rows.drop_last());
        let row = rows.last();
        if row.len() > 0 && trim(row[0]).len() > 0 {
            r.push(trim(row[0]))
        } else {
            r
        }
    }
}

/// Reads the database names of a `SHOW DATABASES` answer.
pub fn database_names(rows: &[Vec<String>]) -> (r: Vec<String>)
    ensures
        texts(r@) == database_names_spec(row_texts(rows@)),
{
    let ghost rv = row_texts(rows@);
    let mut out: Vec<String> = Vec::new();
    let mut k: usize = 0;
    while k < rows.len()
        invariant
            k <= rows@.len(),
            rv == row_texts(rows@),
            texts(out@) == database_names_spec(rv.take(k as int)),
        decreases rows@.len() - k,
    {
        let row = rows[k].as_slice();
        proof {
            assert(rv.take(k + 1).drop_last() =~= rv.take(k as int));
            assert(rv.take(k + 1).last() == texts(row@));
        }
        if row.len() > 0 {
            let t = trim_exec(chars_of(row[0].as_str()).as_slice());
            if t.len() > 0 {
                let name = string_of(t.as_slice());
                let ghost before = texts(out@);
                out.push(name);
                assert(texts(out@) =~= before.push(name@));
            }
        }
        k += 1;
    }
    assert(rv.take(rows@.len() as int) =~= rv);
    out
}

/// Doris switches catalog before listing databases only for a named
/// catalog other than the default one.
pub fn doris_switches_catalog(catalog: Option<&str>) -> (r: bool)
    ensures
        r == (match catalog {
            Some(c) => c@.len() > 0 && c@ != "default_catalog"@,
            None => false,
        }),
{
    match catalog {
        Some(c) => !c.is_empty() && !crate::text::str_eq(c, "default_catalog"),
        None => false,
    }
}

} // verus!
