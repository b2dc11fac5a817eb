//! Result rows of SQL queries as the services read them: objects of JSON
//! values (from the HTTP query API) and the integer cells they carry.

use vstd::prelude::*;
use vstd::string::*;
use crate::text::{chars_of, parse_i64, parsed_i64, str_eq, string_of, strip_char, strip_char_exec};

verus! {

/// A JSON value of a result row: a string, a number (in its JSON text), a
/// boolean, or any other value (in its JSON text).
#[derive(Debug, Clone)]
pub enum JsonCell {
    Text(String),
    Number(String),
    Bool(bool),
    Other(String),
}

/// Model of a JSON cell.
pub enum CellView {
    Text(Seq<char>),
    Number(Seq<char>),
    Bool(bool),
    Other(Seq<char>),
}

impl View for JsonCell {
    type V = CellView;

    open spec fn view(&self) -> CellView {
        match self {
            JsonCell::Text(s) => CellView::Text(s@),
            JsonCell::Number(n) => CellView::Number(n@),
            JsonCell::Bool(b) => CellView::Bool(*b),
            JsonCell::Other(j) => CellView::Other(j@),
        }
    }
}

/// The text of a cell: strings as they are, numbers and booleans as
/// written, other values as JSON text without surrounding quotes.
pub open spec fn cell_text(c: JsonCell) -> Seq<char> {
    match c {
        JsonCell::Text(s) => s@,
        JsonCell::Number(n) => n@,
        JsonCell::Bool(b) => if b {
            "true"@
        } else {
            "false"@
        },
        JsonCell::Other(j) => strip_char(j@, '"'),
    }
}

/// The position of the first field named `key`, if any.
pub open spec fn field_position(row: Seq<(String, JsonCell)>, key: Seq<char>) -> Option<int>
    decreases row.len(),
{
    if row.len() == 0 {
        None
    } else if row[0].0@ == key {
        Some(0)
    } else {
        match field_position(row.drop_first(), key) {
            Some(i) => Some(i + 1),
            None => None,
        }
    }
}

pub proof fn lemma_field_position(row: Seq<(String, JsonCell)>, key: Seq<char>, j: int)
    requires
        0 <= j <= row.len(),
        forall|t: int| 0 <= t < j ==> (#[trigger] row[t]).0@ != key,
        j < row.len() ==> row[j].0@ == key,
    ensures
        field_position(row, key) == (if j < row.len() {
            Some(j)
        } else {
            None::<int>
        }),
    decreases j,
{
    if j > 0 {
        let rest = row.drop_first();
        assert(row[0].0@ != key);
        assert forall|t: int| 0 <= t < j - 1 implies (#[trigger] rest[t]).0@ != key by {
            assert(rest[t] == row[t + 1]);
        }
        lemma_field_position(rest, key, j - 1);
    }
}

pub fn cell_text_exec(c: &JsonCell) -> (r: String)
    ensures
        r@ == cell_text(*c),
{
    match c {
        JsonCell::Text(s) => s.clone(),
        JsonCell::Number(n) => n.clone(),
        JsonCell::Bool(b) => if *b {
            String::from_str("true")
        } else {
            String::from_str("false")
        },
        JsonCell::Other(j) => {
            let v = chars_of(j.as_str());
            let t = strip_char_exec(v.as_slice(), '"');
            string_of(t.as_slice())
        },
    }
}


fn find_field(row: &[(String, JsonCell)], key: &str) -> (r: Option<usize>)
    ensures
        match r {
            Some(i) => field_position(row@, key@) == Some(i as int) && i < row@.len(),
            None => field_position(row@, key@) is None,
        },
{
    let mut j: usize = 0;
    while j < row.len()
        invariant
            j <= row.len(),
            forall|t: int| 0 <= t < j ==> (#[trigger] row@[t]).0@ != key@,
        ensures
            j <= row.len(),
            forall|t: int| 0 <= t < j ==> (#[trigger] row@[t]).0@ != key@,
            j < row.len() ==> row@[j as int].0@ == key@,
        decreases row.len() - j,
    {
        if str_eq(row[j].0.as_str(), key) {
            break;
        }
        j += 1;
    }
    proof {
        lemma_field_position(row@, key@, j as int);
    }
    if j < row.len() {
        Some(j)
    } else {
        None
    }
}

/// The string value of field `key` (none when absent or not a string).
pub open spec fn field_str(row: Seq<(String, JsonCell)>, key: Seq<char>) -> Option<Seq<char>> {
    match field_position(row, key) {
        Some(i) => match row[i].1 {
            JsonCell::Text(s) => Some(s@),
            _ => None,
        },
        None => None,
    }
}

/// The integer value of field `key`: an integral number, or a string
/// holding a decimal integer (none otherwise).
pub open spec fn field_i64(row: Seq<(String, JsonCell)>, key: Seq<char>) -> Option<i64> {
    match field_position(row, key) {
        Some(i) => match row[i].1 {
            JsonCell::Number(n) => parsed_i64(n@),
            JsonCell::Text(s) => parsed_i64(s@),
            _ => None,
        },
        None => None,
    }
}

/// The string value of a field, if it is a string.
pub fn get_field_str(row: &[(String, JsonCell)], key: &str) -> (r: Option<String>)
    ensures
        match r {
            Some(s) => field_str(row@, key@) == Some(s@),
            None => field_str(row@, key@) is None,
        },
{
    match find_field(row, key) {
        Some(i) => match &row[i].1 {
            JsonCell::Text(s) => Some(s.clone()),
            _ => None,
        },
        None => None,
    }
}

/// The integer value of a field (an integral number or a numeric string).
pub fn get_field_i64(row: &[(String, JsonCell)], key: &str) -> (r: Option<i64>)
    ensures
        r == field_i64(row@, key@),
{
    match find_field(row, key) {
        Some(i) => match &row[i].1 {
            JsonCell::Number(n) => parse_i64(n.as_str()),
            JsonCell::Text(s) => parse_i64(s.as_str()),
            _ => None,
        },
        None => None,
    }
}

} // verus!
