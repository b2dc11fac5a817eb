//! Character-sequence primitives shared by the rest of the library.
//!
//! Every text of the library is modelled by its sequence of Unicode scalar
//! values (`Seq<char>`, the view of `str` and `String`). The functions here are
//! the building blocks: conversion between `&str` and `Vec<char>`, searching,
//! trimming, ASCII case folding, splitting, joining and decimal rendering.

use vstd::prelude::*;
use vstd::string::*;

verus! {

// ---------------------------------------------------------------------------
// Specifications
// ---------------------------------------------------------------------------

/// `c` is an ASCII upper-case letter.
pub open spec fn is_upper_ascii(c: char) -> bool {
    65 <= (c as u32) && (c as u32) <= 90
}

/// `c` is an ASCII lower-case letter.
pub open spec fn is_lower_ascii(c: char) -> bool {
    97 <= (c as u32) && (c as u32) <= 122
}

/// `c` is an ASCII decimal digit.
pub open spec fn is_digit_ascii(c: char) -> bool {
    48 <= (c as u32) && (c as u32) <= 57
}

/// `c` is an ASCII hexadecimal digit.
pub open spec fn is_hex_ascii(c: char) -> bool {
    is_digit_ascii(c) || (65 <= (c as u32) && (c as u32) <= 70) || (97 <= (c as u32) && (c
        as u32) <= 102)
}

/// `c` is an ASCII letter or digit.
pub open spec fn is_alnum_ascii(c: char) -> bool {
    is_upper_ascii(c) || is_lower_ascii(c) || is_digit_ascii(c)
}

/// ASCII lower-casing of one character (others unchanged).
pub open spec fn lower_char(c: char) -> char {
    if is_upper_ascii(c) {
        ((c as u32) + 32) as char
    } else {
        c
    }
}

/// ASCII upper-casing of one character (others unchanged).
pub open spec fn upper_char(c: char) -> char {
    if is_lower_ascii(c) {
        ((c as u32) - 32) as char
    } else {
        c
    }
}

/// ASCII lower-casing of a text.
pub open spec fn ascii_lower(s: Seq<char>) -> Seq<char> {
    s.map_values(|c: char| lower_char(c))
}

/// ASCII upper-casing of a text.
pub open spec fn ascii_upper(s: Seq<char>) -> Seq<char> {
    s.map_values(|c: char| upper_char(c))
}

/// Every character of `s` is ASCII.
pub open spec fn all_ascii(s: Seq<char>) -> bool {
    forall|i: int| 0 <= i < s.len() ==> (s[i] as u32) < 128
}

/// Unicode `White_Space`: the characters that `str::trim` removes.
pub open spec fn is_ws(c: char) -> bool {
    let u = c as u32;
    (9 <= u && u <= 13) || u == 32 || u == 0x85 || u == 0xA0 || u == 0x1680 || (0x2000 <= u
        && u <= 0x200A) || u == 0x2028 || u == 0x2029 || u == 0x202F || u == 0x205F || u
        == 0x3000
}

/// `s` without its leading white space.
pub open spec fn trim_start(s: Seq<char>) -> Seq<char>
    decreases s.len(),
{
    if s.len() > 0 && is_ws(s[0]) {
        trim_start(s.drop_first())
    } else {
        s
    }
}

/// `s` without its trailing white space.
pub open spec fn trim_end(s: Seq<char>) -> Seq<char>
    decreases s.len(),
{
    if s.len() > 0 && is_ws(s.last()) {
        trim_end(s.drop_last())
    } else {
        s
    }
}

/// `s` without leading and trailing white space.
pub open spec fn trim(s: Seq<char>) -> Seq<char> {
    trim_end(trim_start(s))
}

/// `needle` occurs in `hay` starting at position `i`.
pub open spec fn occurs_at(hay: Seq<char>, needle: Seq<char>, i: int) -> bool {
    0 <= i && i + needle.len() <= hay.len() && hay.subrange(i, i + needle.len()) == needle
}

/// `needle` occurs somewhere in `hay`.
pub open spec fn contains(hay: Seq<char>, needle: Seq<char>) -> bool {
    exists|i: int| occurs_at(hay, needle, i)
}

/// `hay` begins with `p`.
pub open spec fn starts_with(hay: Seq<char>, p: Seq<char>) -> bool {
    p.len() <= hay.len() && hay.take(p.len() as int) == p
}

/// `hay` ends with `p`.
pub open spec fn ends_with(hay: Seq<char>, p: Seq<char>) -> bool {
    p.len() <= hay.len() && hay.skip(hay.len() - p.len()) == p
}

/// The position of the first occurrence of `needle` in `hay`, if any.
pub open spec fn find(hay: Seq<char>, needle: Seq<char>) -> Option<int> {
    if contains(hay, needle) {
        Some(
            choose|i: int|
                occurs_at(hay, needle, i) && forall|j: int| 0 <= j < i ==> !occurs_at(hay, needle, j),
        )
    } else {
        None
    }
}

/// The position of the first occurrence of character `c` in `s`, if any.
pub open spec fn find_char(s: Seq<char>, c: char) -> Option<int> {
    if s.contains(c) {
        Some(choose|i: int| 0 <= i < s.len() && s[i] == c && forall|j: int| 0 <= j < i ==> s[j] != c)
    } else {
        None
    }
}

/// The position of the last occurrence of character `c` in `s`, if any.
pub open spec fn rfind_char(s: Seq<char>, c: char) -> Option<int> {
    if s.contains(c) {
        Some(
            choose|i: int| 0 <= i < s.len() && s[i] == c && forall|j: int| i < j < s.len() ==> s[j] != c,
        )
    } else {
        None
    }
}

/// The pieces of `s` between occurrences of `sep` (as `str::split` with a char).
pub open spec fn split(s: Seq<char>, sep: char) -> Seq<Seq<char>>
    decreases s.len(),
{
    match find_char(s, sep) {
        Some(i) => if 0 <= i < s.len() {
            seq![s.take(i)] + split(s.skip(i + 1), sep)
        } else {
            seq![s]
        },
        None => seq![s],
    }
}

/// `parts` joined with `sep` between neighbours.
pub open spec fn join(parts: Seq<Seq<char>>, sep: Seq<char>) -> Seq<char>
    decreases parts.len(),
{
    if parts.len() == 0 {
        Seq::empty()
    } else if parts.len() == 1 {
        parts[0]
    } else {
        join(parts.drop_last(), sep) + sep + parts.last()
    }
}

/// The character of a decimal digit value.
pub open spec fn digit_char(d: nat) -> char {
    ((48 + d) as u32) as char
}

/// Decimal rendering of a natural number, without leading zeros.
pub open spec fn nat_dec(n: nat) -> Seq<char>
    decreases n,
{
    if n < 10 {
        seq![digit_char(n)]
    } else {
        nat_dec(n / 10).push(digit_char(n % 10))
    }
}

/// Decimal rendering of an integer, as `Display` for integers prints it.
pub open spec fn int_dec(n: int) -> Seq<char> {
    if n < 0 {
        seq!['-'] + nat_dec((-n) as nat)
    } else {
        nat_dec(n as nat)
    }
}

/// `x / d` rounded to the nearest integer, halves away from zero.
pub open spec fn round_div(x: int, d: int) -> int {
    if x >= 0 {
        (x + d / 2) / d
    } else {
        -((-x + d / 2) / d)
    }
}

/// Rendering of `t / 10` with exactly one decimal place (`t` in tenths).
pub open spec fn tenths_dec(t: int) -> Seq<char> {
    let a: nat = if t < 0 { (-t) as nat } else { t as nat };
    let body = nat_dec(a / 10) + seq!['.', digit_char(a % 10)];
    if t < 0 { seq!['-'] + body } else { body }
}

/// One-decimal rendering of `x / (10 * d)`, the value `x` being counted in
/// units of `1 / (10 * d)` (e.g. hundredths with `d == 10`).
pub open spec fn one_decimal(x: int, d: int) -> Seq<char> {
    tenths_dec(round_div(x, d))
}

// ---------------------------------------------------------------------------
// Lemmas
// ---------------------------------------------------------------------------

/// The first-occurrence position of a contained needle is an occurrence with
/// no earlier one.
pub proof fn lemma_find_some(hay: Seq<char>, needle: Seq<char>)
    requires
        contains(hay, needle),
    ensures
        find(hay, needle) is Some,
        occurs_at(hay, needle, find(hay, needle)->0),
        forall|j: int| 0 <= j < find(hay, needle)->0 ==> !occurs_at(hay, needle, j),
{
    let i0 = choose|i: int| occurs_at(hay, needle, i);
    lemma_least_occurrence(hay, needle, i0);
}

/// If `needle` occurs at `k`, some least occurrence exists.
proof fn lemma_least_occurrence(hay: Seq<char>, needle: Seq<char>, k: int)
    requires
        occurs_at(hay, needle, k),
    ensures
        exists|i: int|
            occurs_at(hay, needle, i) && forall|j: int| 0 <= j < i ==> !occurs_at(hay, needle, j),
    decreases k,
{
    if exists|j: int| 0 <= j < k && occurs_at(hay, needle, j) {
        let j = choose|j: int| 0 <= j < k && occurs_at(hay, needle, j);
        lemma_least_occurrence(hay, needle, j);
    } else {
        assert(occurs_at(hay, needle, k) && forall|j: int|
            0 <= j < k ==> !occurs_at(hay, needle, j));
    }
}

/// Characterisation of `find_char` when the character is present.
pub proof fn lemma_find_char_some(s: Seq<char>, c: char)
    requires
        s.contains(c),
    ensures
        find_char(s, c) is Some,
        0 <= find_char(s, c)->0 < s.len(),
        s[find_char(s, c)->0] == c,
        forall|j: int| 0 <= j < find_char(s, c)->0 ==> s[j] != c,
{
    let k = choose|k: int| 0 <= k < s.len() && s[k] == c;
    lemma_least_char(s, c, k);
}

proof fn lemma_least_char(s: Seq<char>, c: char, k: int)
    requires
        0 <= k < s.len(),
        s[k] == c,
    ensures
        exists|i: int| 0 <= i < s.len() && s[i] == c && forall|j: int| 0 <= j < i ==> s[j] != c,
    decreases k,
{
    if exists|j: int| 0 <= j < k && s[j] == c {
        let j = choose|j: int| 0 <= j < k && s[j] == c;
        lemma_least_char(s, c, j);
    } else {
        assert(0 <= k < s.len() && s[k] == c && forall|j: int| 0 <= j < k ==> s[j] != c);
    }
}

/// Characterisation of `rfind_char` when the character is present.
pub proof fn lemma_rfind_char_some(s: Seq<char>, c: char)
    requires
        s.contains(c),
    ensures
        rfind_char(s, c) is Some,
        0 <= rfind_char(s, c)->0 < s.len(),
        s[rfind_char(s, c)->0] == c,
        forall|j: int| rfind_char(s, c)->0 < j < s.len() ==> s[j] != c,
{
    let k = choose|k: int| 0 <= k < s.len() && s[k] == c;
    lemma_greatest_char(s, c, k);
}

proof fn lemma_greatest_char(s: Seq<char>, c: char, k: int)
    requires
        0 <= k < s.len(),
        s[k] == c,
    ensures
        exists|i: int| 0 <= i < s.len() && s[i] == c && forall|j: int| i < j < s.len() ==> s[j] != c,
    decreases s.len() - k,
{
    if exists|j: int| k < j < s.len() && s[j] == c {
        let j = choose|j: int| k < j < s.len() && s[j] == c;
        lemma_greatest_char(s, c, j);
    } else {
        assert(0 <= k < s.len() && s[k] == c && forall|j: int| k < j < s.len() ==> s[j] != c);
    }
}

// ---------------------------------------------------------------------------
// Executable functions
// ---------------------------------------------------------------------------

/// Appends one character to `s` (`String::push`).
#[verifier::external_body]
pub(crate) fn push_char(s: &mut String, c: char)
    ensures
        final(s)@ == old(s)@.push(c),
{
    s.push(c);
}

/// The characters of `s`, in order.
pub fn chars_of(s: &str) -> (v: Vec<char>)
    ensures
        v@ == s@,
{
    broadcast use vstd::string::group_string_axioms;

    let mut v: Vec<char> = Vec::new();
    for c in it: s.chars()
        invariant
            v@ == it.seq().take(it.index() as int),
    {
        v.push(c);
    }
    v
}

/// The string made of the characters of `v`.
pub fn string_of(v: &[char]) -> (s: String)
    ensures
        s@ == v@,
{
    let mut s = String::new();
    let mut i: usize = 0;
    while i < v.len()
        invariant
            i <= v.len(),
            s@ == v@.take(i as int),
        decreases v.len() - i,
    {
        push_char(&mut s, v[i]);
        assert(v@.take(i as int).push(v@[i as int]) =~= v@.take(i + 1));
        i += 1;
    }
    assert(v@.take(v.len() as int) =~= v@);
    s
}

/// A fresh string holding the text of `s`.
pub fn owned(s: &str) -> (r: String)
    ensures
        r@ == s@,
{
    String::from_str(s)
}

/// The concatenation of `a` and `b`.
pub fn concat2(a: &str, b: &str) -> (r: String)
    ensures
        r@ == a@ + b@,
{
    let mut r = String::from_str(a);
    r.append(b);
    r
}

/// Equality of two character sequences.
pub fn seq_eq(a: &[char], b: &[char]) -> (r: bool)
    ensures
        r == (a@ == b@),
{
    if a.len() != b.len() {
        return false;
    }
    let mut i: usize = 0;
    while i < a.len()
        invariant
            a.len() == b.len(),
            i <= a.len(),
            forall|j: int| 0 <= j < i ==> a@[j] == b@[j],
        decreases a.len() - i,
    {
        if a[i] != b[i] {
            return false;
        }
        i += 1;
    }
    assert(a@ =~= b@);
    true
}

/// Equality of the texts of two strings.
pub fn str_eq(a: &str, b: &str) -> (r: bool)
    ensures
        r == (a@ == b@),
{
    let x = chars_of(a);
    let y = chars_of(b);
    seq_eq(x.as_slice(), y.as_slice())
}

/// `needle` occurs in `hay` at position `i`.
pub fn occurs_at_exec(hay: &[char], needle: &[char], i: usize) -> (r: bool)
    ensures
        r == occurs_at(hay@, needle@, i as int),
{
    if i > hay.len() || needle.len() > hay.len() - i {
        return false;
    }
    let mut k: usize = 0;
    while k < needle.len()
        invariant
            i + needle.len() <= hay.len(),
            k <= needle.len(),
            forall|j: int| 0 <= j < k ==> hay@[i + j] == needle@[j],
        decreases needle.len() - k,
    {
        if hay[i + k] != needle[k] {
            assert(hay@.subrange(i as int, i + needle.len())[k as int] != needle@[k as int]);
            return false;
        }
        k += 1;
    }
    assert(hay@.subrange(i as int, i + needle.len()) =~= needle@);
    true
}

/// The position of the first occurrence of `needle` in `hay`.
pub fn find_exec(hay: &[char], needle: &[char]) -> (r: Option<usize>)
    ensures
        r matches Some(i) ==> find(hay@, needle@) == Some(i as int),
        r is None <==> find(hay@, needle@) is None,
{
    if needle.len() > hay.len() {
        assert(!contains(hay@, needle@));
        return None;
    }
    let last = hay.len() - needle.len();
    let mut i: usize = 0;
    loop
        invariant
            last == hay.len() - needle.len(),
            i <= last,
            forall|j: int| 0 <= j < i ==> !occurs_at(hay@, needle@, j),
        ensures
            forall|j: int| 0 <= j <= last ==> !occurs_at(hay@, needle@, j),
        decreases last - i,
    {
        if occurs_at_exec(hay, needle, i) {
            proof {
                lemma_find_some(hay@, needle@);
                let f = find(hay@, needle@)->0;
                assert(f == i) by {
                    if f < i {
                    } else if f > i {
                    }
                }
            }
            return Some(i);
        }
        if i == last {
            break;
        }
        i += 1;
    }
    assert(!contains(hay@, needle@)) by {
        if contains(hay@, needle@) {
            let k = choose|k: int| occurs_at(hay@, needle@, k);
            assert(k <= last);
        }
    }
    None
}

/// `needle` occurs in `hay`.
pub fn contains_exec(hay: &[char], needle: &[char]) -> (r: bool)
    ensures
        r == contains(hay@, needle@),
{
    let f = find_exec(hay, needle);
    proof {
        if contains(hay@, needle@) {
            lemma_find_some(hay@, needle@);
        }
    }
    f.is_some()
}

/// `hay` contains the text of `needle`.
pub fn contains_str(hay: &[char], needle: &str) -> (r: bool)
    ensures
        r == contains(hay@, needle@),
{
    let n = chars_of(needle);
    contains_exec(hay, n.as_slice())
}

/// `hay` begins with `p`.
pub fn starts_with_exec(hay: &[char], p: &[char]) -> (r: bool)
    ensures
        r == starts_with(hay@, p@),
{
    let r = occurs_at_exec(hay, p, 0);
    proof {
        if p@.len() <= hay@.len() {
            assert(hay@.subrange(0, p@.len() as int) =~= hay@.take(p@.len() as int));
        }
    }
    r
}

/// `hay` ends with `p`.
pub fn ends_with_exec(hay: &[char], p: &[char]) -> (r: bool)
    ensures
        r == ends_with(hay@, p@),
{
    if p.len() > hay.len() {
        return false;
    }
    let r = occurs_at_exec(hay, p, hay.len() - p.len());
    proof {
        assert(hay@.subrange(hay.len() - p.len(), hay.len() as int) =~= hay@.skip(
            hay.len() - p.len(),
        ));
    }
    r
}

/// The position of the first `c` in `s`.
pub fn find_char_exec(s: &[char], c: char) -> (r: Option<usize>)
    ensures
        r matches Some(i) ==> find_char(s@, c) == Some(i as int),
        r is None <==> find_char(s@, c) is None,
{
    let mut i: usize = 0;
    while i < s.len()
        invariant
            i <= s.len(),
            forall|j: int| 0 <= j < i ==> s@[j] != c,
        decreases s.len() - i,
    {
        if s[i] == c {
            proof {
                assert(s@.contains(c));
                lemma_find_char_some(s@, c);
                let f = find_char(s@, c)->0;
                assert(f == i) by {
                    if f < i {
                    } else if f > i {
                    }
                }
            }
            return Some(i);
        }
        i += 1;
    }
    assert(!s@.contains(c));
    None
}

/// The position of the last `c` in `s`.
pub fn rfind_char_exec(s: &[char], c: char) -> (r: Option<usize>)
    ensures
        r matches Some(i) ==> rfind_char(s@, c) == Some(i as int),
        r is None <==> rfind_char(s@, c) is None,
{
    let mut i: usize = s.len();
    while i > 0
        invariant
            i <= s.len(),
            forall|j: int| i <= j < s.len() ==> s@[j] != c,
        decreases i,
    {
        if s[i - 1] == c {
            proof {
                assert(s@.contains(c));
                lemma_rfind_char_some(s@, c);
                let f = rfind_char(s@, c)->0;
                assert(f == i - 1) by {
                    if f < i - 1 {
                    } else if f > i - 1 {
                    }
                }
            }
            return Some(i - 1);
        }
        i -= 1;
    }
    assert(!s@.contains(c));
    None
}

/// `s` contains the character `c`.
pub fn has_char(s: &[char], c: char) -> (r: bool)
    ensures
        r == s@.contains(c),
{
    let f = find_char_exec(s, c);
    proof {
        if s@.contains(c) {
            lemma_find_char_some(s@, c);
        }
    }
    f.is_some()
}

/// Whether `c` is Unicode white space (`char::is_whitespace`).
pub fn is_ws_exec(c: char) -> (r: bool)
    ensures
        r == is_ws(c),
{
    let u: u32 = c as u32;
    (9 <= u && u <= 13) || u == 32 || u == 0x85 || u == 0xA0 || u == 0x1680 || (0x2000 <= u && u
        <= 0x200A) || u == 0x2028 || u == 0x2029 || u == 0x202F || u == 0x205F || u == 0x3000
}

proof fn lemma_trim_start_skip(s: Seq<char>, i: int)
    requires
        0 <= i <= s.len(),
        forall|j: int| 0 <= j < i ==> is_ws(s[j]),
    ensures
        trim_start(s) == trim_start(s.skip(i)),
    decreases i,
{
    if i > 0 {
        assert(s.drop_first().skip(i - 1) =~= s.skip(i));
        lemma_trim_start_skip(s.drop_first(), i - 1);
    } else {
        assert(s.skip(0) =~= s);
    }
}

proof fn lemma_trim_end_take(s: Seq<char>, i: int)
    requires
        0 <= i <= s.len(),
        forall|j: int| i <= j < s.len() ==> is_ws(s[j]),
    ensures
        trim_end(s) == trim_end(s.take(i)),
    decreases s.len() - i,
{
    if i < s.len() {
        assert(s.drop_last().take(i) =~= s.take(i));
        lemma_trim_end_take(s.drop_last(), i);
    } else {
        assert(s.take(i) =~= s);
    }
}

/// `s` without leading and trailing white space (`str::trim`).
pub fn trim_exec(s: &[char]) -> (r: Vec<char>)
    ensures
        r@ == trim(s@),
{
    let mut start: usize = 0;
    while start < s.len() && is_ws_exec(s[start])
        invariant
            start <= s.len(),
            forall|j: int| 0 <= j < start ==> is_ws(s@[j]),
        decreases s.len() - start,
    {
        start += 1;
    }
    proof {
        lemma_trim_start_skip(s@, start as int);
    }
    let mut end: usize = s.len();
    while end > start && is_ws_exec(s[end - 1])
        invariant
            start <= end <= s.len(),
            forall|j: int| end <= j < s.len() ==> is_ws(s@[j]),
        decreases end - start,
    {
        end -= 1;
    }
    let ghost t = s@.skip(start as int);
    proof {
        assert(trim_start(t) == t);
        lemma_trim_end_take(t, end - start);
        assert(t.take(end - start) =~= s@.subrange(start as int, end as int));
        if end > start {
            assert(!is_ws(t.take(end - start).last()));
        }
    }
    let mut r: Vec<char> = Vec::new();
    let mut k: usize = start;
    while k < end
        invariant
            start <= k <= end <= s.len(),
            r@ == s@.subrange(start as int, k as int),
        decreases end - k,
    {
        r.push(s[k]);
        assert(s@.subrange(start as int, k as int).push(s@[k as int]) =~= s@.subrange(
            start as int,
            k + 1,
        ));
        k += 1;
    }
    r
}

/// ASCII lower-casing of one character.
pub fn to_lower_char(c: char) -> (r: char)
    ensures
        r == lower_char(c),
{
    if 'A' <= c && c <= 'Z' {
        let b: u8 = c as u8;
        (b + 32) as char
    } else {
        c
    }
}

/// ASCII upper-casing of one character.
pub fn to_upper_char(c: char) -> (r: char)
    ensures
        r == upper_char(c),
{
    if 'a' <= c && c <= 'z' {
        let b: u8 = c as u8;
        (b - 32) as char
    } else {
        c
    }
}

/// ASCII lower-casing of a text (`str::to_ascii_lowercase`).
pub fn to_ascii_lower(s: &[char]) -> (r: Vec<char>)
    ensures
        r@ == ascii_lower(s@),
{
    let mut r: Vec<char> = Vec::new();
    let mut i: usize = 0;
    while i < s.len()
        invariant
            i <= s.len(),
            r@ == ascii_lower(s@.take(i as int)),
        decreases s.len() - i,
    {
        let c = to_lower_char(s[i]);
        r.push(c);
        assert(ascii_lower(s@.take(i + 1)) =~= ascii_lower(s@.take(i as int)).push(c));
        i += 1;
    }
    assert(s@.take(s.len() as int) =~= s@);
    r
}

/// ASCII upper-casing of a text (`str::to_ascii_uppercase`).
pub fn to_ascii_upper(s: &[char]) -> (r: Vec<char>)
    ensures
        r@ == ascii_upper(s@),
{
    let mut r: Vec<char> = Vec::new();
    let mut i: usize = 0;
    while i < s.len()
        invariant
            i <= s.len(),
            r@ == ascii_upper(s@.take(i as int)),
        decreases s.len() - i,
    {
        let c = to_upper_char(s[i]);
        r.push(c);
        assert(ascii_upper(s@.take(i + 1)) =~= ascii_upper(s@.take(i as int)).push(c));
        i += 1;
    }
    assert(s@.take(s.len() as int) =~= s@);
    r
}

/// Case-insensitive ASCII equality (`str::eq_ignore_ascii_case`).
pub fn eq_ignore_ascii_case(a: &[char], b: &[char]) -> (r: bool)
    ensures
        r == (ascii_lower(a@) == ascii_lower(b@)),
{
    let x = to_ascii_lower(a);
    let y = to_ascii_lower(b);
    seq_eq(x.as_slice(), y.as_slice())
}

/// Appends the characters of `v` to `s`.
pub fn append_chars(s: &mut String, v: &[char])
    ensures
        final(s)@ == old(s)@ + v@,
{
    let ghost s0 = s@;
    let mut i: usize = 0;
    while i < v.len()
        invariant
            i <= v.len(),
            s@ == s0 + v@.take(i as int),
        decreases v.len() - i,
    {
        push_char(s, v[i]);
        assert(s0 + v@.take(i as int) + seq![v@[i as int]] =~= s0 + v@.take(i + 1));
        i += 1;
    }
    assert(v@.take(v.len() as int) =~= v@);
}

proof fn lemma_nat_dec_nonempty(n: nat)
    ensures
        nat_dec(n).len() >= 1,
    decreases n,
{
    if n >= 10 {
        lemma_nat_dec_nonempty(n / 10);
    }
}

/// Every character of a decimal rendering is an ASCII digit.
pub proof fn lemma_nat_dec_digits(n: nat)
    ensures
        forall|i: int| 0 <= i < nat_dec(n).len() ==> '0' <= #[trigger] nat_dec(n)[i] <= '9',
    decreases n,
{
    if n >= 10 {
        lemma_nat_dec_digits(n / 10);
        assert(nat_dec(n) == nat_dec(n / 10).push(digit_char(n % 10)));
    }
}

/// Different numbers have different decimal renderings.
pub proof fn lemma_nat_dec_injective(a: nat, b: nat)
    requires
        nat_dec(a) == nat_dec(b),
    ensures
        a == b,
    decreases a,
{
    lemma_nat_dec_nonempty(a / 10);
    lemma_nat_dec_nonempty(b / 10);
    if a < 10 && b < 10 {
        assert(nat_dec(a)[0] == digit_char(a));
        assert(nat_dec(b)[0] == digit_char(b));
        assert(digit_char(a) as u32 == 48 + a);
        assert(digit_char(b) as u32 == 48 + b);
    } else if a >= 10 && b >= 10 {
        assert(nat_dec(a).drop_last() =~= nat_dec(a / 10));
        assert(nat_dec(b).drop_last() =~= nat_dec(b / 10));
        lemma_nat_dec_injective(a / 10, b / 10);
        assert(nat_dec(a).last() == digit_char(a % 10));
        assert(nat_dec(b).last() == digit_char(b % 10));
        assert(digit_char(a % 10) as u32 == 48 + a % 10);
        assert(digit_char(b % 10) as u32 == 48 + b % 10);
    }
}

/// Different integers have different decimal renderings.
pub proof fn lemma_int_dec_injective(a: int, b: int)
    requires
        int_dec(a) == int_dec(b),
    ensures
        a == b,
{
    lemma_nat_dec_digits(if a < 0 { (-a) as nat } else { a as nat });
    lemma_nat_dec_digits(if b < 0 { (-b) as nat } else { b as nat });
    lemma_nat_dec_nonempty(if a < 0 { (-a) as nat } else { a as nat });
    lemma_nat_dec_nonempty(if b < 0 { (-b) as nat } else { b as nat });
    if a < 0 && b < 0 {
        assert(int_dec(a).drop_first() =~= nat_dec((-a) as nat));
        assert(int_dec(b).drop_first() =~= nat_dec((-b) as nat));
        lemma_nat_dec_injective((-a) as nat, (-b) as nat);
    } else if a >= 0 && b >= 0 {
        lemma_nat_dec_injective(a as nat, b as nat);
    } else if a < 0 {
        assert(int_dec(a)[0] == '-');
        assert(int_dec(b)[0] == nat_dec(b as nat)[0]);
    } else {
        assert(int_dec(b)[0] == '-');
        assert(int_dec(a)[0] == nat_dec(a as nat)[0]);
    }
}

/// Decimal rendering of an unsigned integer (`u64::to_string`).
pub fn u64_dec(n: u64) -> (r: Vec<char>)
    ensures
        r@ == nat_dec(n as nat),
    decreases n,
{
    let d: u64 = n % 10;
    let c: char = ((d as u8) + 48) as char;
    assert(c == digit_char(d as nat));
    if n < 10 {
        let mut r: Vec<char> = Vec::new();
        r.push(c);
        r
    } else {
        let mut r = u64_dec(n / 10);
        r.push(c);
        r
    }
}

/// Decimal rendering of a signed integer (`i64::to_string`).
pub fn i64_dec(n: i64) -> (r: Vec<char>)
    ensures
        r@ == int_dec(n as int),
{
    if n < 0 {
        let m: u64 = if n == i64::MIN {
            9223372036854775808u64
        } else {
            (-n) as u64
        };
        let digits = u64_dec(m);
        let mut r: Vec<char> = Vec::new();
        r.push('-');
        let mut i: usize = 0;
        while i < digits.len()
            invariant
                i <= digits.len(),
                r@ == seq!['-'] + digits@.take(i as int),
            decreases digits.len() - i,
        {
            r.push(digits[i]);
            assert(seq!['-'] + digits@.take(i + 1) =~= (seq!['-'] + digits@.take(i as int)).push(
                digits@[i as int],
            ));
            i += 1;
        }
        assert(digits@.take(digits.len() as int) =~= digits@);
        r
    } else {
        u64_dec(n as u64)
    }
}

/// Decimal rendering of a signed integer as a `String`.
pub fn i64_string(n: i64) -> (r: String)
    ensures
        r@ == int_dec(n as int),
{
    let v = i64_dec(n);
    string_of(v.as_slice())
}

/// The pieces of `s` between occurrences of `sep` (`str::split`).
pub fn split_exec(s: &[char], sep: char) -> (r: Vec<Vec<char>>)
    ensures
        r@.len() == split(s@, sep).len(),
        forall|i: int| 0 <= i < r@.len() ==> #[trigger] r@[i]@ == split(s@, sep)[i],
    decreases s.len(),
{
    let f = find_char_exec(s, sep);
    proof {
        if s@.contains(sep) {
            lemma_find_char_some(s@, sep);
        }
    }
    match f {
        Some(i) => {
            let mut head: Vec<char> = Vec::new();
            let mut k: usize = 0;
            while k < i
                invariant
                    i < s.len(),
                    k <= i,
                    head@ == s@.take(k as int),
                decreases i - k,
            {
                head.push(s[k]);
                assert(s@.take(k as int).push(s@[k as int]) =~= s@.take(k + 1));
                k += 1;
            }
            let rest = vstd::slice::slice_subrange(s, i + 1, s.len());
            assert(rest@ =~= s@.skip(i + 1));
            let mut tail = split_exec(rest, sep);
            assert(split(s@, sep) == seq![s@.take(i as int)] + split(s@.skip(i + 1), sep));
            let ghost tail0 = tail@;
            let mut out: Vec<Vec<char>> = Vec::new();
            out.push(head);
            let mut idx: usize = 0;
            let n = tail.len();
            while idx < n
                invariant
                    n == tail0.len(),
                    idx <= n,
                    tail@.len() == n - idx,
                    forall|t: int| 0 <= t < tail@.len() ==> tail@[t] == tail0[t + idx],
                    out@.len() == 1 + idx,
                    out@[0]@ == s@.take(i as int),
                    forall|t: int| 1 <= t < out@.len() ==> #[trigger] out@[t]@ == tail0[t - 1]@,
                decreases n - idx,
            {
                let item = tail.remove(0);
                out.push(item);
                idx += 1;
            }
            assert(split(s@, sep).len() == 1 + split(s@.skip(i + 1), sep).len());
            assert forall|t: int| 0 <= t < out@.len() implies #[trigger] out@[t]@ == split(
                s@,
                sep,
            )[t] by {
                if t >= 1 {
                    assert(split(s@, sep)[t] == split(s@.skip(i + 1), sep)[t - 1]);
                }
            }
            out
        },
        None => {
            let mut r: Vec<Vec<char>> = Vec::new();
            let mut whole: Vec<char> = Vec::new();
            let mut k: usize = 0;
            while k < s.len()
                invariant
                    k <= s.len(),
                    whole@ == s@.take(k as int),
                decreases s.len() - k,
            {
                whole.push(s[k]);
                assert(s@.take(k as int).push(s@[k as int]) =~= s@.take(k + 1));
                k += 1;
            }
            assert(s@.take(s.len() as int) =~= s@);
            r.push(whole);
            r
        },
    }
}

/// One-decimal rendering of a fixed-point value (see `one_decimal`).
pub fn one_decimal_exec(x: i64, d: i64) -> (r: Vec<char>)
    requires
        d == 10 || d == 100,
    ensures
        r@ == one_decimal(x as int, d as int),
{
    let xi: i128 = x as i128;
    let di: i128 = d as i128;
    let t: i128 = if xi >= 0 {
        (xi + di / 2) / di
    } else {
        -((-xi + di / 2) / di)
    };
    assert(t == round_div(x as int, d as int));
    let a: u64 = if t < 0 {
        (-t) as u64
    } else {
        t as u64
    };
    let mut r: Vec<char> = Vec::new();
    if t < 0 {
        r.push('-');
    }
    let int_part = u64_dec(a / 10);
    let mut i: usize = 0;
    let ghost r0 = r@;
    while i < int_part.len()
        invariant
            i <= int_part.len(),
            r@ == r0 + int_part@.take(i as int),
        decreases int_part.len() - i,
    {
        r.push(int_part[i]);
        assert(r0 + int_part@.take(i + 1) =~= (r0 + int_part@.take(i as int)).push(
            int_part@[i as int],
        ));
        i += 1;
    }
    assert(int_part@.take(int_part.len() as int) =~= int_part@);
    r.push('.');
    let frac: u8 = (a % 10) as u8;
    let fc: char = (frac + 48) as char;
    assert(fc == digit_char((a % 10) as nat));
    r.push(fc);
    assert(r@ =~= one_decimal(x as int, d as int));
    r
}

/// The text of `v` equals the literal `lit`.
pub fn eq_lit(v: &[char], lit: &str) -> (r: bool)
    ensures
        r == (v@ == lit@),
{
    let l = chars_of(lit);
    seq_eq(v, l.as_slice())
}

/// A copy of the characters of `v`.
pub fn copy_chars(v: &[char]) -> (r: Vec<char>)
    ensures
        r@ == v@,
{
    let mut r: Vec<char> = Vec::new();
    let mut i: usize = 0;
    while i < v.len()
        invariant
            i <= v.len(),
            r@ == v@.take(i as int),
        decreases v.len() - i,
    {
        r.push(v[i]);
        assert(v@.take(i as int).push(v@[i as int]) =~= v@.take(i + 1));
        i += 1;
    }
    assert(v@.take(v.len() as int) =~= v@);
    r
}

/// The texts of a sequence of strings.
pub open spec fn texts(v: Seq<String>) -> Seq<Seq<char>> {
    v.map_values(|s: String| s@)
}

/// `parts` joined with `sep` between neighbours (`[String]::join`).
pub fn join_strings(parts: &[String], sep: &str) -> (r: String)
    ensures
        r@ == join(texts(parts@), sep@),
{
    let ghost tv = texts(parts@);
    let mut r = String::new();
    let mut i: usize = 0;
    while i < parts.len()
        invariant
            i <= parts.len(),
            tv == texts(parts@),
            r@ == join(tv.take(i as int), sep@),
        decreases parts.len() - i,
    {
        assert(tv.take(i + 1).drop_last() =~= tv.take(i as int));
        assert(tv.take(i + 1).last() == parts@[i as int]@);
        if i > 0 {
            r.append(sep);
        } else {
            assert(tv.take(i as int) =~= Seq::<Seq<char>>::empty());
            assert(tv.take(1)[0] == parts@[0]@);
        }
        r.append(parts[i].as_str());
        i += 1;
    }
    assert(tv.take(parts.len() as int) =~= tv);
    r
}

/// Lexicographic order of texts by code point (the order of `str`'s `<`,
/// UTF-8 preserving code point order).
pub open spec fn text_lt(a: Seq<char>, b: Seq<char>) -> bool
    decreases a.len(),
{
    if b.len() == 0 {
        false
    } else if a.len() == 0 {
        true
    } else if (a[0] as u32) < (b[0] as u32) {
        true
    } else if (a[0] as u32) > (b[0] as u32) {
        false
    } else {
        text_lt(a.drop_first(), b.drop_first())
    }
}

/// `a < b` in the order of `str` (timestamps `%Y-%m-%d %H:%M:%S` compare in
/// time order).
pub fn str_lt(a: &str, b: &str) -> (r: bool)
    ensures
        r == text_lt(a@, b@),
{
    let x = chars_of(a);
    let y = chars_of(b);
    let mut i: usize = 0;
    assert(x@.skip(0) =~= x@);
    assert(y@.skip(0) =~= y@);
    while i < x.len() && i < y.len()
        invariant
            i <= x.len(),
            i <= y.len(),
            x@ == a@,
            y@ == b@,
            text_lt(x@, y@) == text_lt(x@.skip(i as int), y@.skip(i as int)),
        decreases x.len() - i,
    {
        let ghost xs = x@.skip(i as int);
        let ghost ys = y@.skip(i as int);
        assert(xs.len() > 0 && ys.len() > 0);
        assert(xs[0] == x@[i as int]);
        assert(ys[0] == y@[i as int]);
        let xc: u32 = x[i] as u32;
        let yc: u32 = y[i] as u32;
        assert(xc == (xs[0] as u32) && yc == (ys[0] as u32));
        if xc < yc {
            assert(text_lt(xs, ys));
            return true;
        }
        if xc > yc {
            assert(!text_lt(xs, ys));
            return false;
        }
        assert(xs.drop_first() =~= x@.skip(i + 1));
        assert(ys.drop_first() =~= y@.skip(i + 1));
        i += 1;
    }
    proof {
        if i < y.len() {
            assert(x@.skip(i as int).len() == 0);
            assert(y@.skip(i as int).len() > 0);
        } else {
            assert(y@.skip(i as int).len() == 0);
        }
    }
    i < y.len()
}

/// `text_lt` is irreflexive.
pub proof fn lemma_text_lt_irreflexive(a: Seq<char>)
    ensures
        !text_lt(a, a),
    decreases a.len(),
{
    if a.len() > 0 {
        lemma_text_lt_irreflexive(a.drop_first());
    }
}

/// `text_lt` is transitive.
pub proof fn lemma_text_lt_transitive(a: Seq<char>, b: Seq<char>, c: Seq<char>)
    requires
        text_lt(a, b),
        text_lt(b, c),
    ensures
        text_lt(a, c),
    decreases a.len(),
{
    if a.len() > 0 && (a[0] as u32) == (b[0] as u32) && (b[0] as u32) == (c[0] as u32) {
        lemma_text_lt_transitive(a.drop_first(), b.drop_first(), c.drop_first());
    }
}

/// Of two different texts, one is before the other.
pub proof fn lemma_text_lt_total(a: Seq<char>, b: Seq<char>)
    requires
        a != b,
    ensures
        text_lt(a, b) || text_lt(b, a),
    decreases a.len(),
{
    if a.len() > 0 && b.len() > 0 && (a[0] as u32) == (b[0] as u32) {
        if a.drop_first() == b.drop_first() {
            assert(a =~= seq![a[0]] + a.drop_first());
            assert(b =~= seq![b[0]] + b.drop_first());
            vstd::utf8::char_u32_cast(a[0], a[0] as u32);
            vstd::utf8::char_u32_cast(b[0], b[0] as u32);
        }
        lemma_text_lt_total(a.drop_first(), b.drop_first());
    } else if a.len() == 0 && b.len() == 0 {
        assert(a =~= b);
    }
}

/// `text_lt` is asymmetric.
pub proof fn lemma_text_lt_asymmetric(a: Seq<char>, b: Seq<char>)
    requires
        text_lt(a, b),
    ensures
        !text_lt(b, a),
{
    if text_lt(b, a) {
        lemma_text_lt_transitive(a, b, a);
        lemma_text_lt_irreflexive(a);
    }
}


// ---------------------------------------------------------------------------
// Integer parsing
// ---------------------------------------------------------------------------

/// Every character of `s` is an ASCII digit.
pub open spec fn all_digits(s: Seq<char>) -> bool {
    forall|i: int| 0 <= i < s.len() ==> is_digit_ascii(#[trigger] s[i])
}

/// The value of a string of decimal digits.
pub open spec fn digits_value(s: Seq<char>) -> int
    decreases s.len(),
{
    if s.len() == 0 {
        0
    } else {
        digits_value(s.drop_last()) * 10 + ((s.last() as u32) as int - 48)
    }
}

/// The integer a text denotes in `i64::from_str` syntax (an optional sign
/// then one or more ASCII digits), if it is one.
pub open spec fn decimal_int(s: Seq<char>) -> Option<int> {
    let neg = s.len() > 0 && s[0] == '-';
    let body = if s.len() > 0 && (s[0] == '-' || s[0] == '+') {
        s.drop_first()
    } else {
        s
    };
    if body.len() > 0 && all_digits(body) {
        Some(
            if neg {
                -digits_value(body)
            } else {
                digits_value(body)
            },
        )
    } else {
        None
    }
}

/// `str::parse::<i64>`: the denoted integer when it is in range.
pub open spec fn parsed_i64(s: Seq<char>) -> Option<i64> {
    match decimal_int(s) {
        Some(v) => if i64::MIN <= v <= i64::MAX {
            Some(v as i64)
        } else {
            None
        },
        None => None,
    }
}

proof fn lemma_digits_value_prefix(s: Seq<char>, k: int)
    requires
        0 <= k <= s.len(),
        all_digits(s),
    ensures
        digits_value(s.take(k)) <= digits_value(s),
        0 <= digits_value(s.take(k)),
    decreases s.len() - k,
{
    if k < s.len() {
        lemma_digits_value_prefix(s, k + 1);
        assert(s.take(k + 1).drop_last() =~= s.take(k));
        assert(s.take(k + 1).last() == s[k]);
        assert(is_digit_ascii(s[k]));
        assert(all_digits(s.take(k))) by {
            assert forall|i: int| 0 <= i < s.take(k).len() implies is_digit_ascii(
                #[trigger] s.take(k)[i],
            ) by {
                assert(s.take(k)[i] == s[i]);
            }
        }
        lemma_digits_value_prefix_nonneg(s.take(k));
        assert(digits_value(s.take(k + 1)) == digits_value(s.take(k)) * 10 + ((s[k] as u32) as int
            - 48));
        assert(digits_value(s.take(k)) <= digits_value(s.take(k)) * 10 + ((s[k] as u32) as int
            - 48)) by (nonlinear_arith)
            requires
                0 <= digits_value(s.take(k)),
                48 <= (s[k] as u32) as int,
        ;
    } else {
        assert(s.take(k) =~= s);
        lemma_digits_value_prefix_nonneg(s);
    }
}

proof fn lemma_digits_value_prefix_nonneg(s: Seq<char>)
    requires
        all_digits(s),
    ensures
        0 <= digits_value(s),
    decreases s.len(),
{
    if s.len() > 0 {
        assert(is_digit_ascii(s[s.len() - 1]));
        assert(all_digits(s.drop_last())) by {
            assert forall|i: int| 0 <= i < s.drop_last().len() implies is_digit_ascii(
                #[trigger] s.drop_last()[i],
            ) by {
                assert(s.drop_last()[i] == s[i]);
            }
        }
        lemma_digits_value_prefix_nonneg(s.drop_last());
    }
}

/// Parses a decimal `i64` as `str::parse::<i64>` does.
pub fn parse_i64(text: &str) -> (r: Option<i64>)
    ensures
        r == parsed_i64(text@),
{
    let s = chars_of(text);
    let mut start: usize = 0;
    let neg = s.len() > 0 && s[0] == '-';
    if s.len() > 0 && (s[0] == '-' || s[0] == '+') {
        start = 1;
    }
    let ghost body = if s@.len() > 0 && (s@[0] == '-' || s@[0] == '+') {
        s@.drop_first()
    } else {
        s@
    };
    assert(body =~= s@.skip(start as int));
    if start >= s.len() {
        return None;
    }
    let mut mag: u128 = 0;
    let mut i: usize = start;
    while i < s.len()
        invariant
            start <= i <= s.len(),
            s@ == text@,
            body == (if s@.len() > 0 && (s@[0] == '-' || s@[0] == '+') {
                s@.drop_first()
            } else {
                s@
            }),
            body == s@.skip(start as int),
            body.len() > 0,
            all_digits(body.take(i - start)),
            mag as int == digits_value(body.take(i - start)),
            mag <= 9223372036854775808,
        decreases s.len() - i,
    {
        let c = s[i];
        assert(body[i - start] == c);
        if !((c as u32) >= 48 && (c as u32) <= 57) {
            assert(!is_digit_ascii(body[i - start]));
            assert(!all_digits(body));
            return None;
        }
        let d: u128 = ((c as u32) - 48) as u128;
        assert(body.take(i - start + 1).drop_last() =~= body.take(i - start));
        assert(body.take(i - start + 1).last() == c);
        mag = mag * 10 + d;
        assert(all_digits(body.take(i - start + 1))) by {
            assert forall|k: int| 0 <= k < body.take(i - start + 1).len() implies is_digit_ascii(
                #[trigger] body.take(i - start + 1)[k],
            ) by {
                if k < i - start {
                    assert(body.take(i - start + 1)[k] == body.take(i - start)[k]);
                }
            }
        }
        if mag > 9223372036854775808 {
            proof {
                if all_digits(body) {
                    lemma_digits_value_prefix(body, i - start + 1);
                }
            }
            return None;
        }
        i += 1;
    }
    assert(body.take(s.len() - start) =~= body);
    if neg {
        if mag == 9223372036854775808 {
            Some(i64::MIN)
        } else {
            Some(-(mag as i64))
        }
    } else if mag <= 9223372036854775807 {
        Some(mag as i64)
    } else {
        None
    }
}

/// `str::parse::<u64>`: an optional `+` then one or more ASCII digits, when
/// the value fits.
pub open spec fn parsed_u64(s: Seq<char>) -> Option<u64> {
    let body = if s.len() > 0 && s[0] == '+' {
        s.drop_first()
    } else {
        s
    };
    if body.len() > 0 && all_digits(body) && digits_value(body) <= u64::MAX {
        Some(digits_value(body) as u64)
    } else {
        None
    }
}

/// Parses a decimal `u64` as `str::parse::<u64>` does.
pub fn parse_u64(text: &str) -> (r: Option<u64>)
    ensures
        r == parsed_u64(text@),
{
    let s = chars_of(text);
    let start: usize = if s.len() > 0 && s[0] == '+' {
        1
    } else {
        0
    };
    let ghost body = if s@.len() > 0 && s@[0] == '+' {
        s@.drop_first()
    } else {
        s@
    };
    assert(body =~= s@.skip(start as int));
    if start >= s.len() {
        return None;
    }
    let mut mag: u128 = 0;
    let mut i: usize = start;
    while i < s.len()
        invariant
            start <= i <= s.len(),
            s@ == text@,
            body == (if s@.len() > 0 && s@[0] == '+' {
                s@.drop_first()
            } else {
                s@
            }),
            body == s@.skip(start as int),
            body.len() > 0,
            all_digits(body.take(i - start)),
            mag as int == digits_value(body.take(i - start)),
            mag <= 18446744073709551615,
        decreases s.len() - i,
    {
        let c = s[i];
        assert(body[i - start] == c);
        if !((c as u32) >= 48 && (c as u32) <= 57) {
            assert(!is_digit_ascii(body[i - start]));
            assert(!all_digits(body));
            return None;
        }
        let d: u128 = ((c as u32) - 48) as u128;
        assert(body.take(i - start + 1).drop_last() =~= body.take(i - start));
        assert(body.take(i - start + 1).last() == c);
        mag = mag * 10 + d;
        assert(all_digits(body.take(i - start + 1))) by {
            assert forall|k: int| 0 <= k < body.take(i - start + 1).len() implies is_digit_ascii(
                #[trigger] body.take(i - start + 1)[k],
            ) by {
                if k < i - start {
                    assert(body.take(i - start + 1)[k] == body.take(i - start)[k]);
                }
            }
        }
        if mag > 18446744073709551615 {
            proof {
                if all_digits(body) {
                    lemma_digits_value_prefix(body, i - start + 1);
                }
            }
            return None;
        }
        i += 1;
    }
    assert(body.take(s.len() - start) =~= body);
    Some(mag as u64)
}

// ---------------------------------------------------------------------------
// Trimming and removal
// ---------------------------------------------------------------------------

/// `s` without its leading `c`s.
pub open spec fn strip_char_start(s: Seq<char>, c: char) -> Seq<char>
    decreases s.len(),
{
    if s.len() > 0 && s[0] == c {
        strip_char_start(s.drop_first(), c)
    } else {
        s
    }
}

/// `s` without its trailing `c`s.
pub open spec fn strip_char_end(s: Seq<char>, c: char) -> Seq<char>
    decreases s.len(),
{
    if s.len() > 0 && s.last() == c {
        strip_char_end(s.drop_last(), c)
    } else {
        s
    }
}

/// `s` without leading and trailing `c`s (`str::trim_matches` with a char).
pub open spec fn strip_char(s: Seq<char>, c: char) -> Seq<char> {
    strip_char_end(strip_char_start(s, c), c)
}

/// `s` without its leading and trailing `c`s.
pub fn strip_char_exec(s: &[char], c: char) -> (r: Vec<char>)
    ensures
        r@ == strip_char(s@, c),
{
    let mut a: usize = 0;
    assert(s@.skip(0) =~= s@);
    while a < s.len() && s[a] == c
        invariant
            a <= s.len(),
            strip_char_start(s@, c) == strip_char_start(s@.skip(a as int), c),
        decreases s.len() - a,
    {
        assert(s@.skip(a as int).drop_first() =~= s@.skip(a + 1));
        a += 1;
    }
    let ghost mid = s@.skip(a as int);
    assert(strip_char_start(s@, c) == mid);
    let mut b: usize = s.len();
    while b > a && s[b - 1] == c
        invariant
            a <= b <= s.len(),
            mid == s@.skip(a as int),
            strip_char_end(mid, c) == strip_char_end(s@.subrange(a as int, b as int), c),
        decreases b - a,
    {
        assert(s@.subrange(a as int, b as int).drop_last() =~= s@.subrange(a as int, b - 1));
        b -= 1;
    }
    assert(s@.subrange(a as int, s.len() as int) =~= mid);
    let mut r: Vec<char> = Vec::new();
    let mut k: usize = a;
    while k < b
        invariant
            a <= k <= b,
            b <= s.len(),
            r@ == s@.subrange(a as int, k as int),
        decreases b - k,
    {
        r.push(s[k]);
        assert(s@.subrange(a as int, k as int).push(s@[k as int]) =~= s@.subrange(a as int, k + 1));
        k += 1;
    }
    r
}

/// `s` with every trailing repetition of `p` removed (`str::trim_end_matches`
/// with a text).
pub open spec fn strip_suffix_all(s: Seq<char>, p: Seq<char>) -> Seq<char>
    decreases s.len(),
{
    if p.len() > 0 && ends_with(s, p) {
        strip_suffix_all(s.take(s.len() - p.len()), p)
    } else {
        s
    }
}

/// `s` with every trailing repetition of `p` removed.
pub fn strip_suffix_all_exec(s: &[char], p: &str) -> (r: Vec<char>)
    ensures
        r@ == strip_suffix_all(s@, p@),
{
    let pv = chars_of(p);
    let mut n: usize = s.len();
    assert(s@.take(n as int) =~= s@);
    loop
        invariant
            n <= s.len(),
            pv@ == p@,
            strip_suffix_all(s@, p@) == strip_suffix_all(s@.take(n as int), p@),
        ensures
            n <= s.len(),
            strip_suffix_all(s@, p@) == s@.take(n as int),
        decreases n,
    {
        let head = vstd::slice::slice_subrange(s, 0, n);
        assert(head@ =~= s@.take(n as int));
        if pv.len() == 0 || pv.len() > n || !ends_with_exec(head, pv.as_slice()) {
            break;
        }
        assert(s@.take(n as int).take(n - pv.len()) =~= s@.take(n - pv.len()));
        n -= pv.len();
    }
    let mut r: Vec<char> = Vec::new();
    let mut k: usize = 0;
    while k < n
        invariant
            k <= n <= s.len(),
            r@ == s@.take(k as int),
        decreases n - k,
    {
        r.push(s[k]);
        assert(s@.take(k as int).push(s@[k as int]) =~= s@.take(k + 1));
        k += 1;
    }
    r
}

/// `s` with every (non-overlapping, left to right) occurrence of `p`
/// removed (`str::replace` with an empty replacement).
pub open spec fn remove_all(s: Seq<char>, p: Seq<char>) -> Seq<char>
    decreases s.len(),
{
    match find(s, p) {
        Some(i) => if p.len() > 0 && 0 <= i && i + p.len() <= s.len() {
            s.take(i) + remove_all(s.skip(i + p.len()), p)
        } else {
            s
        },
        None => s,
    }
}

/// `s` with every occurrence of the non-empty `p` removed.
pub fn remove_all_exec(s: &[char], p: &str) -> (r: Vec<char>)
    requires
        p@.len() > 0,
    ensures
        r@ == remove_all(s@, p@),
    decreases s.len(),
{
    let pv = chars_of(p);
    match find_exec(s, pv.as_slice()) {
        Some(i) => {
            proof {
                lemma_find_some(s@, p@);
            }
            let mut r: Vec<char> = Vec::new();
            let mut k: usize = 0;
            while k < i
                invariant
                    k <= i,
                    i + pv@.len() <= s@.len(),
                    r@ == s@.take(k as int),
                decreases i - k,
            {
                r.push(s[k]);
                assert(s@.take(k as int).push(s@[k as int]) =~= s@.take(k + 1));
                k += 1;
            }
            let rest = vstd::slice::slice_subrange(s, i + pv.len(), s.len());
            assert(rest@ =~= s@.skip(i + pv@.len()));
            let tail = remove_all_exec(rest, p);
            let ghost head = r@;
            let mut t: usize = 0;
            while t < tail.len()
                invariant
                    t <= tail.len(),
                    r@ == head + tail@.take(t as int),
                decreases tail.len() - t,
            {
                r.push(tail[t]);
                assert(head + tail@.take(t as int) + seq![tail@[t as int]] =~= head + tail@.take(t + 1));
                t += 1;
            }
            assert(tail@.take(tail.len() as int) =~= tail@);
            r
        },
        None => {
            let mut r: Vec<char> = Vec::new();
            let mut k: usize = 0;
            while k < s.len()
                invariant
                    k <= s.len(),
                    r@ == s@.take(k as int),
                decreases s.len() - k,
            {
                r.push(s[k]);
                assert(s@.take(k as int).push(s@[k as int]) =~= s@.take(k + 1));
                k += 1;
            }
            assert(s@.take(s.len() as int) =~= s@);
            r
        },
    }
}

/// The Unicode lower-case mapping of a text (`str::to_lowercase`).
pub uninterp spec fn unicode_lower(s: Seq<char>) -> Seq<char>;

/// The Unicode upper-case mapping of a text (`str::to_uppercase`).
pub uninterp spec fn unicode_upper(s: Seq<char>) -> Seq<char>;

/// Unicode `Alphabetic` or `Numeric` property of a character
/// (`char::is_alphanumeric`).
pub uninterp spec fn unicode_alnum(c: char) -> bool;

/// Calls `str::to_lowercase`. The contract names the result, which std's
/// Unicode tables decide; of an ASCII text it claims what std documents:
/// each ASCII letter is mapped to its ASCII lower case, the rest is kept.
#[verifier::external_body]
pub(crate) fn to_lowercase(s: &str) -> (r: String)
    ensures
        r@ == unicode_lower(s@),
        all_ascii(s@) ==> r@ == ascii_lower(s@),
{
    s.to_lowercase()
}

/// Calls `str::to_uppercase`. The contract names the result, which std's
/// Unicode tables decide; of an ASCII text it claims what std documents:
/// each ASCII letter is mapped to its ASCII upper case, the rest is kept.
#[verifier::external_body]
pub(crate) fn to_uppercase(s: &str) -> (r: String)
    ensures
        r@ == unicode_upper(s@),
        all_ascii(s@) ==> r@ == ascii_upper(s@),
{
    s.to_uppercase()
}

/// Calls `char::is_alphanumeric`. The contract names the result; std's
/// Unicode tables decide it.
#[verifier::external_body]
pub(crate) fn is_alphanumeric(c: char) -> (r: bool)
    ensures
        r == unicode_alnum(c),
{
    c.is_alphanumeric()
}

} // verus!
