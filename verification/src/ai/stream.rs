//! Assembly of a streamed chat completion.
//!
//! A streamed reply arrives as server-sent events: lines of bytes, of which
//! those starting with `data:` carry a JSON chunk and `data: [DONE]` ends the
//! stream. Each chunk holds content deltas and tool-call fragments; fragments
//! with the same index belong to one call. The state kept here is the content
//! so far and the calls so far, ordered by index, each with its id, name and
//! argument text. The caller reads the transport, decodes each chunk's JSON
//! and hands the decoded deltas to [`StreamState::apply_delta`].

use vstd::prelude::*;
use vstd::string::*;
use vstd::utf8::*;
use vstd::std_specs::btree::increasing_seq;
use vstd::std_specs::iter::IteratorSpec;
use crate::ai::types::{ChatCompletion, ToolCallDelta};
use crate::text::{chars_of, eq_lit, starts_with, starts_with_exec, string_of, trim, trim_exec};

verus! {

/// One tool-call fragment of a streamed chunk.
#[derive(Debug, Clone)]
pub struct ChunkToolCall {
    pub index: usize,
    pub id: Option<String>,
    pub name: Option<String>,
    pub arguments: Option<String>,
}

/// The delta of one choice of a streamed chunk.
#[derive(Debug, Clone)]
pub struct ChunkDelta {
    pub content: Option<String>,
    pub tool_calls: Vec<ChunkToolCall>,
}

/// A tool call being assembled from its fragments.
#[derive(Debug, Clone)]
pub struct AccToolCall {
    pub id: String,
    pub name: String,
    pub arguments: String,
}

/// What one line of the event stream means.
#[derive(Debug, Clone)]
pub enum LineStep {
    /// Not a data line (comment, heartbeat, blank).
    Skip,
    /// The end marker `[DONE]`.
    Done,
    /// A data line with its payload.
    Payload(String),
}

// ---------------------------------------------------------------------------
// Model
// ---------------------------------------------------------------------------

/// A call being assembled, as plain values: id, name, arguments.
pub open spec fn acc_view(t: AccToolCall) -> (Seq<char>, Seq<char>, Seq<char>) {
    (t.id@, t.name@, t.arguments@)
}

/// The calls being assembled, by index, as plain values.
pub open spec fn calls_view(m: Map<usize, AccToolCall>) -> Map<usize, (Seq<char>, Seq<char>, Seq<char>)> {
    m.map_values(|t: AccToolCall| acc_view(t))
}

/// The text of an optional fragment field when it is present and non-empty.
pub open spec fn given(o: Option<String>) -> Option<Seq<char>> {
    match o {
        Some(x) => if x@.len() > 0 {
            Some(x@)
        } else {
            None
        },
        None => None,
    }
}

/// A call's (id, name, arguments) after one fragment: a non-empty id
/// replaces the old one; the first non-empty name is kept (later names are
/// ignored); arguments are appended.
pub open spec fn merged(
    id: Seq<char>,
    name: Seq<char>,
    args: Seq<char>,
    tc: ChunkToolCall,
) -> (Seq<char>, Seq<char>, Seq<char>) {
    (
        match given(tc.id) {
            Some(x) => x,
            None => id,
        },
        if name.len() > 0 {
            name
        } else {
            match given(tc.name) {
                Some(x) => x,
                None => name,
            }
        },
        match tc.arguments {
            Some(a) => args + a@,
            None => args,
        },
    )
}

/// The call at `index`, or an empty one when none has started there.
pub open spec fn slot_of(m: Map<usize, (Seq<char>, Seq<char>, Seq<char>)>, index: usize) -> (
    Seq<char>,
    Seq<char>,
    Seq<char>,
) {
    if m.contains_key(index) {
        m[index]
    } else {
        (Seq::empty(), Seq::empty(), Seq::empty())
    }
}

/// The calls after one fragment: the call of its index is merged (started
/// empty when new).
pub open spec fn upsert(
    m: Map<usize, (Seq<char>, Seq<char>, Seq<char>)>,
    tc: ChunkToolCall,
) -> Map<usize, (Seq<char>, Seq<char>, Seq<char>)> {
    let s = slot_of(m, tc.index);
    m.insert(tc.index, merged(s.0, s.1, s.2, tc))
}

/// The calls after the fragments `tcs`, in order.
pub open spec fn fold_fragments(
    m: Map<usize, (Seq<char>, Seq<char>, Seq<char>)>,
    tcs: Seq<ChunkToolCall>,
) -> Map<usize, (Seq<char>, Seq<char>, Seq<char>)>
    decreases tcs.len(),
{
    if tcs.len() == 0 {
        m
    } else {
        upsert(fold_fragments(m, tcs.drop_last()), tcs.last())
    }
}

/// `ks` lists the keys of `dom` in increasing order.
pub open spec fn keys_in_order(ks: Seq<usize>, dom: Set<usize>) -> bool {
    &&& forall|i: int, j: int| 0 <= i < j < ks.len() ==> ks[i] < ks[j]
    &&& forall|k: usize| #[trigger] dom.contains(k) <==> ks.contains(k)
}

/// A tool call as plain values: id, name, arguments.
pub open spec fn call_view(t: ToolCallDelta) -> (Seq<char>, Seq<char>, Seq<char>) {
    (t.id@, t.name@, t.arguments@)
}

/// Tool calls as plain values.
pub open spec fn call_views(s: Seq<ToolCallDelta>) -> Seq<(Seq<char>, Seq<char>, Seq<char>)> {
    s.map_values(|t: ToolCallDelta| call_view(t))
}

/// The calls in the given order, without those whose name is blank.
pub open spec fn named_calls(s: Seq<(Seq<char>, Seq<char>, Seq<char>)>) -> Seq<
    (Seq<char>, Seq<char>, Seq<char>),
>
    decreases s.len(),
{
    if s.len() == 0 {
        Seq::empty()
    } else {
        let r = named_calls(s.drop_last());
        let l = s.last();
        if trim(l.1).len() > 0 {
            r.push(l)
        } else {
            r
        }
    }
}

/// `calls` lists the named calls of `m` in increasing index order.
pub open spec fn in_index_order(
    calls: Seq<(Seq<char>, Seq<char>, Seq<char>)>,
    m: Map<usize, (Seq<char>, Seq<char>, Seq<char>)>,
) -> bool {
    exists|ks: Seq<usize>|
        #[trigger] keys_in_order(ks, m.dom()) && calls == named_calls(
            ks.map_values(|k: usize| m[k]),
        )
}

/// The payload of an event-stream line, if it is a data line.
pub open spec fn sse_payload(line: Seq<char>) -> Option<Seq<char>> {
    let t = trim(line);
    if starts_with(t, "data:"@) {
        Some(trim(t.skip(5)))
    } else {
        None
    }
}

/// Lines joined back with a newline after each.
pub open spec fn joined_lines(ls: Seq<Seq<u8>>) -> Seq<u8>
    decreases ls.len(),
{
    if ls.len() == 0 {
        Seq::empty()
    } else {
        joined_lines(ls.drop_last()) + ls.last() + seq![10u8]
    }
}

/// The byte sequences of a list of byte vectors.
pub open spec fn byte_views(v: Seq<Vec<u8>>) -> Seq<Seq<u8>> {
    v.map_values(|b: Vec<u8>| b@)
}

/// What `String::from_utf8_lossy` makes of a byte sequence.
pub uninterp spec fn lossy_utf8(b: Seq<u8>) -> Seq<char>;

// ---------------------------------------------------------------------------
// Lemmas
// ---------------------------------------------------------------------------

// ---------------------------------------------------------------------------
// Trusted conversion
// ---------------------------------------------------------------------------

/// Decodes a line of bytes with `String::from_utf8_lossy`, which std documents
/// to give the text itself for valid UTF-8 (and U+FFFD for invalid bytes).
#[verifier::external_body]
fn lossy_text(bytes: &[u8]) -> (r: String)
    ensures
        r@ == lossy_utf8(bytes@),
        valid_utf8(bytes@) ==> r@ == decode_utf8(bytes@),
{
    String::from_utf8_lossy(bytes).into_owned()
}

// ---------------------------------------------------------------------------
// Line splitting
// ---------------------------------------------------------------------------

/// Takes the complete lines (each without its `\n`) off the front of `buf`;
/// the bytes after the last `\n` stay in `buf` for the next read.
pub fn take_lines(buf: &mut Vec<u8>) -> (lines: Vec<Vec<u8>>)
    ensures
        joined_lines(byte_views(lines@)) + final(buf)@ == old(buf)@,
        forall|i: int| 0 <= i < lines@.len() ==> !(#[trigger] lines@[i]@).contains(10u8),
        !final(buf)@.contains(10u8),
{
    let ghost b = buf@;
    let mut lines: Vec<Vec<u8>> = Vec::new();
    let mut cur: Vec<u8> = Vec::new();
    let mut i: usize = 0;
    let n = buf.len();
    while i < n
        invariant
            n == buf@.len(),
            b == buf@,
            i <= n,
            joined_lines(byte_views(lines@)) + cur@ == b.take(i as int),
            forall|t: int| 0 <= t < lines@.len() ==> !(#[trigger] lines@[t]@).contains(10u8),
            !cur@.contains(10u8),
        decreases n - i,
    {
        let c = buf[i];
        if c == 10u8 {
            let ghost old_lines = lines@;
            lines.push(cur);
            cur = Vec::new();
            proof {
                assert(byte_views(lines@).drop_last() =~= byte_views(old_lines));
                assert(b.take(i + 1) =~= b.take(i as int) + seq![10u8]);
            }
        } else {
            let ghost old_cur = cur@;
            cur.push(c);
            proof {
                assert(b.take(i + 1) =~= b.take(i as int) + seq![c]);
                assert(cur@ =~= old_cur + seq![c]);
                assert(!cur@.contains(10u8)) by {
                    if cur@.contains(10u8) {
                        let k = choose|k: int| 0 <= k < cur@.len() && cur@[k] == 10u8;
                        if k < old_cur.len() {
                            assert(old_cur[k] == 10u8);
                        }
                    }
                }
            }
        }
        i += 1;
    }
    assert(b.take(n as int) =~= b);
    *buf = cur;
    lines
}

// ---------------------------------------------------------------------------
// Stream state
// ---------------------------------------------------------------------------

/// The content and tool calls accumulated so far, and whether any data line
/// has been seen. The calls are kept by index.
pub struct StreamState {
    pub content: String,
    pub calls: std::collections::BTreeMap<usize, AccToolCall>,
    pub saw_data_line: bool,
}

/// Merges one fragment into a slot.
fn merge_slot(slot: AccToolCall, tc: ChunkToolCall) -> (r: AccToolCall)
    ensures
        acc_view(r) == merged(slot.id@, slot.name@, slot.arguments@, tc),
{
    let id = match tc.id {
        Some(x) => if x.as_str().is_empty() {
            slot.id
        } else {
            x
        },
        None => slot.id,
    };
    let name = if !slot.name.as_str().is_empty() {
        slot.name
    } else {
        match tc.name {
            Some(x) => if x.as_str().is_empty() {
                slot.name
            } else {
                x
            },
            None => slot.name,
        }
    };
    let mut arguments = slot.arguments;
    match tc.arguments {
        Some(a) => {
            arguments.append(a.as_str());
        },
        None => {},
    }
    AccToolCall { id, name, arguments }
}

/// Folds one fragment into the call of its index, starting an empty call
/// when none has started there.
fn upsert_call(calls: &mut std::collections::BTreeMap<usize, AccToolCall>, tc: ChunkToolCall)
    ensures
        calls_view(final(calls)@) == upsert(calls_view(old(calls)@), tc),
{
    broadcast use vstd::std_specs::btree::group_btree_axioms;
    proof {
        lemma_usize_ordered();
    }
    let ghost before = calls@;
    let idx = tc.index;
    let slot = match calls.remove(&idx) {
        Some(s) => s,
        None => AccToolCall { id: String::new(), name: String::new(), arguments: String::new() },
    };
    proof {
        let s = slot_of(calls_view(before), idx);
        assert(before.contains_key(idx) ==> before[idx] == slot);
        assert((slot.id@, slot.name@, slot.arguments@) == s);
    }
    let m = merge_slot(slot, tc);
    calls.insert(idx, m);
    proof {
        assert(calls@ == before.remove(idx).insert(idx, m));
        assert(calls_view(calls@) =~= upsert(calls_view(before), tc));
    }
}

impl StreamState {
    /// The state before any line.
    pub fn new() -> (r: StreamState)
        ensures
            r.content@ == Seq::<char>::empty(),
            r.calls@ == Map::<usize, AccToolCall>::empty(),
            !r.saw_data_line,
    {
        StreamState {
            content: String::new(),
            calls: std::collections::BTreeMap::new(),
            saw_data_line: false,
        }
    }

    /// Reads one line of the event stream: a data line is marked as seen and
    /// its payload returned, `[DONE]` as the end marker.
    pub fn read_line(&mut self, line: &[u8]) -> (r: LineStep)
        ensures
            final(self).content == old(self).content,
            final(self).calls == old(self).calls,
            match sse_payload(lossy_utf8(line@)) {
                None => r is Skip && final(self).saw_data_line == old(self).saw_data_line,
                Some(p) => final(self).saw_data_line && if p == "[DONE]"@ {
                    r is Done
                } else {
                    r matches LineStep::Payload(x) && x@ == p
                },
            },
    {
        let text = lossy_text(line);
        let chars = chars_of(text.as_str());
        let t = trim_exec(chars.as_slice());
        let prefix = chars_of("data:");
        if !starts_with_exec(t.as_slice(), prefix.as_slice()) {
            return LineStep::Skip;
        }
        proof {
            reveal_strlit("data:");
        }
        self.saw_data_line = true;
        let rest = vstd::slice::slice_subrange(t.as_slice(), 5, t.len());
        assert(rest@ =~= t@.skip(5));
        let payload = trim_exec(rest);
        if eq_lit(payload.as_slice(), "[DONE]") {
            LineStep::Done
        } else {
            LineStep::Payload(string_of(payload.as_slice()))
        }
    }

    /// Applies the delta of one choice: a non-empty content piece is appended
    /// and returned for display, each tool-call fragment is folded into the
    /// call of its index.
    pub fn apply_delta(&mut self, d: ChunkDelta) -> (emitted: Option<String>)
        ensures
            final(self).saw_data_line == old(self).saw_data_line,
            match given(d.content) {
                Some(c) => {
                    &&& final(self).content@ == old(self).content@ + c
                    &&& emitted matches Some(x) && x@ == c
                },
                None => final(self).content@ == old(self).content@ && emitted is None,
            },
            calls_view(final(self).calls@) == fold_fragments(
                calls_view(old(self).calls@),
                d.tool_calls@,
            ),
    {
        let ghost tcs = d.tool_calls@;
        let emitted = match d.content {
            Some(c) => if c.as_str().is_empty() {
                None
            } else {
                self.content.append(c.as_str());
                Some(c)
            },
            None => None,
        };
        let ghost s0 = calls_view(self.calls@);
        let mut frags = d.tool_calls;
        let mut calls = std::collections::BTreeMap::new();
        std::mem::swap(&mut calls, &mut self.calls);
        let n = frags.len();
        let mut i: usize = 0;
        while i < n
            invariant
                n == tcs.len(),
                i <= n,
                frags@ == tcs.skip(i as int),
                calls_view(calls@) == fold_fragments(s0, tcs.take(i as int)),
            decreases n - i,
        {
            let tc = frags.remove(0);
            proof {
                assert(tcs.take(i + 1).drop_last() =~= tcs.take(i as int));
                assert(tcs.skip(i as int).drop_first() =~= tcs.skip(i + 1));
            }
            upsert_call(&mut calls, tc);
            i += 1;
        }
        assert(tcs.take(n as int) =~= tcs);
        self.calls = calls;
        emitted
    }

    /// The completion once the stream has ended without `[DONE]`: a stream
    /// that never carried a data line, content or call is not an event
    /// stream at all.
    pub fn end_of_stream(self) -> (r: Result<ChatCompletion, String>)
        ensures
            (!self.saw_data_line && self.content@.len() == 0 && self.calls@.is_empty())
                <==> r is Err,
            r matches Ok(c) ==> completed(c, self.content@, calls_view(self.calls@)),
            r matches Err(e) ==> e@
                == "LLM 流式响应不是 SSE 格式（未收到任何 data 行），请检查 Provider 的流式兼容性"@,
    {
        if !self.saw_data_line && self.content.as_str().is_empty() && self.calls.is_empty() {
            Err(
                String::from_str(
                    "LLM 流式响应不是 SSE 格式（未收到任何 data 行），请检查 Provider 的流式兼容性",
                ),
            )
        } else {
            finish_stream(self.content, self.calls)
        }
    }
}

/// `c` is the completion made of the streamed content and calls: no content
/// when none came, the named calls in increasing index order, no usage, no
/// finish reason.
pub open spec fn completed(
    c: ChatCompletion,
    content: Seq<char>,
    calls: Map<usize, (Seq<char>, Seq<char>, Seq<char>)>,
) -> bool {
    &&& (if content.len() == 0 {
        c.content is None
    } else {
        c.content matches Some(x) && x@ == content
    })
    &&& in_index_order(call_views(c.tool_calls@), calls)
    &&& c.usage_tokens == 0
    &&& c.finish_reason is None
}

/// The completion of a finished stream: the accumulated content (none when
/// empty) and the accumulated calls in index order, those with a blank name
/// dropped.
pub fn finish_stream(
    content_acc: String,
    acc: std::collections::BTreeMap<usize, AccToolCall>,
) -> (r: Result<ChatCompletion, String>)
    ensures
        r matches Ok(c) && completed(c, content_acc@, calls_view(acc@)),
{
    broadcast use vstd::std_specs::btree::group_btree_axioms;
    proof {
        lemma_usize_ordered();
    }
    let mut calls: Vec<ToolCallDelta> = Vec::new();
    let iter = acc.iter();
    let ghost s0 = iter.remaining();
    let ghost ks = s0.map_values(|kv: (&usize, &AccToolCall)| *kv.0);
    let ghost vs = s0.map_values(|kv: (&usize, &AccToolCall)| acc_view(*kv.1));
    for p in it: iter
        invariant
            it.seq() == s0,
            vs == s0.map_values(|kv: (&usize, &AccToolCall)| acc_view(*kv.1)),
            call_views(calls@) == named_calls(vs.take(it.index() as int)),
    {
        let (_k, t) = p;
        let ghost j = it.index();
        proof {
            assert(vs.take(j + 1).drop_last() =~= vs.take(j));
            assert(vs[j] == acc_view(*t));
        }
        let name_chars = chars_of(t.name.as_str());
        let trimmed = trim_exec(name_chars.as_slice());
        if trimmed.len() > 0 {
            let ghost cv = call_views(calls@);
            calls.push(
                ToolCallDelta { id: t.id.clone(), name: t.name.clone(), arguments: t.arguments.clone() },
            );
            assert(call_views(calls@) =~= cv.push(call_view(calls@.last())));
        }
    }
    assert(vs.take(vs.len() as int) =~= vs);
    proof {
        lemma_iter_in_order(&acc, s0, ks, vs);
    }
    let content = if content_acc.as_str().is_empty() {
        None
    } else {
        Some(content_acc)
    };
    Ok(ChatCompletion { content, tool_calls: calls, usage_tokens: 0, finish_reason: None })
}

/// What a walk over a map of calls yields, in the order of the walk, lists
/// the calls in increasing index order.
proof fn lemma_iter_in_order(
    acc: &std::collections::BTreeMap<usize, AccToolCall>,
    s0: Seq<(&usize, &AccToolCall)>,
    ks: Seq<usize>,
    vs: Seq<(Seq<char>, Seq<char>, Seq<char>)>,
)
    requires
        s0 == vstd::std_specs::btree::spec_btree_map_iter(acc).remaining(),
        increasing_seq(ks),
        ks == s0.map_values(|kv: (&usize, &AccToolCall)| *kv.0),
        vs == s0.map_values(|kv: (&usize, &AccToolCall)| acc_view(*kv.1)),
    ensures
        in_index_order(named_calls(vs), calls_view(acc@)),
{
    broadcast use vstd::std_specs::btree::group_btree_axioms;
    lemma_increasing_keys(ks);
    let m = calls_view(acc@);
    assert forall|k: usize| #[trigger] m.dom().contains(k) <==> ks.contains(k) by {
        if acc@.contains_key(k) {
            assert(s0.contains((&k, &acc@[k])));
            let x = choose|x: int| 0 <= x < s0.len() && s0[x] == (&k, &acc@[k]);
            assert(ks[x] == k);
        }
        if ks.contains(k) {
            let x = choose|x: int| 0 <= x < ks.len() && ks[x] == k;
            assert(acc@.contains_key(*s0[x].0));
        }
    }
    assert(keys_in_order(ks, m.dom()));
    assert(ks.map_values(|k: usize| m[k]) =~= vs) by {
        assert forall|i: int| 0 <= i < vs.len() implies ks.map_values(|k: usize| m[k])[i] == vs[i] by {
            assert(acc@.contains_key(*s0[i].0) && acc@[*s0[i].0] == *s0[i].1);
        }
    }
}

/// Keys a map yields in increasing order strictly increase.
proof fn lemma_increasing_keys(ks: Seq<usize>)
    requires
        increasing_seq(ks),
    ensures
        forall|i: int, j: int| 0 <= i < j < ks.len() ==> ks[i] < ks[j],
{
    broadcast use vstd::std_specs::btree::group_btree_axioms;
    lemma_usize_ordered();
    assert forall|i: int, j: int| 0 <= i < j < ks.len() implies ks[i] < ks[j] by {
        assert(vstd::std_specs::cmp::OrdSpec::cmp_spec(&ks[i], &ks[j]) is Less);
    }
}

/// `usize` keys are ordered as integers.
proof fn lemma_usize_ordered()
    ensures
        vstd::laws_cmp::obeys_cmp::<usize>(),
{
    broadcast use vstd::laws_cmp::group_laws_cmp;
}

} // verus!
