//! The decisions of a streamed chat completion against the model server: when a
//! failed request is retried, how the event stream is cut into lines and payloads,
//! and how streamed pieces of answer, reasoning and tool calls add up to one
//! completion. Sending the request and reading the stream are the caller's.
use vstd::prelude::*;

use std::collections::BTreeMap;

use crate::models::{CompletionResult, FunctionCall, ToolCall};
use crate::text::{
    chars_of, decimal, has_sub, push_str, string_of, string_of_range, starts_with, to_string,
    trim,
};

verus! {

broadcast use vstd::std_specs::btree::group_btree_axioms, vstd::laws_cmp::group_laws_cmp;

/// Requests per completion, the first included.
pub const MAX_ATTEMPTS: u32 = 3;

/// A failure that a new generation may not repeat: the server could not parse the
/// tool-call arguments the model wrote (HTTP 500).
pub open spec fn retryable(status: u16, body: Seq<char>) -> bool {
    status == 500 && has_sub(body, "Failed to parse tool call"@)
}

/// Whether a failed request is worth sending again.
pub fn is_retryable_generation_error(status: u16, body: &str) -> (r: bool)
    ensures
        r == retryable(status, body@),
{
    status == 500 && crate::text::contains(body, "Failed to parse tool call")
}

/// What to do with the server's answer to a request.
pub enum ResponseAction {
    /// Read the event stream.
    Stream,
    /// Send the request again.
    Retry,
    /// Give up with this error.
    Fail(String),
}

/// The answer to attempt `attempt` (from 1): stream it when it succeeded, retry a
/// retryable failure while attempts are left, else fail with the status (as the
/// HTTP library prints it) and the body.
pub fn response_action(attempt: u32, success: bool, status: u16, status_text: &str, body: &str) -> (r:
    ResponseAction)
    ensures
        success ==> r is Stream,
        !success && attempt < MAX_ATTEMPTS && retryable(status, body@) ==> r is Retry,
        !success && !(attempt < MAX_ATTEMPTS && retryable(status, body@)) ==> (r matches ResponseAction::Fail(
            m,
        ) && m@ == "llama-server 오류 "@ + status_text@ + ": "@ + body@),
{
    if success {
        return ResponseAction::Stream;
    }
    if attempt < MAX_ATTEMPTS && is_retryable_generation_error(status, body) {
        return ResponseAction::Retry;
    }
    let mut m = to_string("llama-server 오류 ");
    push_str(&mut m, status_text);
    push_str(&mut m, ": ");
    push_str(&mut m, body);
    ResponseAction::Fail(m)
}

// ---------------------------------------------------------------------------
// Event stream
// ---------------------------------------------------------------------------

/// Takes the first complete line off the stream buffer (up to the first line
/// break, which is dropped), trimmed; `None` while no line is complete.
pub fn take_line(buf: &mut String) -> (r: Option<String>)
    ensures
        !old(buf)@.contains('\n') ==> r is None && final(buf)@ == old(buf)@,
        old(buf)@.contains('\n') ==> ({
            let p = first_newline(old(buf)@);
            &&& r matches Some(l) && l@ == trim(old(buf)@.take(p))
            &&& final(buf)@ == old(buf)@.skip(p + 1)
        }),
{
    let v = chars_of(buf.as_str());
    let mut i: usize = 0;
    while i < v.len() && v[i] != '\n'
        invariant
            i <= v@.len(),
            v@ == old(buf)@,
            buf@ == old(buf)@,
            forall|j: int| 0 <= j < i ==> v@[j] != '\n',
        decreases v.len() - i,
    {
        i += 1;
    }
    if i == v.len() {
        assert(!v@.contains('\n'));
        return None;
    }
    proof {
        lemma_first_newline(v@, i as int);
    }
    let line = crate::fallback::trim_chars(crate::paths::slice_to_vec(v.as_slice(), 0, i).as_slice());
    assert(v@.subrange(0, i as int) =~= v@.take(i as int));
    let rest = string_of_range(v.as_slice(), i + 1, v.len());
    assert(v@.subrange(i + 1, v@.len() as int) =~= v@.skip(i + 1));
    *buf = rest;
    Some(string_of(line.as_slice()))
}

/// Position of the first line break.
pub open spec fn first_newline(s: Seq<char>) -> int
    decreases s.len(),
{
    if s.len() == 0 {
        0
    } else if s.last() == '\n' && !s.drop_last().contains('\n') {
        s.len() - 1
    } else {
        first_newline(s.drop_last())
    }
}

proof fn lemma_first_newline(s: Seq<char>, i: int)
    requires
        0 <= i < s.len(),
        s[i] == '\n',
        forall|j: int| 0 <= j < i ==> s[j] != '\n',
    ensures
        first_newline(s) == i,
    decreases s.len(),
{
    if s.len() - 1 == i {
        assert(!s.drop_last().contains('\n')) by {
            if s.drop_last().contains('\n') {
                let j = choose|j: int| 0 <= j < s.drop_last().len() && s.drop_last()[j] == '\n';
                assert(s[j] == '\n');
            }
        }
    } else {
        assert(s.drop_last()[i] == '\n');
        lemma_first_newline(s.drop_last(), i);
        assert(s.drop_last().contains('\n'));
    }
}

/// The JSON payload of a stream line: what follows `data: `, except the end marker
/// `[DONE]`.
pub open spec fn payload_spec(line: Seq<char>) -> Option<Seq<char>> {
    if starts_with(line, "data: "@) && line.skip(6) != "[DONE]"@ {
        Some(line.skip(6))
    } else {
        None
    }
}

/// The JSON payload of a stream line, if it carries one.
pub fn sse_payload(line: &str) -> (r: Option<String>)
    ensures
        match r {
            Some(p) => payload_spec(line@) == Some(p@),
            None => payload_spec(line@) is None,
        },
{
    let v = chars_of(line);
    let prefix = chars_of("data: ");
    proof {
        reveal_strlit("data: ");
    }
    if !crate::text::starts_with_chars(v.as_slice(), prefix.as_slice()) {
        return None;
    }
    let rest = crate::paths::slice_to_vec(v.as_slice(), 6, v.len());
    assert(rest@ =~= v@.skip(6));
    let p = string_of(rest.as_slice());
    if crate::text::text_eq(p.as_str(), "[DONE]") {
        return None;
    }
    Some(p)
}

} // verus!

verus! {

// ---------------------------------------------------------------------------
// Accumulating a completion
// ---------------------------------------------------------------------------

/// A streamed piece of one tool call.
pub struct CallDelta {
    /// Which call of the completion the piece belongs to.
    pub index: u64,
    pub id: Option<String>,
    pub name: Option<String>,
    pub arguments: Option<String>,
}

/// One streamed piece of a completion.
pub struct StreamDelta {
    pub reasoning: Option<String>,
    pub content: Option<String>,
    pub tool_calls: Vec<CallDelta>,
}

pub open spec fn opt_text(o: Option<String>) -> Seq<char> {
    match o {
        Some(s) => s@,
        None => Seq::empty(),
    }
}

/// The id, name and arguments gathered for one call.
pub type Pieces = (Seq<char>, Seq<char>, Seq<char>);

/// The pieces of a call with one more delta appended.
pub open spec fn add_pieces(old: Option<Pieces>, d: CallDelta) -> Pieces {
    let (a, b, c) = match old {
        Some(t) => t,
        None => (Seq::empty(), Seq::empty(), Seq::empty()),
    };
    (a + opt_text(d.id), b + opt_text(d.name), c + opt_text(d.arguments))
}

/// The pieces gathered for call `k`, if any came.
pub open spec fn pieces_at(m: Map<u64, Pieces>, k: u64) -> Option<Pieces> {
    if m.contains_key(k) {
        Some(m[k])
    } else {
        None
    }
}

/// `ks` lists the keys of `dom`, each once, in increasing order.
pub open spec fn keys_in_order(ks: Seq<u64>, dom: Set<u64>) -> bool {
    &&& forall|i: int, j: int| 0 <= i < j < ks.len() ==> ks[i] < ks[j]
    &&& forall|i: int| 0 <= i < ks.len() ==> dom.contains(#[trigger] ks[i])
    &&& forall|k: u64| dom.contains(k) ==> #[trigger] ks.contains(k)
}

/// Tool calls assembled from streamed pieces, by call index.
pub struct CallAccumulator {
    entries: BTreeMap<u64, (String, String, String)>,
}

impl View for CallAccumulator {
    type V = Map<u64, Pieces>;

    closed spec fn view(&self) -> Map<u64, Pieces> {
        self.entries@.map_values(|t: (String, String, String)| (t.0@, t.1@, t.2@))
    }
}

fn append_opt(s: &mut String, o: &Option<String>)
    ensures
        final(s)@ == old(s)@ + opt_text(*o),
{
    match o {
        Some(t) => push_str(s, t.as_str()),
        None => {
            assert(old(s)@ + Seq::<char>::empty() =~= old(s)@);
        },
    }
}

impl CallAccumulator {
    /// No call yet.
    pub fn new() -> (acc: CallAccumulator)
        ensures
            acc@ == Map::<u64, Pieces>::empty(),
    {
        let acc = CallAccumulator { entries: BTreeMap::new() };
        assert(acc@ =~= Map::<u64, Pieces>::empty());
        acc
    }

    /// Appends a streamed piece to its call (a call starts at its first piece).
    pub fn add(&mut self, d: &CallDelta)
        ensures
            final(self)@ == old(self)@.insert(d.index, add_pieces(pieces_at(old(self)@, d.index), *d)),
    {
        let ghost m0 = self.entries@;
        let (mut id, mut name, mut args) = match self.entries.get(&d.index) {
            Some(t) => (t.0.clone(), t.1.clone(), t.2.clone()),
            None => (String::new(), String::new(), String::new()),
        };
        proof {
            if !m0.contains_key(d.index) {
                assert(Seq::<char>::empty() + opt_text(d.id) =~= opt_text(d.id));
                assert(Seq::<char>::empty() + opt_text(d.name) =~= opt_text(d.name));
                assert(Seq::<char>::empty() + opt_text(d.arguments) =~= opt_text(d.arguments));
            }
        }
        append_opt(&mut id, &d.id);
        append_opt(&mut name, &d.name);
        append_opt(&mut args, &d.arguments);
        self.entries.insert(d.index, (id, name, args));
        assert(self@ =~= old(self)@.insert(
            d.index,
            add_pieces(pieces_at(old(self)@, d.index), *d),
        ));
    }
}

} // verus!

verus! {

/// The tool call made of the pieces gathered for index `k`; a call whose id never
/// came is named `call_<index>`.
pub open spec fn call_of(k: u64, p: Pieces) -> crate::models::ToolCallView {
    crate::models::ToolCallView {
        id: if p.0.len() == 0 {
            "call_"@ + decimal(k as nat)
        } else {
            p.0
        },
        call_type: "function"@,
        function: crate::models::FunctionCallView { name: p.1, arguments: p.2 },
    }
}

/// Keys that a map iterator hands out in increasing order are increasing as numbers.
proof fn lemma_increasing_keys(ks: Seq<u64>)
    requires
        vstd::std_specs::btree::increasing_seq(ks),
    ensures
        forall|i: int, j: int| 0 <= i < j < ks.len() ==> ks[i] < ks[j],
{
    assert(vstd::laws_cmp::obeys_cmp::<u64>());
    assert forall|i: int, j: int| 0 <= i < j < ks.len() implies ks[i] < ks[j] by {
        assert(vstd::std_specs::cmp::OrdSpec::cmp_spec(&ks[i], &ks[j]) is Less);
    }
}

impl CallAccumulator {
    /// The assembled calls, in increasing order of their index.
    pub fn calls(&self) -> (r: Vec<ToolCall>)
        ensures
            exists|ks: Seq<u64>|
                #[trigger] keys_in_order(ks, self@.dom()) && crate::models::calls_view(r@)
                    == ks.map_values(|k: u64| call_of(k, self@[k])),
    {
        let ghost m = self@;
        let ghost all = vstd::std_specs::iter::IteratorSpec::remaining(
            &vstd::std_specs::btree::spec_btree_map_iter(&self.entries),
        );
        let ghost ks = all.map_values(|kv: (&u64, &(String, String, String))| *kv.0);
        let mut r: Vec<ToolCall> = Vec::new();
        for kv in it: self.entries.iter()
            invariant
                m == self@,
                it.seq() == all,
                ks == all.map_values(|kv: (&u64, &(String, String, String))| *kv.0),
                vstd::std_specs::btree::increasing_seq(ks),
                forall|i: int|
                    0 <= i < all.len() ==> self.entries@.contains_key(*(#[trigger] all[i]).0)
                        && self.entries@[*all[i].0] == *all[i].1,
                crate::models::calls_view(r@) == ks.take(it.index() as int).map_values(
                    |k: u64| call_of(k, m[k]),
                ),
        {
            let (k, v) = kv;
            let id = if chars_of(v.0.as_str()).len() == 0 {
                let mut t = to_string("call_");
                let num = crate::text::u64_to_string(*k);
                push_str(&mut t, num.as_str());
                t
            } else {
                v.0.clone()
            };
            let c = ToolCall {
                id,
                call_type: crate::models::default_tool_type(),
                function: FunctionCall { name: v.1.clone(), arguments: v.2.clone() },
            };
            let ghost before = crate::models::calls_view(r@);
            let ghost n = it.index();
            r.push(c);
            proof {
                assert(kv == all[n]);
                assert(ks[n] == *k);
                assert(m[*k] == (v.0@, v.1@, v.2@));
                assert(crate::models::calls_view(r@) =~= before.push(call_of(*k, m[*k])));
                assert(ks.take(n + 1).map_values(|k: u64| call_of(k, m[k])) =~= ks.take(
                    n,
                ).map_values(|k: u64| call_of(k, m[k])).push(call_of(*k, m[*k])));
            }
        }
        proof {
            lemma_increasing_keys(ks);
            assert(ks.take(ks.len() as int) =~= ks);
            assert forall|i: int| 0 <= i < ks.len() implies m.dom().contains(#[trigger] ks[i]) by {
                assert(self.entries@.contains_key(*all[i].0));
            }
            assert forall|k: u64| m.dom().contains(k) implies #[trigger] ks.contains(k) by {
                assert(self.entries@.contains_key(k));
                assert(all.contains((&k, &self.entries@[k])));
                let i = choose|i: int| 0 <= i < all.len() && all[i] == (&k, &self.entries@[k]);
                assert(ks[i] == k);
            }
            assert(keys_in_order(ks, m.dom()));
        }
        r
    }
}

/// A completion being read from the stream.
pub struct StreamState {
    pub content: String,
    pub reasoning: String,
    pub calls: CallAccumulator,
}

impl StreamState {
    /// Nothing read yet.
    pub fn new() -> (st: StreamState)
        ensures
            st.content@ == Seq::<char>::empty(),
            st.reasoning@ == Seq::<char>::empty(),
            st.calls@ == Map::<u64, Pieces>::empty(),
    {
        StreamState { content: String::new(), reasoning: String::new(), calls: CallAccumulator::new() }
    }

    /// Adds the tool-call pieces of one delta, in order.
    pub fn add_calls(&mut self, ds: &Vec<CallDelta>)
        ensures
            forall|k: u64|
                #[trigger] pieces_at(final(self).calls@, k) == add_all(
                    pieces_at(old(self).calls@, k),
                    ds@,
                    k,
                ),
            final(self).content@ == old(self).content@,
            final(self).reasoning@ == old(self).reasoning@,
    {
        let ghost s0 = self.calls@;
        let mut i: usize = 0;
        while i < ds.len()
            invariant
                i <= ds@.len(),
                forall|k: u64|
                    #[trigger] pieces_at(self.calls@, k) == add_all(
                        pieces_at(s0, k),
                        ds@.take(i as int),
                        k,
                    ),
                self.content@ == old(self).content@,
                self.reasoning@ == old(self).reasoning@,
                s0 == old(self).calls@,
            decreases ds.len() - i,
        {
            let ghost before = self.calls@;
            self.calls.add(&ds[i]);
            assert forall|k: u64| #[trigger] pieces_at(self.calls@, k) == add_all(
                pieces_at(s0, k),
                ds@.take(i + 1),
                k,
            ) by {
                assert(ds@.take(i + 1).drop_last() =~= ds@.take(i as int));
                assert(pieces_at(before, k) == add_all(pieces_at(s0, k), ds@.take(i as int), k));
            }
            i += 1;
        }
        assert(ds@.take(ds@.len() as int) =~= ds@);
    }

    /// The completion read; the tool calls in increasing order of their index.
    pub fn finish(self) -> (r: CompletionResult)
        ensures
            r.content@ == self.content@,
            r.reasoning@ == self.reasoning@,
            exists|ks: Seq<u64>|
                #[trigger] keys_in_order(ks, self.calls@.dom()) && crate::models::calls_view(
                    r.tool_calls@,
                ) == ks.map_values(|k: u64| call_of(k, self.calls@[k])),
    {
        let tool_calls = self.calls.calls();
        CompletionResult { content: self.content, reasoning: self.reasoning, tool_calls }
    }
}

/// The pieces of call `k` after the deltas `ds`, in order.
pub open spec fn add_all(start: Option<Pieces>, ds: Seq<CallDelta>, k: u64) -> Option<Pieces>
    decreases ds.len(),
{
    if ds.len() == 0 {
        start
    } else {
        let r = add_all(start, ds.drop_last(), k);
        if ds.last().index == k {
            Some(add_pieces(r, ds.last()))
        } else {
            r
        }
    }
}

} // verus!
