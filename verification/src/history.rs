//! Keeping a conversation inside the model's context: old tool results are
//! shortened, then the oldest turns are folded into one-line digests kept at the
//! end of the system prompt. The most recent turns always stay verbatim.
use vstd::prelude::*;

use crate::localsearch::{lines_spec, split_lines};
use crate::models::{
    content_or_empty, copy_opt_string, msgs_view, ChatMessage, MessageView, Role, ToolCallView,
};
use crate::text::{
    chars_of, collapse_state, collapse_whitespace, collapse_ws, find_chars, find_spec, is_ws,
    first_sub_at, has_sub, push_chars, push_str, string_of, string_of_range, sub_at, trim_end,
    trim_end_len,
};

verus! {

/// Marker of the digest section at the end of the system prompt.
pub const DIGEST_MARKER: &'static str = "[이전 대화 요약]";

/// Number of most recent user turns kept verbatim (the current one included).
pub const KEEP_RECENT_TURNS: usize = 3;

/// Upper bound of the digest section (older lines are dropped first).
pub const DIGEST_MAX_CHARS: usize = 1600;

// ---------------------------------------------------------------------------
// Sizes
// ---------------------------------------------------------------------------

pub open spec fn sat(n: nat) -> nat {
    if n > usize::MAX {
        usize::MAX as nat
    } else {
        n
    }
}

pub open spec fn calls_chars(cs: Seq<ToolCallView>) -> nat
    decreases cs.len(),
{
    if cs.len() == 0 {
        0
    } else {
        calls_chars(cs.drop_last()) + crate::text::utf8_len(cs.last().function.name)
            + cs.last().function.arguments.len()
    }
}

/// Size of a message: characters of its content, plus, per tool call, the bytes of
/// the function name and the characters of the arguments.
pub open spec fn msg_chars(m: MessageView) -> nat {
    content_or_empty(m).len() + match m.tool_calls {
        Some(cs) => calls_chars(cs),
        None => 0,
    }
}

pub open spec fn total(ms: Seq<MessageView>) -> nat
    decreases ms.len(),
{
    if ms.len() == 0 {
        0
    } else {
        total(ms.drop_last()) + msg_chars(ms.last())
    }
}

/// Budget of history characters for a context of `ctx_size` tokens.
pub open spec fn budget_spec(ctx_size: nat) -> nat {
    if ctx_size >= 10000 {
        (ctx_size - 6000) as nat
    } else {
        4000
    }
}

/// History budget: the context minus room for tool schemas, prompt and output,
/// never below 4000.
pub fn history_budget_chars(ctx_size: u32) -> (r: usize)
    ensures
        r as nat == budget_spec(ctx_size as nat),
{
    let c = ctx_size as usize;
    let b = c.saturating_sub(6000);
    if b > 4000 {
        b
    } else {
        4000
    }
}

fn sat_add(a: usize, b: usize) -> (r: usize)
    ensures
        r as nat == sat((a + b) as nat),
{
    a.saturating_add(b)
}

/// Number of characters of a string.
pub fn char_count(s: &str) -> (n: usize)
    ensures
        n as nat == s@.len(),
{
    chars_of(s).len()
}

/// Number of UTF-8 bytes of a string, saturated at `usize::MAX`.
fn byte_len(s: &str) -> (n: usize)
    ensures
        n as nat == sat(crate::text::utf8_len(s@)),
{
    let v = chars_of(s);
    let mut n: usize = 0;
    let mut i: usize = 0;
    while i < v.len()
        invariant
            i <= v@.len(),
            n as nat == sat(crate::text::utf8_len(v@.take(i as int))),
        decreases v.len() - i,
    {
        let u = v[i] as u32;
        let w: usize = if u < 0x80 {
            1
        } else if u < 0x800 {
            2
        } else if u < 0x10000 {
            3
        } else {
            4
        };
        n = sat_add(n, w);
        i += 1;
        assert(v@.take(i as int).drop_last() =~= v@.take(i - 1));
    }
    assert(v@.take(v@.len() as int) =~= v@);
    n
}

/// Size of one message, saturated at `usize::MAX`.
pub fn message_chars(m: &ChatMessage) -> (n: usize)
    ensures
        n as nat == sat(msg_chars(m@)),
{
    let mut n: usize = match &m.content {
        Some(c) => char_count(c.as_str()),
        None => 0,
    };
    match &m.tool_calls {
        Some(calls) => {
            let ghost cv = crate::models::calls_view(calls@);
            let mut i: usize = 0;
            while i < calls.len()
                invariant
                    i <= calls@.len(),
                    cv == crate::models::calls_view(calls@),
                    n as nat == sat(content_or_empty(m@).len() + calls_chars(cv.take(i as int))),
                decreases calls.len() - i,
            {
                let c = &calls[i];
                n = sat_add(n, byte_len(c.function.name.as_str()));
                n = sat_add(n, char_count(c.function.arguments.as_str()));
                i += 1;
                assert(cv.take(i as int).drop_last() =~= cv.take(i - 1));
            }
            assert(cv.take(cv.len() as int) =~= cv);
        },
        None => {},
    }
    n
}

/// Size of a message list, saturated at `usize::MAX`.
pub fn total_chars(messages: &[ChatMessage]) -> (n: usize)
    ensures
        n as nat == sat(total(msgs_view(messages@))),
{
    let ghost mv = msgs_view(messages@);
    let mut n: usize = 0;
    let mut i: usize = 0;
    while i < messages.len()
        invariant
            i <= messages@.len(),
            mv == msgs_view(messages@),
            n as nat == sat(total(mv.take(i as int))),
        decreases messages.len() - i,
    {
        n = sat_add(n, message_chars(&messages[i]));
        i += 1;
        assert(mv.take(i as int).drop_last() =~= mv.take(i - 1));
    }
    assert(mv.take(mv.len() as int) =~= mv);
    n
}

// ---------------------------------------------------------------------------
// Compacting old tool results
// ---------------------------------------------------------------------------

/// Tool results that are kept whole (the most recent ones).
pub const KEEP_RECENT_TOOL_RESULTS: usize = 2;

/// Characters kept of an older tool result.
pub const COMPACT_TO: usize = 300;

pub open spec fn compact_suffix() -> Seq<char> {
    "\n...(컨텍스트 절약을 위해 축약됨)"@
}

pub open spec fn tool_count(ms: Seq<MessageView>) -> nat
    decreases ms.len(),
{
    if ms.len() == 0 {
        0
    } else {
        tool_count(ms.drop_last()) + if ms.last().role == Role::Tool {
            1nat
        } else {
            0nat
        }
    }
}

/// Message `i` is an older tool result (at least two tool results follow it)
/// whose content is longer than the compaction size.
pub open spec fn compactable(ms: Seq<MessageView>, i: int) -> bool {
    &&& ms[i].role == Role::Tool
    &&& tool_count(ms.skip(i + 1)) >= 2
    &&& ms[i].content is Some
    &&& ms[i].content->0.len() > 300
}

pub open spec fn compact_msg(m: MessageView) -> MessageView {
    MessageView { content: Some(m.content->0.take(300) + compact_suffix()), ..m }
}

/// The messages with every compactable tool result before index `end` cut to its
/// first 300 characters and a note; the others as they were.
pub open spec fn compact_before_spec(ms: Seq<MessageView>, end: int) -> Seq<MessageView> {
    Seq::new(
        ms.len(),
        |i: int|
            if i < end && compactable(ms, i) {
                compact_msg(ms[i])
            } else {
                ms[i]
            },
    )
}

/// The messages with every compactable tool result cut to its first 300 characters
/// and a note.
pub open spec fn compact_spec(ms: Seq<MessageView>) -> Seq<MessageView> {
    compact_before_spec(ms, ms.len() as int)
}

/// How many messages `compact_spec` changes among the first `n`.
pub open spec fn compact_count(ms: Seq<MessageView>, n: int) -> nat
    decreases n,
{
    if n <= 0 {
        0
    } else {
        compact_count(ms, n - 1) + if compactable(ms, n - 1) {
            1nat
        } else {
            0nat
        }
    }
}

proof fn lemma_tool_count_split(ms: Seq<MessageView>, i: int)
    requires
        0 <= i <= ms.len(),
    ensures
        tool_count(ms) == tool_count(ms.take(i)) + tool_count(ms.skip(i)),
    decreases ms.len(),
{
    if ms.len() == 0 {
        assert(ms.take(i) =~= ms);
        assert(ms.skip(i) =~= ms);
    } else if i == ms.len() {
        assert(ms.take(i) =~= ms);
        assert(ms.skip(i) =~= Seq::<MessageView>::empty());
    } else {
        lemma_tool_count_split(ms.drop_last(), i);
        assert(ms.drop_last().take(i) =~= ms.take(i));
        assert(ms.skip(i).drop_last() =~= ms.drop_last().skip(i));
        assert(ms.skip(i).last() == ms.last());
    }
}

/// Cuts older tool results (all but the two most recent) to 300 characters.
/// Returns how many were cut.
pub fn compact_old_tool_results(messages: &mut Vec<ChatMessage>) -> (n: usize)
    ensures
        msgs_view(final(messages)@) == compact_spec(msgs_view(old(messages)@)),
        n as nat == compact_count(msgs_view(old(messages)@), old(messages)@.len() as int),
{
    let end = messages.len();
    compact_tool_results_before(messages, end)
}

/// Cuts the older tool results that stand before index `end`. Returns how many
/// were cut.
fn compact_tool_results_before(messages: &mut Vec<ChatMessage>, end: usize) -> (n: usize)
    requires
        end <= old(messages)@.len(),
    ensures
        msgs_view(final(messages)@) == compact_before_spec(msgs_view(old(messages)@), end as int),
        n as nat == compact_count(msgs_view(old(messages)@), end as int),
{
    let ghost ms = msgs_view(messages@);
    // count the tool results
    let mut tools: usize = 0;
    let mut i: usize = 0;
    while i < messages.len()
        invariant
            i <= messages@.len(),
            ms == msgs_view(messages@),
            tools as nat == tool_count(ms.take(i as int)),
            tools <= i,
        decreases messages.len() - i,
    {
        if messages[i].role == Role::Tool {
            tools += 1;
        }
        i += 1;
        assert(ms.take(i as int).drop_last() =~= ms.take(i - 1));
    }
    assert(ms.take(ms.len() as int) =~= ms);
    let total_tools = tools;
    let mut seen: usize = 0;
    let mut n: usize = 0;
    let mut i: usize = 0;
    while i < end
        invariant
            i <= messages@.len(),
            messages@.len() == ms.len(),
            total_tools as nat == tool_count(ms),
            seen as nat == tool_count(ms.take(i as int)),
            n as nat == compact_count(ms, i as int),
            n <= i,
            i <= end <= ms.len(),
            forall|j: int|
                0 <= j < i ==> #[trigger] messages@[j]@ == compact_before_spec(ms, end as int)[j],
            forall|j: int| i <= j < ms.len() ==> #[trigger] messages@[j]@ == ms[j],
        decreases end - i,
    {
        assert(messages@[i as int]@ == ms[i as int]);
        proof {
            reveal_with_fuel(tool_count, 2);
            lemma_tool_count_split(ms, i as int);
            lemma_tool_count_split(ms.skip(i as int), 1);
            assert(ms.skip(i as int).skip(1) =~= ms.skip(i + 1));
            assert(ms.skip(i as int).take(1) =~= seq![ms[i as int]]);
            assert(seq![ms[i as int]].drop_last() =~= Seq::<MessageView>::empty());
            assert(ms.take(i + 1).drop_last() =~= ms.take(i as int));
        }
        if messages[i].role == Role::Tool {
            let eligible = total_tools - seen - 1 >= 2;
            seen += 1;
            if eligible {
                let long = match &messages[i].content {
                    Some(c) => {
                        let v = chars_of(c.as_str());
                        if v.len() > COMPACT_TO {
                            let mut s = string_of_range(v.as_slice(), 0, COMPACT_TO);
                            assert(v@.subrange(0, 300) =~= v@.take(300));
                            push_str(&mut s, "\n...(컨텍스트 절약을 위해 축약됨)");
                            Some(s)
                        } else {
                            None
                        }
                    },
                    None => None,
                };
                match long {
                    Some(s) => {
                        let mut m = messages[i].duplicate();
                        m.content = Some(s);
                        messages.set(i, m);
                        n += 1;
                    },
                    None => {},
                }
            }
        }
        i += 1;
    }
    assert(msgs_view(messages@) =~= compact_before_spec(ms, end as int));
    n
}

// ---------------------------------------------------------------------------
// Digest lines
// ---------------------------------------------------------------------------

/// The last non-empty assistant text of a turn.
pub open spec fn last_answer(t: Seq<MessageView>) -> Option<Seq<char>>
    decreases t.len(),
{
    if t.len() == 0 {
        None
    } else if t.last().role == Role::Assistant && t.last().content is Some
        && t.last().content->0.len() > 0 {
        Some(t.last().content->0)
    } else {
        last_answer(t.drop_last())
    }
}

/// Marker put after a text that a digest line shortens (no line break, so that the
/// digest line stays on one line).
pub open spec fn line_clip_suffix() -> Seq<char> {
    "...(잘림)"@
}

/// `s` kept whole when it has at most `max` characters, else its first `max`
/// characters followed by the line clip marker.
pub open spec fn clip_line_spec(s: Seq<char>, max: nat) -> Seq<char> {
    if s.len() <= max {
        s
    } else {
        s.take(max as int) + line_clip_suffix()
    }
}

fn clip_line(s: &str, max_chars: usize) -> (r: String)
    ensures
        r@ == clip_line_spec(s@, max_chars as nat),
{
    let v = chars_of(s);
    if v.len() <= max_chars {
        return string_of(v.as_slice());
    }
    let mut r = string_of_range(v.as_slice(), 0, max_chars);
    assert(v@.subrange(0, max_chars as int) =~= v@.take(max_chars as int));
    push_str(&mut r, "...(잘림)");
    r
}

/// Collapsing white space leaves no line break: only single spaces stand between
/// the words.
proof fn lemma_collapse_state_no_line_break(s: Seq<char>)
    ensures
        forall|i: int|
            0 <= i < collapse_state(s).0.len() ==> #[trigger] collapse_state(s).0[i] != '\n',
    decreases s.len(),
{
    if s.len() > 0 {
        lemma_collapse_state_no_line_break(s.drop_last());
        let (o, gap) = collapse_state(s.drop_last());
        let c = s.last();
        let r = collapse_state(s).0;
        assert forall|i: int| 0 <= i < r.len() implies #[trigger] r[i] != '\n' by {
            if i < o.len() {
                assert(r[i] == o[i]);
            } else {
                assert(!is_ws(c));
                assert(is_ws('\n'));
            }
        }
    }
}

proof fn lemma_clip_line_has_no_line_break(s: Seq<char>, max: nat)
    requires
        forall|i: int| 0 <= i < s.len() ==> #[trigger] s[i] != '\n',
    ensures
        !clip_line_spec(s, max).contains('\n'),
{
    reveal_strlit("...(잘림)");
    let r = clip_line_spec(s, max);
    if r.contains('\n') {
        let i = choose|i: int| 0 <= i < r.len() && r[i] == '\n';
        if s.len() > max && i >= max {
            assert(r[i] == line_clip_suffix()[i - max]);
        } else {
            assert(r[i] == s[i]);
        }
    }
}

/// One turn as "- 사용자: <question> → 답: <answer>" on one line, white space
/// collapsed, question clipped at 60 and answer at 80 characters.
pub open spec fn digest_line_spec(turn: Seq<MessageView>) -> Seq<char> {
    let user = if turn.len() > 0 {
        content_or_empty(turn[0])
    } else {
        Seq::empty()
    };
    let answer = match last_answer(turn) {
        Some(a) => a,
        None => "(답 없음)"@,
    };
    "- 사용자: "@ + clip_line_spec(collapse_ws(user), 60) + " → 답: "@ + clip_line_spec(
        collapse_ws(answer),
        80,
    )
}

/// A digest line holds no line break.
pub proof fn lemma_digest_line_is_one_line(turn: Seq<MessageView>)
    ensures
        !digest_line_spec(turn).contains('\n'),
{
    reveal_strlit("- 사용자: ");
    reveal_strlit(" → 답: ");
    let user = if turn.len() > 0 {
        content_or_empty(turn[0])
    } else {
        Seq::empty()
    };
    let answer = match last_answer(turn) {
        Some(a) => a,
        None => "(답 없음)"@,
    };
    lemma_collapse_state_no_line_break(user);
    lemma_collapse_state_no_line_break(answer);
    lemma_clip_line_has_no_line_break(collapse_ws(user), 60);
    lemma_clip_line_has_no_line_break(collapse_ws(answer), 80);
    let a = "- 사용자: "@;
    let b = clip_line_spec(collapse_ws(user), 60);
    let c = " → 답: "@;
    let d = clip_line_spec(collapse_ws(answer), 80);
    let r = digest_line_spec(turn);
    assert(r == a + b + c + d);
    if r.contains('\n') {
        let i = choose|i: int| 0 <= i < r.len() && r[i] == '\n';
        if i < a.len() {
            assert(r[i] == a[i]);
        } else if i < a.len() + b.len() {
            assert(r[i] == b[i - a.len()]);
        } else if i < a.len() + b.len() + c.len() {
            assert(r[i] == c[i - a.len() - b.len()]);
        } else {
            assert(r[i] == d[i - a.len() - b.len() - c.len()]);
        }
    }
}

/// A message that answers: an assistant message with non-empty text.
pub open spec fn answers(m: MessageView) -> bool {
    m.role == Role::Assistant && m.content is Some && m.content->0.len() > 0
}

proof fn lemma_last_answer_at(t: Seq<MessageView>, i: int)
    requires
        0 <= i < t.len(),
        answers(t[i]),
        forall|j: int| i < j < t.len() ==> !answers(#[trigger] t[j]),
    ensures
        last_answer(t) == Some(t[i].content->0),
    decreases t.len(),
{
    if i < t.len() - 1 {
        assert(!answers(t[t.len() - 1]));
        lemma_last_answer_at(t.drop_last(), i);
    }
}

proof fn lemma_last_answer_none(t: Seq<MessageView>)
    requires
        forall|j: int| 0 <= j < t.len() ==> !answers(#[trigger] t[j]),
    ensures
        last_answer(t) is None,
    decreases t.len(),
{
    if t.len() > 0 {
        assert(!answers(t[t.len() - 1]));
        lemma_last_answer_none(t.drop_last());
    }
}

/// The digest line of a turn holds its question and its answer: the text of the
/// first message (white space collapsed, clipped at 60 characters), then the text
/// of the last assistant message that has any, wherever it stands in the turn
/// (clipped at 80), tool calls and results before it notwithstanding.
pub proof fn law_digest_line_answers_with_last_text(turn: Seq<MessageView>, i: int)
    requires
        0 <= i < turn.len(),
        turn[i].role == Role::Assistant,
        turn[i].content is Some,
        turn[i].content->0.len() > 0,
        forall|j: int|
            i < j < turn.len() ==> !(#[trigger] turn[j].role == Role::Assistant && turn[j].content is Some
                && turn[j].content->0.len() > 0),
    ensures
        digest_line_spec(turn) == "- 사용자: "@ + clip_line_spec(collapse_ws(content_or_empty(turn[0])), 60)
            + " → 답: "@ + clip_line_spec(collapse_ws(turn[i].content->0), 80),
{
    assert forall|j: int| i < j < turn.len() implies !answers(#[trigger] turn[j]) by {}
    lemma_last_answer_at(turn, i);
}

/// A turn in which no assistant message has text is digested with "(답 없음)" as
/// its answer.
pub proof fn law_digest_line_without_answer(turn: Seq<MessageView>)
    requires
        turn.len() > 0,
        forall|j: int|
            0 <= j < turn.len() ==> !(#[trigger] turn[j].role == Role::Assistant && turn[j].content is Some
                && turn[j].content->0.len() > 0),
    ensures
        digest_line_spec(turn) == "- 사용자: "@ + clip_line_spec(collapse_ws(content_or_empty(turn[0])), 60)
            + " → 답: "@ + clip_line_spec(collapse_ws("(답 없음)"@), 80),
{
    assert forall|j: int| 0 <= j < turn.len() implies !answers(#[trigger] turn[j]) by {}
    lemma_last_answer_none(turn);
}

fn digest_line_range(ms: &[ChatMessage], start: usize, end: usize) -> (r: String)
    requires
        start <= end <= ms@.len(),
    ensures
        r@ == digest_line_spec(msgs_view(ms@).subrange(start as int, end as int)),
{
    let ghost t = msgs_view(ms@).subrange(start as int, end as int);
    let user: String = if start < end {
        match &ms[start].content {
            Some(c) => c.clone(),
            None => String::new(),
        }
    } else {
        String::new()
    };
    assert(start < end ==> t[0] == ms@[start as int]@);
    let mut k = end;
    let mut found = false;
    assert(t =~= msgs_view(ms@).subrange(start as int, k as int));
    while k > start && !found
        invariant
            start <= k <= end <= ms@.len(),
            t == msgs_view(ms@).subrange(start as int, end as int),
            last_answer(t) == last_answer(msgs_view(ms@).subrange(start as int, k as int)),
            found ==> k > start && ms@[k - 1].role == Role::Assistant && ms@[k - 1].content is Some
                && ms@[k - 1].content->0@.len() > 0,
        decreases k as int + (if found {
            0int
        } else {
            1int
        }),
    {
        let ghost tk = msgs_view(ms@).subrange(start as int, k as int);
        assert(tk.drop_last() =~= msgs_view(ms@).subrange(start as int, k - 1));
        assert(tk.last() == ms@[k - 1]@);
        let hit = match &ms[k - 1].content {
            Some(c) => ms[k - 1].role == Role::Assistant && char_count(c.as_str()) > 0,
            None => false,
        };
        if hit {
            found = true;
        } else {
            k -= 1;
        }
    }
    let answer_text: String = if found {
        let ghost tk = msgs_view(ms@).subrange(start as int, k as int);
        assert(tk.last() == ms@[k - 1]@);
        match &ms[k - 1].content {
            Some(c) => c.clone(),
            None => String::new(),
        }
    } else {
        assert(msgs_view(ms@).subrange(start as int, k as int).len() == 0);
        crate::text::to_string("(답 없음)")
    };
    assert(answer_text@ == match last_answer(t) {
        Some(a) => a,
        None => "(답 없음)"@,
    });
    let mut r = crate::text::to_string("- 사용자: ");
    let u = clip_line(collapse_whitespace(user.as_str()).as_str(), 60);
    push_str(&mut r, u.as_str());
    push_str(&mut r, " → 답: ");
    let a = clip_line(collapse_whitespace(answer_text.as_str()).as_str(), 80);
    push_str(&mut r, a.as_str());
    r
}

/// One turn (a user message up to the next one) folded into a single line.
pub fn digest_line(turn: &[ChatMessage]) -> (r: String)
    ensures
        r@ == digest_line_spec(msgs_view(turn@)),
        !r@.contains('\n'),
{
    proof {
        lemma_digest_line_is_one_line(msgs_view(turn@));
    }
    let r = digest_line_range(turn, 0, turn.len());
    assert(msgs_view(turn@).subrange(0, turn@.len() as int) =~= msgs_view(turn@));
    r
}

// ---------------------------------------------------------------------------
// Digest section
// ---------------------------------------------------------------------------

pub open spec fn join_lines(ls: Seq<Seq<char>>) -> Seq<char>
    decreases ls.len(),
{
    if ls.len() == 0 {
        Seq::empty()
    } else if ls.len() == 1 {
        ls[0]
    } else {
        join_lines(ls.drop_last()) + seq!['\n'] + ls.last()
    }
}

/// Characters of the digest lines, one line break each.
pub open spec fn lines_cost(ls: Seq<Seq<char>>) -> nat
    decreases ls.len(),
{
    if ls.len() == 0 {
        0
    } else {
        lines_cost(ls.drop_last()) + ls.last().len() + 1
    }
}

/// The digest lines with the oldest dropped until they fit the cap (one line always
/// stays).
pub open spec fn cap_lines(ls: Seq<Seq<char>>) -> Seq<Seq<char>>
    decreases ls.len(),
{
    if ls.len() > 1 && lines_cost(ls) > 1600 {
        cap_lines(ls.drop_first())
    } else {
        ls
    }
}

/// All lines but the first (none when there is none).
pub open spec fn drop_head(ls: Seq<Seq<char>>) -> Seq<Seq<char>> {
    if ls.len() == 0 {
        ls
    } else {
        ls.drop_first()
    }
}

/// (prompt before the digest section, digest lines) of a system prompt.
pub open spec fn split_digest_spec(content: Seq<char>) -> (Seq<char>, Seq<Seq<char>>) {
    if has_sub(content, DIGEST_MARKER@) {
        let pos = crate::localsearch::first_pos(content, DIGEST_MARKER@);
        (trim_end(content.take(pos)), drop_head(lines_spec(content.skip(pos))))
    } else {
        (content, Seq::empty())
    }
}

/// A system prompt made of `base` and a digest section with `lines`.
pub open spec fn with_digest(base: Seq<char>, lines: Seq<Seq<char>>) -> Seq<char> {
    base + (if base.len() == 0 {
        Seq::empty()
    } else {
        seq!['\n', '\n']
    }) + DIGEST_MARKER@ + seq!['\n'] + join_lines(lines)
}

/// The messages with a system message in front (an empty one is inserted when
/// the first message is not a system message).
pub open spec fn with_system_front(ms: Seq<MessageView>) -> Seq<MessageView> {
    if ms.len() == 0 || ms[0].role != Role::System {
        seq![crate::models::message_of(Role::System, Some(Seq::empty()))] + ms
    } else {
        ms
    }
}

/// `line` added to the digest section of the system prompt.
pub open spec fn append_digest_spec(ms: Seq<MessageView>, line: Seq<char>) -> Seq<MessageView> {
    let ms1 = with_system_front(ms);
    let (base, lines) = split_digest_spec(content_or_empty(ms1[0]));
    let capped = cap_lines(lines.push(line));
    ms1.update(0, MessageView { content: Some(with_digest(base, capped)), ..ms1[0] })
}

/// Splits a system prompt into the prompt proper and its digest lines.
pub fn split_digest(content: &str) -> (r: (String, Vec<String>))
    ensures
        r.0@ == split_digest_spec(content@).0,
        r.1@.map_values(|s: String| s@) == split_digest_spec(content@).1,
{
    let v = chars_of(content);
    let m = chars_of(DIGEST_MARKER);
    match find_chars(v.as_slice(), m.as_slice()) {
        Some(pos) => {
            proof {
                crate::localsearch::lemma_first_sub_unique(v@, m@, pos as int);
            }
            let k = trim_end_len(v.as_slice(), pos);
            assert(v@.take(pos as int) =~= v@.subrange(0, pos as int));
            let base = string_of_range(v.as_slice(), 0, k);
            assert(v@.subrange(0, k as int) =~= v@.take(pos as int).take(k as int));
            let tail = crate::paths::slice_to_vec(v.as_slice(), pos, v.len());
            assert(tail@ =~= v@.skip(pos as int));
            let ls = split_lines(tail.as_slice());
            let ghost lv = ls@.map_values(|l: Vec<char>| l@);
            let mut out: Vec<String> = Vec::new();
            let mut i: usize = 1;
            if ls.len() == 0 {
                assert(drop_head(lv) =~= Seq::<Seq<char>>::empty());
                assert(out@.map_values(|s: String| s@) =~= Seq::<Seq<char>>::empty());
                return (base, out);
            }
            while i < ls.len()
                invariant
                    1 <= i <= ls@.len(),
                    lv == ls@.map_values(|l: Vec<char>| l@),
                    out@.map_values(|s: String| s@) =~= lv.subrange(1, i as int),
                decreases ls.len() - i,
            {
                out.push(string_of(ls[i].as_slice()));
                i += 1;
                assert(lv.subrange(1, i as int) =~= lv.subrange(1, i - 1).push(lv[i - 1]));
            }
            assert(lv.subrange(1, lv.len() as int) =~= drop_head(lv));
            (base, out)
        },
        None => {
            let out: Vec<String> = Vec::new();
            assert(out@.map_values(|s: String| s@) =~= Seq::<Seq<char>>::empty());
            (string_of(v.as_slice()), out)
        },
    }
}

proof fn lemma_lines_cost_drop_first(ls: Seq<Seq<char>>)
    requires
        ls.len() > 0,
    ensures
        lines_cost(ls) == ls[0].len() + 1 + lines_cost(ls.drop_first()),
    decreases ls.len(),
{
    if ls.len() == 1 {
        assert(ls.drop_first() =~= Seq::<Seq<char>>::empty());
        assert(ls.drop_last() =~= Seq::<Seq<char>>::empty());
    } else {
        lemma_lines_cost_drop_first(ls.drop_last());
        assert(ls.drop_last().drop_first() =~= ls.drop_first().drop_last());
        assert(ls.drop_first().last() == ls.last());
    }
}

/// `lines_cost`, saturated at `usize::MAX`.
fn lines_cost_of(ls: &Vec<String>, from: usize) -> (n: usize)
    requires
        from <= ls@.len(),
    ensures
        n as nat == sat(lines_cost(ls@.map_values(|s: String| s@).skip(from as int))),
{
    let ghost lv = ls@.map_values(|s: String| s@);
    let ghost sub = lv.skip(from as int);
    let mut n: usize = 0;
    let mut i: usize = from;
    while i < ls.len()
        invariant
            from <= i <= ls@.len(),
            lv == ls@.map_values(|s: String| s@),
            sub == lv.skip(from as int),
            n as nat == sat(lines_cost(sub.take(i - from))),
        decreases ls.len() - i,
    {
        n = sat_add(n, char_count(ls[i].as_str()));
        n = sat_add(n, 1);
        i += 1;
        assert(sub.take(i - from).drop_last() =~= sub.take(i - from - 1));
    }
    assert(sub.take(sub.len() as int) =~= sub);
    n
}

/// The lines joined with line breaks.
pub(crate) fn join_lines_of(ls: &Vec<String>, from: usize, out: &mut String)
    requires
        from <= ls@.len(),
    ensures
        final(out)@ == old(out)@ + join_lines(ls@.map_values(|s: String| s@).skip(from as int)),
{
    let ghost lv = ls@.map_values(|s: String| s@);
    let ghost sub = lv.skip(from as int);
    let ghost o0 = out@;
    let mut i: usize = from;
    while i < ls.len()
        invariant
            from <= i <= ls@.len(),
            lv == ls@.map_values(|s: String| s@),
            sub == lv.skip(from as int),
            out@ == o0 + join_lines(sub.take(i - from)),
        decreases ls.len() - i,
    {
        if i > from {
            push_str(out, "\n");
            proof {
                reveal_strlit("\n");
            }
        }
        push_str(out, ls[i].as_str());
        i += 1;
        assert(sub.take(i - from).drop_last() =~= sub.take(i - from - 1));
        proof {
            if i - from == 1 {
                assert(sub.take(1) =~= seq![sub[0]]);
            }
        }
    }
    assert(sub.take(sub.len() as int) =~= sub);
}

/// Adds a line to the digest section of the system prompt (creating the section,
/// and a system message when there is none) and keeps the section under its cap.
pub fn append_digest_line(messages: &mut Vec<ChatMessage>, line: &str)
    ensures
        msgs_view(final(messages)@) == append_digest_spec(msgs_view(old(messages)@), line@),
{
    let ghost ms0 = msgs_view(messages@);
    assert(messages@.len() > 0 ==> ms0[0] == messages@[0]@);
    if messages.len() == 0 || messages[0].role != Role::System {
        messages.insert(0, ChatMessage::system(""));
        proof {
            reveal_strlit("");
        }
        assert(""@ =~= Seq::<char>::empty());
        assert(msgs_view(messages@) =~= with_system_front(ms0));
    } else {
        assert(msgs_view(messages@) =~= with_system_front(ms0));
    }
    let ghost ms1 = msgs_view(messages@);
    let content: String = match &messages[0].content {
        Some(c) => c.clone(),
        None => String::new(),
    };
    assert(content@ == content_or_empty(ms1[0]));
    let (base, mut lines) = split_digest(content.as_str());
    lines.push(crate::text::to_string(line));
    let ghost full = split_digest_spec(content@).1.push(line@);
    assert(lines@.map_values(|s: String| s@) =~= full);
    let mut from: usize = 0;
    assert(full.skip(0) =~= full);
    while lines.len() - from > 1 && lines_cost_of(&lines, from) > DIGEST_MAX_CHARS
        invariant
            from < lines@.len(),
            full == lines@.map_values(|s: String| s@),
            cap_lines(full) == cap_lines(full.skip(from as int)),
        decreases lines.len() - from,
    {
        assert(full.skip(from as int).drop_first() =~= full.skip(from + 1));
        from += 1;
    }
    let mut text = String::new();
    push_str(&mut text, base.as_str());
    let bv = chars_of(base.as_str());
    if bv.len() > 0 {
        push_str(&mut text, "\n\n");
        proof {
            reveal_strlit("\n\n");
        }
    }
    push_str(&mut text, DIGEST_MARKER);
    push_str(&mut text, "\n");
    proof {
        reveal_strlit("\n");
    }
    join_lines_of(&lines, from, &mut text);
    assert(cap_lines(full.skip(from as int)) == full.skip(from as int));
    assert(text@ =~= with_digest(base@, cap_lines(full)));
    let mut m = messages[0].duplicate();
    m.content = Some(text);
    messages.set(0, m);
    assert(msgs_view(messages@) =~= append_digest_spec(ms0, line@));
}

// ---------------------------------------------------------------------------
// Folding old turns
// ---------------------------------------------------------------------------

pub open spec fn user_count(ms: Seq<MessageView>) -> nat
    decreases ms.len(),
{
    if ms.len() == 0 {
        0
    } else {
        user_count(ms.drop_last()) + if ms.last().role == Role::User {
            1nat
        } else {
            0nat
        }
    }
}

/// Index of the first user message at or after `from`.
pub open spec fn next_user(ms: Seq<MessageView>, from: int) -> int
    decreases ms.len() - from,
{
    if from >= ms.len() {
        ms.len() as int
    } else if ms[from].role == Role::User {
        from
    } else {
        next_user(ms, from + 1)
    }
}

/// The oldest turn (first user message up to the second one) folded into the
/// digest.
pub open spec fn fold_once(ms: Seq<MessageView>) -> Seq<MessageView> {
    let s = next_user(ms, 0);
    let e = next_user(ms, s + 1);
    append_digest_spec(ms.take(s) + ms.skip(e), digest_line_spec(ms.subrange(s, e)))
}

/// Folds oldest turns while the history is over budget and more than the recent
/// turns remain.
pub open spec fn fold_until(ms: Seq<MessageView>, budget: nat) -> Seq<MessageView>
    decreases user_count(ms),
{
    if sat(total(ms)) <= budget || user_count(ms) <= 3 {
        ms
    } else {
        proof {
            lemma_fold_once_users(ms);
        }
        fold_until(fold_once(ms), budget)
    }
}

/// Index of the `k`-th user message from the end (the length when `k` is 0).
pub open spec fn kth_last_user(ms: Seq<MessageView>, k: nat) -> int
    decreases ms.len(),
{
    if k == 0 || ms.len() == 0 {
        ms.len() as int
    } else if ms.last().role == Role::User {
        if k == 1 {
            ms.len() - 1
        } else {
            kth_last_user(ms.drop_last(), (k - 1) as nat)
        }
    } else {
        kth_last_user(ms.drop_last(), k)
    }
}

/// Where the recent turns begin: the earliest of the last `KEEP_RECENT_TURNS` user
/// messages (the first user message when there are fewer, the length when there
/// is none).
pub open spec fn recent_start(ms: Seq<MessageView>) -> int {
    kth_last_user(
        ms,
        if user_count(ms) < KEEP_RECENT_TURNS {
            user_count(ms)
        } else {
            KEEP_RECENT_TURNS as nat
        },
    )
}

/// Compaction under the budget: only the tool results that come before the recent
/// turns are cut.
pub open spec fn budget_compact_spec(ms: Seq<MessageView>) -> Seq<MessageView> {
    compact_before_spec(ms, recent_start(ms))
}

/// The history after enforcing the budget: unchanged when it fits, else the tool
/// results before the recent turns compacted and the oldest turns folded.
pub open spec fn enforce_spec(ms: Seq<MessageView>, budget: nat) -> Seq<MessageView> {
    if sat(total(ms)) <= budget {
        ms
    } else {
        fold_until(budget_compact_spec(ms), budget)
    }
}

proof fn lemma_user_count_split(ms: Seq<MessageView>, i: int)
    requires
        0 <= i <= ms.len(),
    ensures
        user_count(ms) == user_count(ms.take(i)) + user_count(ms.skip(i)),
    decreases ms.len(),
{
    if ms.len() == 0 {
        assert(ms.take(i) =~= ms);
        assert(ms.skip(i) =~= ms);
    } else if i == ms.len() {
        assert(ms.take(i) =~= ms);
        assert(ms.skip(i) =~= Seq::<MessageView>::empty());
    } else {
        lemma_user_count_split(ms.drop_last(), i);
        assert(ms.drop_last().take(i) =~= ms.take(i));
        assert(ms.skip(i).drop_last() =~= ms.drop_last().skip(i));
        assert(ms.skip(i).last() == ms.last());
    }
}

proof fn lemma_user_count_concat(a: Seq<MessageView>, b: Seq<MessageView>)
    ensures
        user_count(a + b) == user_count(a) + user_count(b),
{
    lemma_user_count_split(a + b, a.len() as int);
    assert((a + b).take(a.len() as int) =~= a);
    assert((a + b).skip(a.len() as int) =~= b);
}

proof fn lemma_next_user(ms: Seq<MessageView>, from: int)
    requires
        0 <= from <= ms.len(),
    ensures
        from <= next_user(ms, from) <= ms.len(),
        next_user(ms, from) < ms.len() ==> ms[next_user(ms, from)].role == Role::User,
        forall|j: int| from <= j < next_user(ms, from) ==> ms[j].role != Role::User,
    decreases ms.len() - from,
{
    if from < ms.len() && ms[from].role != Role::User {
        lemma_next_user(ms, from + 1);
    }
}

proof fn lemma_no_users(ms: Seq<MessageView>)
    requires
        forall|j: int| 0 <= j < ms.len() ==> ms[j].role != Role::User,
    ensures
        user_count(ms) == 0,
    decreases ms.len(),
{
    if ms.len() > 0 {
        lemma_no_users(ms.drop_last());
    }
}

proof fn lemma_users_in_range(ms: Seq<MessageView>)
    ensures
        0 <= next_user(ms, 0) <= ms.len(),
        user_count(ms) >= 1 ==> next_user(ms, 0) < ms.len(),
        user_count(ms) >= 1 ==> next_user(ms, 0) < next_user(ms, next_user(ms, 0) + 1) <= ms.len(),
        user_count(ms) >= 2 ==> next_user(ms, next_user(ms, 0) + 1) < ms.len(),
        user_count(ms) >= 1 ==> user_count(ms.subrange(next_user(ms, 0), next_user(
            ms,
            next_user(ms, 0) + 1,
        ))) == 1,
        user_count(ms.take(next_user(ms, 0))) == 0,
{
    lemma_next_user(ms, 0);
    let s = next_user(ms, 0);
    assert forall|j: int| 0 <= j < ms.take(s).len() implies #[trigger] ms.take(s)[j].role
        != Role::User by {
        assert(ms.take(s)[j] == ms[j]);
    }
    lemma_no_users(ms.take(s));
    lemma_user_count_split(ms, s);
    if s < ms.len() {
        lemma_next_user(ms, s + 1);
        let e = next_user(ms, s + 1);
        let mid = ms.subrange(s, e);
        lemma_user_count_split(ms.skip(s), e - s);
        assert(ms.skip(s).take(e - s) =~= mid);
        assert(ms.skip(s).skip(e - s) =~= ms.skip(e));
        lemma_user_count_split(mid, 1);
        assert(mid.take(1) =~= seq![ms[s]]);
        assert(seq![ms[s]].drop_last() =~= Seq::<MessageView>::empty());
        assert(user_count(seq![ms[s]]) == 1) by {
            reveal_with_fuel(user_count, 2);
        }
        let rest = mid.skip(1);
        assert forall|j: int| 0 <= j < rest.len() implies #[trigger] rest[j].role
            != Role::User by {
            assert(rest[j] == ms[s + 1 + j]);
        }
        lemma_no_users(rest);
        if e == ms.len() {
            assert(ms.skip(e) =~= Seq::<MessageView>::empty());
        }
    } else {
        assert(ms.skip(s) =~= Seq::<MessageView>::empty());
    }
}

proof fn lemma_update_front_users(ms1: Seq<MessageView>, m: MessageView)
    requires
        ms1.len() > 0,
        ms1[0].role != Role::User,
        m.role == ms1[0].role,
    ensures
        user_count(ms1.update(0, m)) == user_count(ms1),
{
    lemma_user_count_split(ms1, 1);
    lemma_user_count_split(ms1.update(0, m), 1);
    assert(ms1.update(0, m).skip(1) =~= ms1.skip(1));
    assert(ms1.take(1).drop_last() =~= Seq::<MessageView>::empty());
    assert(ms1.update(0, m).take(1).drop_last() =~= Seq::<MessageView>::empty());
}

pub proof fn lemma_append_digest_users(ms: Seq<MessageView>, line: Seq<char>)
    ensures
        user_count(append_digest_spec(ms, line)) == user_count(ms),
        append_digest_spec(ms, line).len() > 0,
        append_digest_spec(ms, line)[0].role == Role::System,
{
    let ms1 = with_system_front(ms);
    if ms.len() == 0 || ms[0].role != Role::System {
        let sys = seq![crate::models::message_of(Role::System, Some(Seq::empty()))];
        lemma_user_count_concat(sys, ms);
        assert(sys.drop_last() =~= Seq::<MessageView>::empty());
        assert(user_count(sys) == 0) by {
            reveal_with_fuel(user_count, 2);
        }
    }
    let (base, lines) = split_digest_spec(content_or_empty(ms1[0]));
    let capped = cap_lines(lines.push(line));
    lemma_update_front_users(
        ms1,
        MessageView { content: Some(with_digest(base, capped)), ..ms1[0] },
    );
}

pub proof fn lemma_fold_once_users(ms: Seq<MessageView>)
    requires
        user_count(ms) >= 2,
    ensures
        user_count(fold_once(ms)) == user_count(ms) - 1,
{
    lemma_users_in_range(ms);
    let s = next_user(ms, 0);
    let e = next_user(ms, s + 1);
    lemma_next_user(ms, s + 1);
    lemma_user_count_split(ms, s);
    lemma_user_count_split(ms.skip(s), e - s);
    assert(ms.skip(s).take(e - s) =~= ms.subrange(s, e));
    assert(ms.skip(s).skip(e - s) =~= ms.skip(e));
    lemma_user_count_concat(ms.take(s), ms.skip(e));
    lemma_append_digest_users(
        ms.take(s) + ms.skip(e),
        digest_line_spec(ms.subrange(s, e)),
    );
}

/// Index of the first user message at or after `from`.
fn next_user_index(ms: &Vec<ChatMessage>, from: usize) -> (r: usize)
    requires
        from <= ms@.len(),
    ensures
        r as int == next_user(msgs_view(ms@), from as int),
{
    let ghost mv = msgs_view(ms@);
    let mut i = from;
    while i < ms.len() && ms[i].role != Role::User
        invariant
            from <= i <= ms@.len(),
            mv == msgs_view(ms@),
            next_user(mv, from as int) == next_user(mv, i as int),
        decreases ms.len() - i,
    {
        i += 1;
    }
    i
}

/// Number of user messages.
fn count_users(ms: &Vec<ChatMessage>) -> (n: usize)
    ensures
        n as nat == user_count(msgs_view(ms@)),
{
    let ghost mv = msgs_view(ms@);
    let mut n: usize = 0;
    let mut i: usize = 0;
    while i < ms.len()
        invariant
            i <= ms@.len(),
            n <= i,
            mv == msgs_view(ms@),
            n as nat == user_count(mv.take(i as int)),
        decreases ms.len() - i,
    {
        if ms[i].role == Role::User {
            n += 1;
        }
        i += 1;
        assert(mv.take(i as int).drop_last() =~= mv.take(i - 1));
    }
    assert(mv.take(mv.len() as int) =~= mv);
    n
}

/// Index where the recent turns begin (see `recent_start`).
fn recent_start_index(ms: &Vec<ChatMessage>) -> (r: usize)
    ensures
        r as int == recent_start(msgs_view(ms@)),
        r <= ms@.len(),
{
    let ghost mv = msgs_view(ms@);
    let users = count_users(ms);
    let k0: usize = if users < KEEP_RECENT_TURNS {
        users
    } else {
        KEEP_RECENT_TURNS
    };
    if k0 == 0 {
        return ms.len();
    }
    let mut k: usize = k0;
    let mut i: usize = ms.len();
    assert(mv.take(i as int) =~= mv);
    while i > 0
        invariant
            i <= ms@.len(),
            mv == msgs_view(ms@),
            0 < k <= k0,
            recent_start(mv) == kth_last_user(mv, k0 as nat),
            kth_last_user(mv, k0 as nat) == kth_last_user(mv.take(i as int), k as nat),
        decreases i,
    {
        assert(mv.take(i as int).drop_last() =~= mv.take(i - 1));
        assert(mv.take(i as int).last() == mv[i - 1]);
        if ms[i - 1].role == Role::User {
            if k == 1 {
                return i - 1;
            }
            k -= 1;
        }
        i -= 1;
    }
    0
}

/// `ms[..start]` followed by `ms[end..]`.
fn without_range(ms: &Vec<ChatMessage>, start: usize, end: usize) -> (r: Vec<ChatMessage>)
    requires
        start <= end <= ms@.len(),
    ensures
        msgs_view(r@) == msgs_view(ms@).take(start as int) + msgs_view(ms@).skip(end as int),
{
    let ghost mv = msgs_view(ms@);
    let mut r: Vec<ChatMessage> = Vec::new();
    let mut i: usize = 0;
    while i < start
        invariant
            i <= start <= end <= ms@.len(),
            mv == msgs_view(ms@),
            msgs_view(r@) =~= mv.take(i as int),
        decreases start - i,
    {
        r.push(ms[i].duplicate());
        i += 1;
        assert(mv.take(i as int) =~= mv.take(i - 1).push(mv[i - 1]));
    }
    let mut j: usize = end;
    while j < ms.len()
        invariant
            start <= end <= j <= ms@.len(),
            mv == msgs_view(ms@),
            msgs_view(r@) =~= mv.take(start as int) + mv.subrange(end as int, j as int),
        decreases ms.len() - j,
    {
        let ghost prev = msgs_view(r@);
        r.push(ms[j].duplicate());
        assert(msgs_view(r@) =~= prev.push(mv[j as int]));
        j += 1;
        assert(mv.subrange(end as int, j as int) =~= mv.subrange(end as int, j - 1).push(
            mv[j - 1],
        ));
    }
    assert(mv.subrange(end as int, mv.len() as int) =~= mv.skip(end as int));
    r
}

/// Brings the history within `budget_chars` before a turn: older tool results that
/// come before the recent turns are shortened first, then the oldest turns are
/// folded into one-line digests at the end of the system prompt. The last three
/// user turns are kept as they were, tool results included.
pub fn enforce_history_budget(messages: &mut Vec<ChatMessage>, budget_chars: usize)
    ensures
        msgs_view(final(messages)@) == enforce_spec(msgs_view(old(messages)@), budget_chars as nat),
{
    if total_chars(messages.as_slice()) <= budget_chars {
        return;
    }
    let recent = recent_start_index(messages);
    compact_tool_results_before(messages, recent);
    let ghost start_view = msgs_view(messages@);
    loop
        invariant
            fold_until(start_view, budget_chars as nat) == fold_until(
                msgs_view(messages@),
                budget_chars as nat,
            ),
        ensures
            msgs_view(messages@) == fold_until(start_view, budget_chars as nat),
        decreases user_count(msgs_view(messages@)),
    {
        let ghost cur = msgs_view(messages@);
        if total_chars(messages.as_slice()) <= budget_chars {
            break;
        }
        let users = count_users(messages);
        if users <= KEEP_RECENT_TURNS {
            break;
        }
        proof {
            lemma_users_in_range(cur);
            lemma_fold_once_users(cur);
        }
        let start = next_user_index(messages, 0);
        assert(user_count(cur) >= 4);
        assert(start < messages.len());
        let end = next_user_index(messages, start + 1);
        let line = digest_line_range(messages.as_slice(), start, end);
        let mut rest = without_range(messages, start, end);
        append_digest_line(&mut rest, line.as_str());
        *messages = rest;
        assert(msgs_view(messages@) == fold_once(cur));
    }
}

} // verus!

verus! {

// ---------------------------------------------------------------------------
// Laws of the budget
// ---------------------------------------------------------------------------

/// Contents of the user messages, in order.
pub open spec fn users_of(ms: Seq<MessageView>) -> Seq<Seq<char>>
    decreases ms.len(),
{
    if ms.len() == 0 {
        Seq::empty()
    } else if ms.last().role == Role::User {
        users_of(ms.drop_last()).push(content_or_empty(ms.last()))
    } else {
        users_of(ms.drop_last())
    }
}

pub proof fn lemma_users_of_split(ms: Seq<MessageView>, i: int)
    requires
        0 <= i <= ms.len(),
    ensures
        users_of(ms) == users_of(ms.take(i)) + users_of(ms.skip(i)),
        users_of(ms).len() == user_count(ms),
    decreases ms.len(),
{
    if ms.len() == 0 {
        assert(ms.take(i) =~= ms);
        assert(ms.skip(i) =~= ms);
        assert(users_of(ms.take(i)) + users_of(ms.skip(i)) =~= Seq::<Seq<char>>::empty());
    } else if i == ms.len() {
        lemma_users_of_split(ms.drop_last(), i - 1);
        assert(ms.take(i) =~= ms);
        assert(ms.skip(i) =~= Seq::<MessageView>::empty());
        assert(users_of(ms.take(i)) + users_of(ms.skip(i)) =~= users_of(ms));
    } else {
        lemma_users_of_split(ms.drop_last(), i);
        assert(ms.drop_last().take(i) =~= ms.take(i));
        assert(ms.skip(i).drop_last() =~= ms.drop_last().skip(i));
        assert(ms.skip(i).last() == ms.last());
        if ms.last().role == Role::User {
            assert(users_of(ms) =~= users_of(ms.take(i)) + users_of(ms.skip(i)));
        } else {
            assert(users_of(ms) =~= users_of(ms.take(i)) + users_of(ms.skip(i)));
        }
    }
}

proof fn lemma_users_of_concat(a: Seq<MessageView>, b: Seq<MessageView>)
    ensures
        users_of(a + b) == users_of(a) + users_of(b),
{
    lemma_users_of_split(a + b, a.len() as int);
    assert((a + b).take(a.len() as int) =~= a);
    assert((a + b).skip(a.len() as int) =~= b);
}

proof fn lemma_users_of_single(m: MessageView)
    ensures
        users_of(seq![m]) == (if m.role == Role::User {
            seq![content_or_empty(m)]
        } else {
            Seq::<Seq<char>>::empty()
        }),
{
    reveal_with_fuel(users_of, 2);
    assert(seq![m].drop_last() =~= Seq::<MessageView>::empty());
    assert(seq![m].last() == m);
    if m.role == Role::User {
        assert(Seq::<Seq<char>>::empty().push(content_or_empty(m)) =~= seq![content_or_empty(m)]);
    }
}

/// Compaction only shortens tool results: the user messages stay as they were.
proof fn lemma_compact_users(ms: Seq<MessageView>, end: int)
    ensures
        users_of(compact_before_spec(ms, end)) == users_of(ms),
        user_count(compact_before_spec(ms, end)) == user_count(ms),
{
    let c = compact_before_spec(ms, end);
    assert forall|k: int| 0 <= k <= ms.len() implies #[trigger] users_of(c.take(k)) == users_of(
        ms.take(k),
    ) by {
        lemma_users_of_prefix_same_roles(c, ms, end, k);
    }
    assert(c.take(ms.len() as int) =~= c);
    assert(ms.take(ms.len() as int) =~= ms);
    lemma_users_of_split(c, 0);
    lemma_users_of_split(ms, 0);
}

/// Two message lists that agree on every user message (and on which messages are
/// user messages) have the same user contents in every prefix.
proof fn lemma_users_of_prefix_same_roles(
    c: Seq<MessageView>,
    ms: Seq<MessageView>,
    end: int,
    k: int,
)
    requires
        c.len() == ms.len(),
        0 <= k <= ms.len(),
        c == compact_before_spec(ms, end),
    ensures
        users_of(c.take(k)) == users_of(ms.take(k)),
    decreases k,
{
    if k > 0 {
        lemma_users_of_prefix_same_roles(c, ms, end, k - 1);
        assert(c.take(k).drop_last() =~= c.take(k - 1));
        assert(ms.take(k).drop_last() =~= ms.take(k - 1));
        assert(c.take(k).last() == c[k - 1]);
        assert(ms.take(k).last() == ms[k - 1]);
    }
}

proof fn lemma_append_digest_users_of(ms: Seq<MessageView>, line: Seq<char>)
    ensures
        users_of(append_digest_spec(ms, line)) == users_of(ms),
{
    let ms1 = with_system_front(ms);
    if ms.len() == 0 || ms[0].role != Role::System {
        let sys = seq![crate::models::message_of(Role::System, Some(Seq::empty()))];
        lemma_users_of_concat(sys, ms);
        lemma_users_of_single(sys[0]);
        assert(users_of(sys) + users_of(ms) =~= users_of(ms));
    }
    let (base, lines) = split_digest_spec(content_or_empty(ms1[0]));
    let capped = cap_lines(lines.push(line));
    let m = MessageView { content: Some(with_digest(base, capped)), ..ms1[0] };
    let ms2 = ms1.update(0, m);
    lemma_users_of_split(ms1, 1);
    lemma_users_of_split(ms2, 1);
    assert(ms2.skip(1) =~= ms1.skip(1));
    assert(ms1.take(1) =~= seq![ms1[0]]);
    assert(ms2.take(1) =~= seq![m]);
    lemma_users_of_single(ms1[0]);
    lemma_users_of_single(m);
}

proof fn lemma_fold_once_users_of(ms: Seq<MessageView>)
    requires
        user_count(ms) >= 2,
    ensures
        users_of(fold_once(ms)) == users_of(ms).drop_first(),
{
    lemma_users_in_range(ms);
    let s = next_user(ms, 0);
    let e = next_user(ms, s + 1);
    lemma_users_of_split(ms, s);
    lemma_users_of_split(ms.take(s), 0);
    lemma_users_of_split(ms.skip(s), e - s);
    assert(ms.skip(s).take(e - s) =~= ms.subrange(s, e));
    assert(ms.skip(s).skip(e - s) =~= ms.skip(e));
    lemma_users_of_split(ms.subrange(s, e), 0);
    lemma_users_of_split(ms.take(s) + ms.skip(e), 0);
    lemma_users_of_concat(ms.take(s), ms.skip(e));
    lemma_append_digest_users_of(ms.take(s) + ms.skip(e), digest_line_spec(ms.subrange(s, e)));
    assert(users_of(ms.take(s)).len() == 0);
    assert(users_of(ms.subrange(s, e)).len() == 1);
    assert(users_of(ms) =~= users_of(ms.subrange(s, e)) + users_of(ms.skip(e)));
    assert(users_of(ms).drop_first() =~= users_of(ms.skip(e)));
    assert(users_of(ms.take(s)) + users_of(ms.skip(e)) =~= users_of(ms.skip(e)));
}

proof fn lemma_fold_until_users(ms: Seq<MessageView>, budget: nat)
    ensures
        users_of(ms).len() == user_count(ms),
        users_of(fold_until(ms, budget)) == users_of(ms).skip(
            users_of(ms).len() - users_of(fold_until(ms, budget)).len(),
        ),
        users_of(fold_until(ms, budget)).len() <= users_of(ms).len(),
        users_of(fold_until(ms, budget)).len() >= (if user_count(ms) < 3 {
            user_count(ms)
        } else {
            3
        }),
        sat(total(fold_until(ms, budget))) <= budget || user_count(fold_until(ms, budget)) <= 3,
    decreases user_count(ms),
{
    lemma_users_of_split(ms, 0);
    let u = users_of(ms);
    if sat(total(ms)) <= budget || user_count(ms) <= 3 {
        assert(u.skip(0) =~= u);
    } else {
        lemma_fold_once_users(ms);
        lemma_fold_once_users_of(ms);
        let f = fold_once(ms);
        lemma_fold_until_users(f, budget);
        let r = fold_until(f, budget);
        lemma_users_of_split(f, 0);
        lemma_users_of_split(r, 0);
        assert(users_of(f) == u.drop_first());
        assert(u.drop_first().skip(users_of(f).len() - users_of(r).len()) =~= u.skip(
            u.len() - users_of(r).len(),
        ));
    }
}

/// A history that already fits the budget is left unchanged by enforcing it.
pub proof fn law_budget_noop_when_fits(ms: Seq<MessageView>, budget: nat)
    requires
        sat(total(ms)) <= budget,
    ensures
        enforce_spec(ms, budget) == ms,
{
}

/// After enforcing the budget the history fits it, unless no more than the
/// recent turns are left.
pub proof fn law_budget_fits_or_only_recent(ms: Seq<MessageView>, budget: nat)
    ensures
        sat(total(enforce_spec(ms, budget))) <= budget || user_count(enforce_spec(ms, budget))
            <= KEEP_RECENT_TURNS,
{
    if sat(total(ms)) > budget {
        lemma_compact_users(ms, recent_start(ms));
        lemma_fold_until_users(budget_compact_spec(ms), budget);
    }
}

/// Enforcing the budget never drops a recent user turn: the user messages left are
/// the latest ones of the history, word for word, and at least
/// `KEEP_RECENT_TURNS` of them stay (all of them when there are fewer).
pub proof fn law_budget_keeps_recent_user_turns(ms: Seq<MessageView>, budget: nat)
    ensures
        users_of(enforce_spec(ms, budget)) == users_of(ms).skip(
            users_of(ms).len() - users_of(enforce_spec(ms, budget)).len(),
        ),
        users_of(enforce_spec(ms, budget)).len() <= users_of(ms).len(),
        users_of(enforce_spec(ms, budget)).len() >= (if users_of(ms).len() < KEEP_RECENT_TURNS {
            users_of(ms).len()
        } else {
            KEEP_RECENT_TURNS as nat
        }),
{
    lemma_users_of_split(ms, 0);
    if sat(total(ms)) > budget {
        lemma_compact_users(ms, recent_start(ms));
        lemma_fold_until_users(budget_compact_spec(ms), budget);
    } else {
        assert(users_of(ms).skip(0) =~= users_of(ms));
    }
}

proof fn lemma_kth_last_user(ms: Seq<MessageView>, k: nat)
    requires
        k <= user_count(ms),
    ensures
        0 <= kth_last_user(ms, k) <= ms.len(),
        k == 0 ==> kth_last_user(ms, k) == ms.len(),
        k > 0 ==> kth_last_user(ms, k) < ms.len() && ms[kth_last_user(ms, k)].role == Role::User
            && user_count(ms.skip(kth_last_user(ms, k))) == k,
    decreases ms.len(),
{
    if k > 0 && ms.len() > 0 {
        let d = ms.drop_last();
        if ms.last().role == Role::User && k == 1 {
            let sk = ms.skip(ms.len() - 1);
            assert(sk.drop_last() =~= Seq::<MessageView>::empty());
            assert(sk.last() == ms.last());
            assert(user_count(sk) == 1) by {
                reveal_with_fuel(user_count, 2);
            }
        } else {
            let k1: nat = if ms.last().role == Role::User {
                (k - 1) as nat
            } else {
                k
            };
            lemma_kth_last_user(d, k1);
            let j = kth_last_user(d, k1);
            assert(ms.skip(j).drop_last() =~= d.skip(j));
            assert(ms.skip(j).last() == ms.last());
        }
    }
}

proof fn lemma_next_user_at_most(ms: Seq<MessageView>, from: int, j: int)
    requires
        0 <= from <= j < ms.len(),
        ms[j].role == Role::User,
    ensures
        next_user(ms, from) <= j,
{
    lemma_next_user(ms, from);
}

/// Folding the oldest turn keeps a suffix that starts with a user message and
/// holds at most three of them, when more than three user messages are left.
proof fn lemma_fold_once_keeps_suffix(ms: Seq<MessageView>, t: int)
    requires
        0 <= t <= ms.len(),
        t < ms.len() ==> ms[t].role == Role::User,
        user_count(ms) > KEEP_RECENT_TURNS,
        user_count(ms.skip(t)) <= KEEP_RECENT_TURNS,
    ensures
        fold_once(ms).len() >= ms.len() - t,
        fold_once(ms).skip(fold_once(ms).len() - (ms.len() - t)) == ms.skip(t),
{
    lemma_users_in_range(ms);
    lemma_next_user(ms, 0);
    let s = next_user(ms, 0);
    let e = next_user(ms, s + 1);
    lemma_next_user(ms, s + 1);
    lemma_user_count_split(ms, t);
    if s >= t {
        assert forall|j: int| 0 <= j < ms.take(t).len() implies #[trigger] ms.take(t)[j].role
            != Role::User by {
            assert(ms.take(t)[j] == ms[j]);
        }
        lemma_no_users(ms.take(t));
    }
    assert(s < t);
    if t < ms.len() {
        lemma_next_user_at_most(ms, s + 1, t);
    }
    assert(e <= t);
    let x = ms.take(s) + ms.skip(e);
    let n = ms.len() - t;
    assert(x.skip(x.len() - n) =~= ms.skip(t));
    let line = digest_line_spec(ms.subrange(s, e));
    let ms1 = with_system_front(x);
    assert(ms1.skip(ms1.len() - n) =~= ms.skip(t));
    if ms1.len() - n == 0 {
        assert(x.len() > 0 && x[0].role == Role::System);
        assert(x[0] == ms[t]);
        assert(false);
    }
    let (base, lines) = split_digest_spec(content_or_empty(ms1[0]));
    let capped = cap_lines(lines.push(line));
    let m = MessageView { content: Some(with_digest(base, capped)), ..ms1[0] };
    assert(ms1.update(0, m).skip(ms1.len() - n) =~= ms1.skip(ms1.len() - n));
}

proof fn lemma_fold_until_keeps_suffix(ms: Seq<MessageView>, budget: nat, t: int)
    requires
        0 <= t <= ms.len(),
        t < ms.len() ==> ms[t].role == Role::User,
        user_count(ms.skip(t)) <= KEEP_RECENT_TURNS,
    ensures
        fold_until(ms, budget).len() >= ms.len() - t,
        fold_until(ms, budget).skip(fold_until(ms, budget).len() - (ms.len() - t)) == ms.skip(t),
    decreases user_count(ms),
{
    if sat(total(ms)) <= budget || user_count(ms) <= 3 {
    } else {
        lemma_fold_once_users(ms);
        lemma_fold_once_keeps_suffix(ms, t);
        let f = fold_once(ms);
        let t1 = f.len() - (ms.len() - t);
        assert(f.skip(t1) == ms.skip(t));
        if t < ms.len() {
            assert(f[t1] == f.skip(t1)[0]);
            assert(ms.skip(t)[0] == ms[t]);
        }
        lemma_fold_until_keeps_suffix(f, budget, t1);
    }
}

/// Enforcing the budget keeps the recent turns word for word: everything from the
/// earliest of the last `KEEP_RECENT_TURNS` user messages on, tool results
/// included, still ends the history unchanged.
pub proof fn law_budget_keeps_recent_turns_verbatim(ms: Seq<MessageView>, budget: nat)
    ensures
        enforce_spec(ms, budget).len() >= ms.len() - recent_start(ms),
        enforce_spec(ms, budget).skip(
            enforce_spec(ms, budget).len() - (ms.len() - recent_start(ms)),
        ) == ms.skip(recent_start(ms)),
{
    let k: nat = if user_count(ms) < KEEP_RECENT_TURNS {
        user_count(ms)
    } else {
        KEEP_RECENT_TURNS as nat
    };
    lemma_kth_last_user(ms, k);
    let r = recent_start(ms);
    if k == 0 {
        assert(ms.skip(r) =~= Seq::<MessageView>::empty());
    }
    if sat(total(ms)) <= budget {
        assert(ms.skip(r) == ms.skip(ms.len() - (ms.len() - r)));
    } else {
        let c = budget_compact_spec(ms);
        assert(c.skip(r) =~= ms.skip(r));
        if r < ms.len() {
            assert(c[r] == ms[r]);
        }
        lemma_fold_until_keeps_suffix(c, budget, r);
    }
}

/// Capping the digest keeps its newest line and a suffix of the lines, and the
/// kept lines fit the cap unless a single line is left.
pub proof fn law_digest_cap(ls: Seq<Seq<char>>)
    requires
        ls.len() > 0,
    ensures
        1 <= cap_lines(ls).len() <= ls.len(),
        cap_lines(ls) == ls.skip(ls.len() - cap_lines(ls).len()),
        cap_lines(ls).last() == ls.last(),
        lines_cost(cap_lines(ls)) <= DIGEST_MAX_CHARS || cap_lines(ls).len() == 1,
    decreases ls.len(),
{
    if ls.len() > 1 && lines_cost(ls) > 1600 {
        law_digest_cap(ls.drop_first());
        let r = cap_lines(ls.drop_first());
        assert(ls.drop_first().skip(ls.drop_first().len() - r.len()) =~= ls.skip(
            ls.len() - r.len(),
        ));
        assert(ls.drop_first().last() == ls.last());
    } else {
        assert(ls.skip(0) =~= ls);
    }
}

} // verus!

verus! {

// ---------------------------------------------------------------------------
// Retrieval context and unanswered tool calls
// ---------------------------------------------------------------------------

/// The system message (the first message) carries a block of retrieved documents.
pub open spec fn rag_active_spec(ms: Seq<MessageView>) -> bool {
    ms.len() > 0 && ms[0].content is Some && has_sub(
        ms[0].content->0,
        crate::localsearch::RAG_MARKER@,
    )
}

/// Whether the first message holds the retrieved-documents marker.
pub fn rag_active(messages: &[ChatMessage]) -> (r: bool)
    ensures
        r == rag_active_spec(msgs_view(messages@)),
{
    if messages.len() == 0 {
        return false;
    }
    assert(msgs_view(messages@)[0] == messages@[0]@);
    match &messages[0].content {
        Some(c) => crate::text::contains(c.as_str(), crate::localsearch::RAG_MARKER),
        None => false,
    }
}

/// Index of the last assistant message.
pub open spec fn last_assistant(ms: Seq<MessageView>) -> Option<int>
    decreases ms.len(),
{
    if ms.len() == 0 {
        None
    } else if ms.last().role == Role::Assistant {
        Some(ms.len() - 1)
    } else {
        last_assistant(ms.drop_last())
    }
}

/// A tool result at or after `from` answers the call `id`.
pub open spec fn answered_in(ms: Seq<MessageView>, from: int, id: Seq<char>) -> bool {
    exists|j: int| from <= j < ms.len() && #[trigger] ms[j].role == Role::Tool && ms[j].tool_call_id
        == Some(id)
}

/// Ids of the calls `cs` that no tool result at or after `from` answers, in order.
pub open spec fn unanswered(ms: Seq<MessageView>, from: int, cs: Seq<ToolCallView>) -> Seq<
    Seq<char>,
>
    decreases cs.len(),
{
    if cs.len() == 0 {
        Seq::empty()
    } else {
        let r = unanswered(ms, from, cs.drop_last());
        if answered_in(ms, from, cs.last().id) {
            r
        } else {
            r.push(cs.last().id)
        }
    }
}

/// Ids carried by the tool results among `ms[from..to]`, in order.
pub open spec fn result_ids(ms: Seq<MessageView>, from: int, to: int) -> Seq<Seq<char>>
    decreases to - from,
{
    if to <= from {
        Seq::empty()
    } else {
        let r = result_ids(ms, from, to - 1);
        if ms[to - 1].role == Role::Tool && ms[to - 1].tool_call_id is Some {
            r.push(ms[to - 1].tool_call_id->0)
        } else {
            r
        }
    }
}

proof fn lemma_result_ids(ms: Seq<MessageView>, from: int, to: int)
    requires
        0 <= from <= to <= ms.len(),
    ensures
        forall|id: Seq<char>|
            #[trigger] result_ids(ms, from, to).contains(id) <==> exists|j: int|
                from <= j < to && #[trigger] ms[j].role == Role::Tool && ms[j].tool_call_id == Some(
                    id,
                ),
    decreases to - from,
{
    if to > from {
        lemma_result_ids(ms, from, to - 1);
        let r = result_ids(ms, from, to - 1);
        assert forall|id: Seq<char>|
            #[trigger] result_ids(ms, from, to).contains(id) <==> exists|j: int|
                from <= j < to && #[trigger] ms[j].role == Role::Tool && ms[j].tool_call_id == Some(
                    id,
                ) by {
            if ms[to - 1].role == Role::Tool && ms[to - 1].tool_call_id is Some {
                let x = ms[to - 1].tool_call_id->0;
                if result_ids(ms, from, to).contains(id) {
                    let k = choose|k: int|
                        0 <= k < result_ids(ms, from, to).len() && result_ids(ms, from, to)[k]
                            == id;
                    if k < r.len() {
                        assert(r[k] == id);
                        assert(r.contains(id));
                    }
                }
                if r.contains(id) {
                    let k = choose|k: int| 0 <= k < r.len() && r[k] == id;
                    assert(result_ids(ms, from, to)[k] == id);
                }
                if id == x {
                    assert(result_ids(ms, from, to)[r.len() as int] == id);
                }
            }
        }
    }
}

/// Text of the result that closes a call left unanswered.
pub open spec fn closing_note() -> Seq<char> {
    "(턴이 중단되어 실행되지 않음. 이 작업은 잊고 사용자의 다음 요청에 답하라.)"@
}

pub open spec fn closing_result(id: Seq<char>) -> MessageView {
    MessageView {
        role: Role::Tool,
        content: Some(closing_note()),
        tool_calls: None,
        tool_call_id: Some(id),
    }
}

/// The messages with a closing result appended for every call of the last
/// assistant message that has no result yet.
pub open spec fn close_spec(ms: Seq<MessageView>) -> Seq<MessageView> {
    match last_assistant(ms) {
        None => ms,
        Some(la) => match ms[la].tool_calls {
            None => ms,
            Some(cs) => ms + unanswered(ms, la, cs).map_values(|id: Seq<char>| closing_result(id)),
        },
    }
}

proof fn lemma_last_assistant(ms: Seq<MessageView>)
    ensures
        last_assistant(ms) matches Some(la) ==> 0 <= la < ms.len() && ms[la].role
            == Role::Assistant && forall|j: int| la < j < ms.len() ==> #[trigger] ms[j].role
            != Role::Assistant,
        last_assistant(ms) is None ==> forall|j: int| 0 <= j < ms.len() ==> #[trigger] ms[j].role
            != Role::Assistant,
    decreases ms.len(),
{
    if ms.len() > 0 && ms.last().role != Role::Assistant {
        lemma_last_assistant(ms.drop_last());
        assert forall|j: int| 0 <= j < ms.len() - 1 implies ms[j] == ms.drop_last()[j] by {}
    }
}

/// Closes the tool calls of the last assistant message that got no result (the
/// turn was cut short): each gets a synthetic result telling the model to drop it.
pub fn close_dangling_tool_calls(messages: &mut Vec<ChatMessage>)
    ensures
        msgs_view(final(messages)@) == close_spec(msgs_view(old(messages)@)),
{
    let ghost ms = msgs_view(messages@);
    proof {
        lemma_last_assistant(ms);
    }
    // the last assistant message
    let mut k = messages.len();
    while k > 0 && messages[k - 1].role != Role::Assistant
        invariant
            k <= messages@.len(),
            ms == msgs_view(messages@),
            forall|j: int| k <= j < ms.len() ==> #[trigger] ms[j].role != Role::Assistant,
        decreases k,
    {
        assert(ms[k - 1] == messages@[k - 1]@);
        k -= 1;
    }
    if k == 0 {
        assert(last_assistant(ms) is None);
        return;
    }
    let la = k - 1;
    assert(ms[la as int] == messages@[la as int]@);
    proof {
        match last_assistant(ms) {
            Some(x) => {
                if x < la as int {
                    assert(ms[la as int].role != Role::Assistant);
                } else if x > la as int {
                    assert(ms[x].role != Role::Assistant);
                }
            },
            None => {
                assert(ms[la as int].role != Role::Assistant);
            },
        }
    }
    assert(last_assistant(ms) == Some(la as int));
    // ids answered by tool results from there on
    let mut answered: Vec<String> = Vec::new();
    let mut j = la;
    while j < messages.len()
        invariant
            la <= j <= messages@.len(),
            ms == msgs_view(messages@),
            answered@.map_values(|s: String| s@) == result_ids(ms, la as int, j as int),
        decreases messages.len() - j,
    {
        assert(ms[j as int] == messages@[j as int]@);
        let ghost before = answered@.map_values(|s: String| s@);
        if messages[j].role == Role::Tool {
            match &messages[j].tool_call_id {
                Some(id) => {
                    answered.push(id.clone());
                    assert(answered@.map_values(|s: String| s@) =~= before.push(id@));
                },
                None => {},
            }
        }
        j += 1;
    }
    let ghost av = answered@.map_values(|s: String| s@);
    proof {
        lemma_result_ids(ms, la as int, ms.len() as int);
    }
    let calls: Vec<String> = match &messages[la].tool_calls {
        Some(cs) => {
            let ghost cv = crate::models::calls_view(cs@);
            let mut ids: Vec<String> = Vec::new();
            let mut i: usize = 0;
            while i < cs.len()
                invariant
                    i <= cs@.len(),
                    cv == crate::models::calls_view(cs@),
                    av == answered@.map_values(|s: String| s@),
                    av == result_ids(ms, la as int, ms.len() as int),
                    forall|id: Seq<char>|
                        #[trigger] av.contains(id) <==> answered_in(ms, la as int, id),
                    ids@.map_values(|s: String| s@) == unanswered(ms, la as int, cv.take(i as int)),
                decreases cs.len() - i,
            {
                assert(cv.take(i + 1).drop_last() =~= cv.take(i as int));
                let id = &cs[i].id;
                assert(cv.take(i + 1).last().id == id@);
                let mut seen = false;
                let mut a: usize = 0;
                while a < answered.len()
                    invariant
                        a <= answered@.len(),
                        av == answered@.map_values(|s: String| s@),
                        seen <==> exists|b: int| 0 <= b < a && #[trigger] av[b] == id@,
                    decreases answered.len() - a,
                {
                    if answered[a] == *id {
                        seen = true;
                    }
                    assert(av[a as int] == answered@[a as int]@);
                    a += 1;
                }
                assert(seen <==> av.contains(id@));
                let ghost before = ids@.map_values(|s: String| s@);
                if !seen {
                    ids.push(id.clone());
                    assert(ids@.map_values(|s: String| s@) =~= before.push(id@));
                }
                i += 1;
            }
            assert(cv.take(cv.len() as int) =~= cv);
            ids
        },
        None => Vec::new(),
    };
    let ghost pending = calls@.map_values(|s: String| s@);
    let ghost base = msgs_view(messages@);
    let mut i: usize = 0;
    while i < calls.len()
        invariant
            i <= calls@.len(),
            pending == calls@.map_values(|s: String| s@),
            msgs_view(messages@) =~= base + pending.take(i as int).map_values(
                |id: Seq<char>| closing_result(id),
            ),
        decreases calls.len() - i,
    {
        let ghost prev = msgs_view(messages@);
        messages.push(
            ChatMessage::tool(
                calls[i].as_str(),
                "(턴이 중단되어 실행되지 않음. 이 작업은 잊고 사용자의 다음 요청에 답하라.)",
            ),
        );
        assert(msgs_view(messages@) =~= prev.push(closing_result(pending[i as int])));
        assert(pending.take(i + 1).map_values(|id: Seq<char>| closing_result(id)) =~= pending.take(
            i as int,
        ).map_values(|id: Seq<char>| closing_result(id)).push(closing_result(pending[i as int])));
        i += 1;
    }
    assert(pending.take(pending.len() as int) =~= pending);
}

/// After closing, every tool call of the last assistant message has a result,
/// and the earlier messages are kept as they were.
pub proof fn law_close_answers_every_call(ms: Seq<MessageView>)
    ensures
        close_spec(ms).len() >= ms.len(),
        close_spec(ms).take(ms.len() as int) == ms,
        last_assistant(ms) matches Some(la) ==> (ms[la].tool_calls matches Some(cs) ==> forall|
            c: int,
        |
            0 <= c < cs.len() ==> answered_in(close_spec(ms), la, #[trigger] cs[c].id)),
{
    lemma_last_assistant(ms);
    match last_assistant(ms) {
        None => {
            assert(ms.take(ms.len() as int) =~= ms);
        },
        Some(la) => match ms[la].tool_calls {
            None => {
                assert(ms.take(ms.len() as int) =~= ms);
            },
            Some(cs) => {
                let r = close_spec(ms);
                let u = unanswered(ms, la, cs);
                assert(r.take(ms.len() as int) =~= ms);
                assert forall|c: int| 0 <= c < cs.len() implies answered_in(
                    r,
                    la,
                    #[trigger] cs[c].id,
                ) by {
                    lemma_unanswered_complete(ms, la, cs, c);
                    if answered_in(ms, la, cs[c].id) {
                        let t = choose|t: int|
                            la <= t < ms.len() && #[trigger] ms[t].role == Role::Tool
                                && ms[t].tool_call_id == Some(cs[c].id);
                        assert(r[t] == ms[t]);
                        assert(r[t].role == Role::Tool && r[t].tool_call_id == Some(cs[c].id));
                    } else {
                        let k = choose|k: int| 0 <= k < u.len() && u[k] == cs[c].id;
                        assert(r[ms.len() + k] == closing_result(u[k]));
                        assert(r[ms.len() + k].role == Role::Tool && r[ms.len()
                            + k].tool_call_id == Some(cs[c].id));
                    }
                }
            },
        },
    }
}

proof fn lemma_unanswered_complete(ms: Seq<MessageView>, from: int, cs: Seq<ToolCallView>, c: int)
    requires
        0 <= c < cs.len(),
    ensures
        answered_in(ms, from, cs[c].id) || exists|k: int|
            0 <= k < unanswered(ms, from, cs).len() && unanswered(ms, from, cs)[k] == cs[c].id,
    decreases cs.len(),
{
    if c < cs.len() - 1 {
        lemma_unanswered_complete(ms, from, cs.drop_last(), c);
        assert(cs.drop_last()[c] == cs[c]);
        if !answered_in(ms, from, cs[c].id) {
            let k = choose|k: int|
                0 <= k < unanswered(ms, from, cs.drop_last()).len() && unanswered(
                    ms,
                    from,
                    cs.drop_last(),
                )[k] == cs[c].id;
            assert(unanswered(ms, from, cs)[k] == cs[c].id);
        }
    } else if !answered_in(ms, from, cs[c].id) {
        let k = unanswered(ms, from, cs.drop_last()).len() as int;
        assert(unanswered(ms, from, cs)[k] == cs[c].id);
    }
}

} // verus!
