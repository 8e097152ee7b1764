//! The decisions of one agent turn, as a state machine.
//!
//! A turn alternates model completions and tool executions, which the caller
//! performs. This module decides everything in between: which tools the model may
//! see, whether a completion is retried, answered, or leads to tool calls, which
//! calls are refused (malformed arguments, hidden tools, repeats), when a turn that
//! makes no progress is made to finish, and how the history is left when it ends.
use vstd::prelude::*;

use crate::fallback::{
    failure_note_spec, last_user_text, location_question_spec, synthesize_failure_note,
    synthesize_location_question,
};
use crate::history::{close_dangling_tool_calls, close_spec, rag_active, rag_active_spec};
use crate::markup::{strip_markup_spec, strip_tool_markup};
use crate::models::{
    calls_view, msgs_view, opt_view, ChatMessage, CompletionResult, MessageView, Role, ToolCall,
    ToolCallView,
};
use crate::routing::{excluded_tools, tools_to_exclude};
use crate::text::{
    chars_of, clip, clip_spec, decimal, has_sub, push_str, strs_view, to_string, trim,
};

verus! {

/// Whether `s` is a JSON text (what `serde_json::from_str::<serde_json::Value>`
/// accepts).
pub uninterp spec fn valid_json(s: Seq<char>) -> bool;

/// Calls `serde_json::from_str::<serde_json::Value>` and reports whether it
/// parsed; the answer is named [`valid_json`] of the text.
#[verifier::external_body]
fn json_is_valid(s: &str) -> (r: bool)
    ensures
        r == valid_json(s@),
{
    serde_json::from_str::<serde_json::Value>(s).is_ok()
}

/// Rounds in a row without any successful call after which the model must answer
/// without tools.
pub const MAX_REJECTED_ROUNDS: u32 = 2;

/// The absolute round cap is this many times the configured round budget.
pub const HARD_CAP_FACTOR: u32 = 3;

/// Tools that leave the file system as it was.
pub open spec fn read_only_tools() -> Seq<Seq<char>> {
    seq!["list_dir"@, "search_files"@, "read_file"@, "image_info"@, "pdf_extract_text"@]
}

pub open spec fn is_read_only(name: Seq<char>) -> bool {
    read_only_tools().contains(name)
}

/// `max_rounds * 3`, saturated, and never below `max_rounds`.
pub open spec fn hard_cap_spec(max_rounds: u32) -> u32 {
    let m = if max_rounds as int * 3 > u32::MAX {
        u32::MAX
    } else {
        (max_rounds * 3) as u32
    };
    if m < max_rounds {
        max_rounds
    } else {
        m
    }
}

pub open spec fn malformed_text() -> Seq<char> {
    "오류: 도구 인자가 유효한 JSON이 아니어서 실행하지 않았습니다. 인자를 짧고 정확하게 다시 작성하세요 (경로는 슬래시 사용)."@
}

pub open spec fn duplicate_text() -> Seq<char> {
    "이미 같은 인자로 호출한 도구입니다. 위의 기존 결과를 사용하거나 다른 행동을 취하세요."@
}

pub open spec fn hidden_tool_text(name: Seq<char>) -> Seq<char> {
    "오류: '"@ + name + "' 도구는 이번 요청에 사용할 수 없습니다. 제공된 도구 목록에서 다시 선택하세요."@
}

pub open spec fn empty_completion_text() -> Seq<char> {
    "모델이 응답을 완성하지 못했습니다 (출력 한도 내 사고 초과). 질문을 더 구체적으로 하거나 설정에서 출력 토큰을 늘려보세요."@
}

pub open spec fn hard_cap_text(cap: u32) -> Seq<char> {
    "도구 호출 한도("@ + decimal(cap as nat) + "회) 초과로 중단"@
}

pub open spec fn stalled_text() -> Seq<char> {
    "도구 실행이 진전 없이 반복되어 작업을 중단했습니다. 요청을 바꿔 다시 시도해보세요."@
}

pub open spec fn interrupted_text() -> Seq<char> {
    "이 작업은 완료되지 않은 채 중단되었습니다. 다음 요청부터 새로 진행합니다."@
}

/// A tool call of this round, as the caller is to handle it.
pub struct PlannedCall {
    pub id: String,
    pub name: String,
    /// The arguments; `{}` when the model's were not valid JSON.
    pub arguments: String,
}

/// What follows a completion.
pub enum RoundStep {
    /// The completion was empty: ask again (once per turn).
    Retry,
    /// The completion was empty again: report this and end the turn.
    Empty(String),
    /// The model answered without calling a tool: the turn is over.
    Answered,
    /// The round cap is used up: report this and end the turn.
    HardCap(String),
    /// Handle these calls, in order.
    Calls(Vec<PlannedCall>),
}

/// How a call is handled.
pub enum CallCheck {
    /// Run the tool.
    Execute,
    /// Do not run it; this text is its result.
    Refuse(String),
}

/// How a forced final answer ends the turn.
pub enum ForcedEnd {
    /// The model wrote an answer; it is in the history.
    Answered,
    /// The model wrote nothing: this synthesized answer (also in the history) is to
    /// be shown.
    Synthesized(String),
    /// Nothing could be said: report this.
    Stalled(String),
}

/// State of one turn.
pub struct TurnState {
    /// The latest user message.
    pub user_text: String,
    /// Tools hidden for this turn because of what the user asked.
    pub excluded: Vec<&'static str>,
    /// Retrieved documents were merged into the system prompt: no tools at all.
    pub rag_on: bool,
    /// (tool, trimmed arguments) of the calls run this turn.
    pub executed: Vec<(String, String)>,
    /// Tools whose repeated calls were refused; hidden from then on.
    pub looping_tools: Vec<String>,
    pub empty_retry_left: u32,
    /// Rounds in a row without a successful call.
    pub rejected_rounds: u32,
    /// A tool that changes files succeeded this turn.
    pub had_write_success: bool,
    pub hard_cap: u32,
    /// Ids of this round's calls whose arguments were not valid JSON.
    pub malformed_ids: Vec<String>,
    /// Some call of this round succeeded.
    pub round_success: bool,
}

pub open spec fn pairs_view(v: Seq<(String, String)>) -> Seq<(Seq<char>, Seq<char>)> {
    v.map_values(|p: (String, String)| (p.0@, p.1@))
}

pub open spec fn names_view(v: Seq<String>) -> Seq<Seq<char>> {
    v.map_values(|s: String| s@)
}

/// The calls of a completion with every call whose arguments are not valid JSON
/// given `{}` instead.
pub open spec fn sanitize_calls(cs: Seq<ToolCallView>) -> Seq<ToolCallView> {
    cs.map_values(
        |c: ToolCallView|
            if valid_json(c.function.arguments) {
                c
            } else {
                ToolCallView {
                    function: crate::models::FunctionCallView { arguments: "{}"@, ..c.function },
                    ..c
                }
            },
    )
}

/// Ids of the calls whose arguments are not valid JSON.
pub open spec fn malformed_ids_spec(cs: Seq<ToolCallView>) -> Seq<Seq<char>>
    decreases cs.len(),
{
    if cs.len() == 0 {
        Seq::empty()
    } else if valid_json(cs.last().function.arguments) || malformed_ids_spec(
        cs.drop_last(),
    ).contains(cs.last().id) {
        malformed_ids_spec(cs.drop_last())
    } else {
        malformed_ids_spec(cs.drop_last()).push(cs.last().id)
    }
}

proof fn lemma_push_distinct<A>(s: Seq<A>, x: A)
    requires
        s.no_duplicates(),
        !s.contains(x),
    ensures
        s.push(x).no_duplicates(),
{
    assert forall|i: int, j: int| 0 <= i < j < s.push(x).len() implies s.push(x)[i] != s.push(
        x,
    )[j] by {
        if j == s.len() {
            assert(s.push(x)[i] == s[i]);
        } else {
            assert(s.push(x)[i] == s[i] && s.push(x)[j] == s[j]);
        }
    }
}

proof fn lemma_malformed_ids_distinct(cs: Seq<ToolCallView>)
    ensures
        malformed_ids_spec(cs).no_duplicates(),
    decreases cs.len(),
{
    if cs.len() > 0 {
        lemma_malformed_ids_distinct(cs.drop_last());
        let r = malformed_ids_spec(cs.drop_last());
        if !(valid_json(cs.last().function.arguments) || r.contains(cs.last().id)) {
            lemma_push_distinct(r, cs.last().id);
        }
    }
}

/// The assistant message recorded for a completion.
pub open spec fn assistant_of(content: Seq<char>, calls: Seq<ToolCallView>) -> MessageView {
    MessageView {
        role: Role::Assistant,
        content: if content.len() == 0 {
            None
        } else {
            Some(content)
        },
        tool_calls: if calls.len() == 0 {
            None
        } else {
            Some(calls)
        },
        tool_call_id: None,
    }
}

/// The answer text of a completion: markup cut when it calls no tool.
pub open spec fn answer_text(content: Seq<char>, calls: Seq<ToolCallView>) -> Seq<char> {
    if calls.len() == 0 {
        strip_markup_spec(content)
    } else {
        content
    }
}

/// Some of the last `n` messages is a tool result containing `marker`.
pub open spec fn recent_tool_with(ms: Seq<MessageView>, n: int, marker: Seq<char>) -> bool {
    exists|i: int|
        0 <= i < ms.len() && ms.len() - n <= i && #[trigger] ms[i].role == Role::Tool
            && ms[i].content is Some && has_sub(ms[i].content->0, marker)
}

impl TurnState {
    /// The state at the start of a turn over `messages` (whose last user message is
    /// the request).
    pub fn start(messages: &[ChatMessage], max_tool_rounds: u32) -> (st: TurnState)
        ensures
            st.user_text@ == last_user_text(msgs_view(messages@)),
            strs_view(st.excluded@) == excluded_tools(last_user_text(msgs_view(messages@))),
            st.rag_on == rag_active_spec(msgs_view(messages@)),
            st.executed@.len() == 0,
            st.looping_tools@.len() == 0,
            st.empty_retry_left == 1,
            st.rejected_rounds == 0,
            !st.had_write_success,
            st.hard_cap == hard_cap_spec(max_tool_rounds),
            st.malformed_ids@.len() == 0,
            !st.round_success,
            turn_wf(st),
    {
        let ut = crate::fallback::last_user_text_of(messages);
        let user_text = crate::text::string_of(ut.as_slice());
        let excluded = tools_to_exclude(user_text.as_str());
        let m = match max_tool_rounds.checked_mul(HARD_CAP_FACTOR) {
            Some(v) => v,
            None => u32::MAX,
        };
        let hard_cap = if m < max_tool_rounds {
            max_tool_rounds
        } else {
            m
        };
        TurnState {
            user_text,
            excluded,
            rag_on: rag_active(messages),
            executed: Vec::new(),
            looping_tools: Vec::new(),
            empty_retry_left: 1,
            rejected_rounds: 0,
            had_write_success: false,
            hard_cap,
            malformed_ids: Vec::new(),
            round_success: false,
        }
    }

    /// The tools to hide from the model this round; `None` when no tool at all is
    /// offered (the answer is to come from the retrieved documents).
    pub fn hidden_tools(&self) -> (r: Option<Vec<String>>)
        ensures
            self.rag_on ==> r is None,
            !self.rag_on ==> (r matches Some(v) && names_view(v@) == strs_view(self.excluded@)
                + names_view(self.looping_tools@)),
    {
        if self.rag_on {
            return None;
        }
        let mut v: Vec<String> = Vec::new();
        let mut i: usize = 0;
        while i < self.excluded.len()
            invariant
                i <= self.excluded@.len(),
                names_view(v@) =~= strs_view(self.excluded@.take(i as int)),
            decreases self.excluded.len() - i,
        {
            v.push(to_string(self.excluded[i]));
            i += 1;
            assert(strs_view(self.excluded@.take(i as int)) =~= strs_view(
                self.excluded@.take(i - 1),
            ).push(self.excluded@[i - 1]@));
        }
        assert(self.excluded@.take(self.excluded@.len() as int) =~= self.excluded@);
        let mut j: usize = 0;
        while j < self.looping_tools.len()
            invariant
                j <= self.looping_tools@.len(),
                names_view(v@) =~= strs_view(self.excluded@) + names_view(
                    self.looping_tools@.take(j as int),
                ),
            decreases self.looping_tools.len() - j,
        {
            let ghost prev = names_view(v@);
            v.push(self.looping_tools[j].clone());
            assert(names_view(v@) =~= prev.push(self.looping_tools@[j as int]@));
            j += 1;
            assert(names_view(self.looping_tools@.take(j as int)) =~= names_view(
                self.looping_tools@.take(j - 1),
            ).push(self.looping_tools@[j - 1]@));
        }
        assert(self.looping_tools@.take(self.looping_tools@.len() as int) =~= self.looping_tools@);
        Some(v)
    }
}

/// Whether a model-server error reports that the context window was exceeded.
pub fn is_context_overflow(message: &str) -> (r: bool)
    ensures
        r == (has_sub(message@, "exceed"@) && has_sub(message@, "context"@)),
{
    crate::text::contains(message, "exceed") && crate::text::contains(message, "context")
}

/// After a completion failed with the server error `message`: when the context
/// window was exceeded, older tool results are cut (all but the two most recent),
/// and the completion is to be asked again only if something was cut; any other
/// error leaves the history as it is and ends the turn.
pub fn retry_after_error(messages: &mut Vec<ChatMessage>, message: &str) -> (retry: bool)
    ensures
        (has_sub(message@, "exceed"@) && has_sub(message@, "context"@)) ==> msgs_view(
            final(messages)@,
        ) == crate::history::compact_spec(msgs_view(old(messages)@)) && retry == (
        crate::history::compact_count(msgs_view(old(messages)@), old(messages)@.len() as int) > 0),
        !(has_sub(message@, "exceed"@) && has_sub(message@, "context"@)) ==> msgs_view(
            final(messages)@,
        ) == msgs_view(old(messages)@) && !retry,
{
    if !is_context_overflow(message) {
        return false;
    }
    crate::history::compact_old_tool_results(messages) > 0
}

} // verus!

verus! {

pub open spec fn planned_view(v: Seq<PlannedCall>) -> Seq<(Seq<char>, Seq<char>, Seq<char>)> {
    v.map_values(|p: PlannedCall| (p.id@, p.name@, p.arguments@))
}

pub open spec fn calls_triples(cs: Seq<ToolCallView>) -> Seq<(Seq<char>, Seq<char>, Seq<char>)> {
    cs.map_values(|c: ToolCallView| (c.id, c.function.name, c.function.arguments))
}

/// The calls run, the looping tools and the malformed ids are sets: nothing occurs
/// twice in them.
pub open spec fn turn_wf(st: TurnState) -> bool {
    &&& pairs_view(st.executed@).no_duplicates()
    &&& names_view(st.looping_tools@).no_duplicates()
    &&& names_view(st.malformed_ids@).no_duplicates()
}

/// The fields of a turn state that a step leaves alone.
pub open spec fn same_turn(a: TurnState, b: TurnState) -> bool {
    &&& a.user_text@ == b.user_text@
    &&& a.excluded@ == b.excluded@
    &&& a.rag_on == b.rag_on
    &&& pairs_view(a.executed@) == pairs_view(b.executed@)
    &&& names_view(a.looping_tools@) == names_view(b.looping_tools@)
    &&& a.rejected_rounds == b.rejected_rounds
    &&& a.had_write_success == b.had_write_success
    &&& a.hard_cap == b.hard_cap
}

impl TurnState {
    /// Handles a completion of round `round`: arguments that are not valid JSON are
    /// replaced by `{}` (and their calls refused later), markup is cut from an answer
    /// that calls no tool, an empty completion is retried once, and otherwise the
    /// completion is recorded as an assistant message.
    pub fn on_completion(
        &mut self,
        messages: &mut Vec<ChatMessage>,
        result: CompletionResult,
        round: u32,
    ) -> (step: RoundStep)
        ensures
            turn_wf(*old(self)) ==> turn_wf(*final(self)),
            same_turn(*old(self), *final(self)),
            names_view(final(self).malformed_ids@) == malformed_ids_spec(calls_view(result.tool_calls@)),
            !final(self).round_success,
            ({
                let cs = calls_view(result.tool_calls@);
                let text = answer_text(result.content@, cs);
                if text.len() == 0 && cs.len() == 0 {
                    &&& msgs_view(final(messages)@) == msgs_view(old(messages)@)
                    &&& old(self).empty_retry_left > 0 ==> step is Retry
                        && final(self).empty_retry_left == old(self).empty_retry_left - 1
                    &&& old(self).empty_retry_left == 0 ==> (step matches RoundStep::Empty(m)
                        && m@ == empty_completion_text()) && final(self).empty_retry_left == 0
                } else {
                    &&& msgs_view(final(messages)@) == msgs_view(old(messages)@).push(
                        assistant_of(text, sanitize_calls(cs)),
                    )
                    &&& final(self).empty_retry_left == old(self).empty_retry_left
                    &&& cs.len() == 0 ==> step is Answered
                    &&& cs.len() > 0 && round == old(self).hard_cap ==> (step matches RoundStep::HardCap(
                        m,
                    ) && m@ == hard_cap_text(old(self).hard_cap))
                    &&& cs.len() > 0 && round != old(self).hard_cap ==> (step matches RoundStep::Calls(
                        v,
                    ) && planned_view(v@) == calls_triples(sanitize_calls(cs)))
                }
            }),
    {
        let ghost cs = calls_view(result.tool_calls@);
        let mut calls: Vec<ToolCall> = Vec::new();
        let mut planned: Vec<PlannedCall> = Vec::new();
        let mut bad: Vec<String> = Vec::new();
        let mut i: usize = 0;
        while i < result.tool_calls.len()
            invariant
                i <= result.tool_calls@.len(),
                cs == calls_view(result.tool_calls@),
                calls_view(calls@) =~= sanitize_calls(cs.take(i as int)),
                planned_view(planned@) =~= calls_triples(sanitize_calls(cs.take(i as int))),
                names_view(bad@) =~= malformed_ids_spec(cs.take(i as int)),
            decreases result.tool_calls.len() - i,
        {
            let c = &result.tool_calls[i];
            let ok = json_is_valid(c.function.arguments.as_str());
            let mut d = c.duplicate();
            if !ok && !contains_string(&bad, c.id.as_str()) {
                let ghost before = names_view(bad@);
                bad.push(c.id.clone());
                assert(names_view(bad@) =~= before.push(c.id@));
            }
            if !ok {
                d.function.arguments = to_string("{}");
            }
            let ghost cprev = calls_view(calls@);
            let ghost pprev = planned_view(planned@);
            planned.push(
                PlannedCall {
                    id: d.id.clone(),
                    name: d.function.name.clone(),
                    arguments: d.function.arguments.clone(),
                },
            );
            calls.push(d);
            assert(cs.take(i + 1).drop_last() =~= cs.take(i as int));
            assert(cs.take(i + 1).last() == c@);
            assert(sanitize_calls(cs.take(i + 1)) =~= sanitize_calls(cs.take(i as int)).push(
                sanitize_calls(cs.take(i + 1)).last(),
            ));
            assert(calls_view(calls@) =~= cprev.push(calls@[i as int]@));
            assert(planned_view(planned@) =~= pprev.push(
                (planned@[i as int].id@, planned@[i as int].name@, planned@[i as int].arguments@),
            ));
            i += 1;
        }
        assert(cs.take(cs.len() as int) =~= cs);
        self.malformed_ids = bad;
        proof {
            lemma_malformed_ids_distinct(cs);
        }
        self.round_success = false;
        let mut content = result.content;
        if calls.len() == 0 {
            strip_tool_markup(&mut content);
        }
        let empty = crate::text::chars_of(content.as_str()).len() == 0;
        if empty && calls.len() == 0 {
            if self.empty_retry_left > 0 {
                self.empty_retry_left = self.empty_retry_left - 1;
                return RoundStep::Retry;
            }
            return RoundStep::Empty(to_string(
                "모델이 응답을 완성하지 못했습니다 (출력 한도 내 사고 초과). 질문을 더 구체적으로 하거나 설정에서 출력 토큰을 늘려보세요.",
            ));
        }
        let n = calls.len();
        let text_opt = if empty {
            None
        } else {
            Some(content)
        };
        let calls_opt = if n == 0 {
            None
        } else {
            Some(calls)
        };
        let ghost before = msgs_view(messages@);
        messages.push(ChatMessage::assistant(text_opt, calls_opt));
        assert(msgs_view(messages@) =~= before.push(messages@.last()@));
        if n == 0 {
            return RoundStep::Answered;
        }
        if round == self.hard_cap {
            let mut m = to_string("도구 호출 한도(");
            let num = crate::text::u64_to_string(self.hard_cap as u64);
            push_str(&mut m, num.as_str());
            push_str(&mut m, "회) 초과로 중단");
            return RoundStep::HardCap(m);
        }
        RoundStep::Calls(planned)
    }
}

} // verus!

verus! {

/// The calls run so far that a successful write leaves on record: those of tools
/// that change files (read results may be stale after a write).
pub open spec fn keep_write_calls(ps: Seq<(Seq<char>, Seq<char>)>) -> Seq<(Seq<char>, Seq<char>)>
    decreases ps.len(),
{
    if ps.len() == 0 {
        Seq::empty()
    } else if is_read_only(ps.last().0) {
        keep_write_calls(ps.drop_last())
    } else {
        keep_write_calls(ps.drop_last()).push(ps.last())
    }
}

pub open spec fn keep_write_names(ns: Seq<Seq<char>>) -> Seq<Seq<char>>
    decreases ns.len(),
{
    if ns.len() == 0 {
        Seq::empty()
    } else if is_read_only(ns.last()) {
        keep_write_names(ns.drop_last())
    } else {
        keep_write_names(ns.drop_last()).push(ns.last())
    }
}

proof fn lemma_keep_write_calls_distinct(ps: Seq<(Seq<char>, Seq<char>)>)
    requires
        ps.no_duplicates(),
    ensures
        keep_write_calls(ps).no_duplicates(),
        forall|x: (Seq<char>, Seq<char>)| #[trigger] keep_write_calls(ps).contains(x) ==> ps.contains(x),
    decreases ps.len(),
{
    if ps.len() > 0 {
        let d = ps.drop_last();
        assert(d.no_duplicates()) by {
            assert forall|i: int, j: int| 0 <= i < j < d.len() implies d[i] != d[j] by {
                assert(d[i] == ps[i] && d[j] == ps[j]);
            }
        }
        lemma_keep_write_calls_distinct(d);
        let k = keep_write_calls(d);
        if !is_read_only(ps.last().0) {
            if k.contains(ps.last()) {
                let i = choose|i: int| 0 <= i < d.len() && d[i] == ps.last();
                assert(ps[i] == ps[ps.len() - 1]);
            }
            lemma_push_distinct(k, ps.last());
        }
        assert forall|x: (Seq<char>, Seq<char>)| #[trigger] keep_write_calls(ps).contains(x) implies ps.contains(x) by {
            if k.contains(x) {
                let i = choose|i: int| 0 <= i < d.len() && d[i] == x;
                assert(ps[i] == x);
            } else {
                assert(x == ps[ps.len() - 1]);
            }
        }
    }
}

proof fn lemma_keep_write_names_distinct(ns: Seq<Seq<char>>)
    requires
        ns.no_duplicates(),
    ensures
        keep_write_names(ns).no_duplicates(),
        forall|x: Seq<char>| #[trigger] keep_write_names(ns).contains(x) ==> ns.contains(x),
    decreases ns.len(),
{
    if ns.len() > 0 {
        let d = ns.drop_last();
        assert(d.no_duplicates()) by {
            assert forall|i: int, j: int| 0 <= i < j < d.len() implies d[i] != d[j] by {
                assert(d[i] == ns[i] && d[j] == ns[j]);
            }
        }
        lemma_keep_write_names_distinct(d);
        let k = keep_write_names(d);
        if !is_read_only(ns.last()) {
            if k.contains(ns.last()) {
                let i = choose|i: int| 0 <= i < d.len() && d[i] == ns.last();
                assert(ns[i] == ns[ns.len() - 1]);
            }
            lemma_push_distinct(k, ns.last());
        }
        assert forall|x: Seq<char>| #[trigger] keep_write_names(ns).contains(x) implies ns.contains(x) by {
            if k.contains(x) {
                let i = choose|i: int| 0 <= i < d.len() && d[i] == x;
                assert(ns[i] == x);
            } else {
                assert(x == ns[ns.len() - 1]);
            }
        }
    }
}

pub open spec fn tool_result(id: Seq<char>, content: Seq<char>) -> MessageView {
    MessageView {
        role: Role::Tool,
        content: Some(content),
        tool_calls: None,
        tool_call_id: Some(id),
    }
}

/// Whether `name` is one of the read-only tools.
pub fn is_read_only_tool(name: &str) -> (r: bool)
    ensures
        r == is_read_only(name@),
{
    let names: [&str; 5] = ["list_dir", "search_files", "read_file", "image_info", "pdf_extract_text"];
    let ghost rv = read_only_tools();
    let nv = chars_of(name);
    let mut i: usize = 0;
    while i < 5
        invariant
            i <= 5,
            rv == read_only_tools(),
            nv@ == name@,
            forall|j: int| 0 <= j < 5 ==> (#[trigger] names@[j])@ == rv[j],
            forall|j: int| 0 <= j < i ==> rv[j] != name@,
        decreases 5 - i,
    {
        let cv = chars_of(names[i]);
        if crate::text::starts_with_chars(nv.as_slice(), cv.as_slice()) && nv.len() == cv.len() {
            assert(nv@ =~= cv@);
            assert(rv[i as int] == name@);
            return true;
        }
        assert(rv[i as int] != name@) by {
            if rv[i as int] == name@ {
                assert(nv@.subrange(0, cv@.len() as int) =~= cv@);
            }
        }
        i += 1;
    }
    assert(!rv.contains(name@));
    false
}

/// Whether `names` holds `s`.
fn contains_string(names: &Vec<String>, s: &str) -> (r: bool)
    ensures
        r == names_view(names@).contains(s@),
{
    let mut i: usize = 0;
    while i < names.len()
        invariant
            i <= names@.len(),
            forall|j: int| 0 <= j < i ==> names@[j]@ != s@,
        decreases names.len() - i,
    {
        if crate::text::contains(names[i].as_str(), s) && crate::text::contains(s, names[i].as_str()) {
            proof {
                lemma_mutual_sub(names@[i as int]@, s@);
            }
            assert(names_view(names@)[i as int] == s@);
            return true;
        }
        proof {
            if names@[i as int]@ == s@ {
                assert(crate::text::sub_at(s@, s@, 0)) by {
                    assert(s@.subrange(0, s@.len() as int) =~= s@);
                }
            }
        }
        i += 1;
    }
    assert(!names_view(names@).contains(s@));
    false
}

/// Two texts that occur in each other are equal.
proof fn lemma_mutual_sub(a: Seq<char>, b: Seq<char>)
    requires
        has_sub(a, b),
        has_sub(b, a),
    ensures
        a == b,
{
    let i = choose|i: int| crate::text::sub_at(a, b, i);
    let j = choose|j: int| crate::text::sub_at(b, a, j);
    assert(a.len() == b.len());
    assert(i == 0);
    assert(a =~= a.subrange(0, b.len() as int));
}

/// Whether `ps` holds the pair `(a, b)`.
fn contains_pair(ps: &Vec<(String, String)>, a: &str, b: &str) -> (r: bool)
    ensures
        r == pairs_view(ps@).contains((a@, b@)),
{
    let mut i: usize = 0;
    while i < ps.len()
        invariant
            i <= ps@.len(),
            forall|j: int| 0 <= j < i ==> (ps@[j].0@, ps@[j].1@) != (a@, b@),
        decreases ps.len() - i,
    {
        let (x, y) = &ps[i];
        let ex = crate::text::contains(x.as_str(), a) && crate::text::contains(a, x.as_str());
        let ey = crate::text::contains(y.as_str(), b) && crate::text::contains(b, y.as_str());
        if ex && ey {
            proof {
                lemma_mutual_sub(x@, a@);
                lemma_mutual_sub(y@, b@);
            }
            assert(pairs_view(ps@)[i as int] == (a@, b@));
            return true;
        }
        proof {
            if x@ == a@ {
                assert(crate::text::sub_at(a@, a@, 0)) by {
                    assert(a@.subrange(0, a@.len() as int) =~= a@);
                }
            }
            if y@ == b@ {
                assert(crate::text::sub_at(b@, b@, 0)) by {
                    assert(b@.subrange(0, b@.len() as int) =~= b@);
                }
            }
        }
        i += 1;
    }
    assert(!pairs_view(ps@).contains((a@, b@)));
    false
}

impl TurnState {
    /// Decides whether a planned call runs: calls with malformed arguments, calls of
    /// hidden tools and repeats of a call already run this turn are refused (a
    /// repeated tool is then hidden from the model); other calls are recorded and run.
    pub fn check_call(&mut self, call: &PlannedCall) -> (r: CallCheck)
        ensures
            turn_wf(*old(self)) ==> turn_wf(*final(self)),
            final(self).user_text@ == old(self).user_text@,
            final(self).excluded@ == old(self).excluded@,
            final(self).rag_on == old(self).rag_on,
            final(self).rejected_rounds == old(self).rejected_rounds,
            final(self).had_write_success == old(self).had_write_success,
            final(self).hard_cap == old(self).hard_cap,
            final(self).empty_retry_left == old(self).empty_retry_left,
            final(self).round_success == old(self).round_success,
            names_view(final(self).malformed_ids@) == names_view(old(self).malformed_ids@),
            ({
                let key = (call.name@, trim(call.arguments@));
                let ex = pairs_view(old(self).executed@);
                let lt = names_view(old(self).looping_tools@);
                if names_view(old(self).malformed_ids@).contains(call.id@) {
                    &&& r matches CallCheck::Refuse(t) && t@ == malformed_text()
                    &&& pairs_view(final(self).executed@) == ex
                    &&& names_view(final(self).looping_tools@) == lt
                } else if strs_view(old(self).excluded@).contains(call.name@) {
                    &&& r matches CallCheck::Refuse(t) && t@ == hidden_tool_text(call.name@)
                    &&& pairs_view(final(self).executed@) == ex
                    &&& names_view(final(self).looping_tools@) == lt
                } else if ex.contains(key) {
                    &&& r matches CallCheck::Refuse(t) && t@ == duplicate_text()
                    &&& pairs_view(final(self).executed@) == ex
                    &&& names_view(final(self).looping_tools@) == (if lt.contains(call.name@) {
                        lt
                    } else {
                        lt.push(call.name@)
                    })
                } else {
                    &&& r is Execute
                    &&& pairs_view(final(self).executed@) == ex.push(key)
                    &&& names_view(final(self).looping_tools@) == lt
                }
            }),
    {
        if contains_string(&self.malformed_ids, call.id.as_str()) {
            return CallCheck::Refuse(to_string(
                "오류: 도구 인자가 유효한 JSON이 아니어서 실행하지 않았습니다. 인자를 짧고 정확하게 다시 작성하세요 (경로는 슬래시 사용).",
            ));
        }
        let mut hidden = false;
        let mut i: usize = 0;
        while i < self.excluded.len()
            invariant
                i <= self.excluded@.len(),
                hidden == strs_view(self.excluded@.take(i as int)).contains(call.name@),
            decreases self.excluded.len() - i,
        {
            let e = self.excluded[i];
            let same = crate::text::contains(e, call.name.as_str()) && crate::text::contains(
                call.name.as_str(),
                e,
            );
            proof {
                if same {
                    lemma_mutual_sub(e@, call.name@);
                } else if e@ == call.name@ {
                    assert(crate::text::sub_at(e@, e@, 0)) by {
                        assert(e@.subrange(0, e@.len() as int) =~= e@);
                    }
                }
                let prev = strs_view(self.excluded@.take(i as int));
                assert(strs_view(self.excluded@.take(i + 1)) =~= prev.push(e@));
                if prev.push(e@).contains(call.name@) && !prev.contains(call.name@) {
                    let k = choose|k: int| 0 <= k < prev.len() + 1 && prev.push(e@)[k] == call.name@;
                    if k < prev.len() {
                        assert(prev[k] == call.name@);
                    }
                }
                if prev.contains(call.name@) {
                    let k = choose|k: int| 0 <= k < prev.len() && prev[k] == call.name@;
                    assert(prev.push(e@)[k] == call.name@);
                }
                if e@ == call.name@ {
                    assert(prev.push(e@)[prev.len() as int] == call.name@);
                }
            }
            hidden = hidden || same;
            i += 1;
        }
        assert(self.excluded@.take(self.excluded@.len() as int) =~= self.excluded@);
        if hidden {
            let mut t = to_string("오류: '");
            push_str(&mut t, call.name.as_str());
            push_str(&mut t, "' 도구는 이번 요청에 사용할 수 없습니다. 제공된 도구 목록에서 다시 선택하세요.");
            return CallCheck::Refuse(t);
        }
        let args = crate::text::trim_str(call.arguments.as_str());
        if contains_pair(&self.executed, call.name.as_str(), args.as_str()) {
            if !contains_string(&self.looping_tools, call.name.as_str()) {
                let ghost before = names_view(self.looping_tools@);
                self.looping_tools.push(call.name.clone());
                assert(names_view(self.looping_tools@) =~= before.push(call.name@));
            }
            return CallCheck::Refuse(to_string(
                "이미 같은 인자로 호출한 도구입니다. 위의 기존 결과를 사용하거나 다른 행동을 취하세요.",
            ));
        }
        let ghost before = pairs_view(self.executed@);
        self.executed.push((call.name.clone(), args));
        assert(pairs_view(self.executed@) =~= before.push((call.name@, trim(call.arguments@))));
        CallCheck::Execute
    }
}

} // verus!

verus! {

/// Some of the last `n` messages is a tool result containing `marker`.
fn recent_tool_with_of(messages: &[ChatMessage], n: usize, marker: &str) -> (r: bool)
    ensures
        r == recent_tool_with(msgs_view(messages@), n as int, marker@),
{
    let ghost ms = msgs_view(messages@);
    let mv = chars_of(marker);
    let low: usize = if n < messages.len() {
        messages.len() - n
    } else {
        0
    };
    let mut i = messages.len();
    while i > low
        invariant
            low <= i <= messages@.len(),
            low == 0 || low == messages@.len() - n,
            low == 0 ==> messages@.len() <= n,
            ms == msgs_view(messages@),
            mv@ == marker@,
            forall|j: int|
                i <= j < ms.len() ==> !(#[trigger] ms[j].role == Role::Tool && ms[j].content is Some
                    && has_sub(ms[j].content->0, marker@)),
        decreases i,
    {
        let k = i - 1;
        assert(ms[k as int] == messages@[k as int]@);
        if messages[k].role == Role::Tool {
            match &messages[k].content {
                Some(c) => {
                    let cv = chars_of(c.as_str());
                    if crate::text::contains_chars(cv.as_slice(), mv.as_slice()) {
                        assert(ms[k as int].role == Role::Tool);
                        return true;
                    }
                },
                None => {},
            }
        }
        i = k;
    }
    assert forall|j: int|
        0 <= j < ms.len() && ms.len() - n <= j implies !(#[trigger] ms[j].role == Role::Tool
        && ms[j].content is Some && has_sub(ms[j].content->0, marker@)) by {
        assert(low <= j);
    }
    false
}

/// The last message of a finished turn is not an answer (the turn was cut short).
pub open spec fn ended_without_answer(ms: Seq<MessageView>) -> bool {
    ms.len() > 0 && !(ms.last().role == Role::Assistant && ms.last().content is Some
        && ms.last().content->0.len() > 0)
}

/// The history after a turn: open tool calls closed, and a closing sentence when the
/// turn ended without an answer.
pub open spec fn close_turn_spec(ms: Seq<MessageView>) -> Seq<MessageView> {
    let c = close_spec(ms);
    if ended_without_answer(c) {
        c.push(crate::models::message_of(Role::Assistant, Some(interrupted_text())))
    } else {
        c
    }
}

/// Leaves the history of a finished turn in a state the next turn can build on.
pub fn close_turn(messages: &mut Vec<ChatMessage>)
    ensures
        msgs_view(final(messages)@) == close_turn_spec(msgs_view(old(messages)@)),
{
    close_dangling_tool_calls(messages);
    let n = messages.len();
    if n == 0 {
        return;
    }
    let ghost c = msgs_view(messages@);
    assert(c.last() == messages@[n - 1]@);
    let answered = match &messages[n - 1].content {
        Some(t) => messages[n - 1].role == Role::Assistant && chars_of(t.as_str()).len() > 0,
        None => false,
    };
    if !answered {
        messages.push(ChatMessage::assistant(
            Some(to_string("이 작업은 완료되지 않은 채 중단되었습니다. 다음 요청부터 새로 진행합니다.")),
            None,
        ));
        assert(msgs_view(messages@) =~= c.push(
            crate::models::message_of(Role::Assistant, Some(interrupted_text())),
        ));
    }
}

/// A finished turn's history ends with an answer of the assistant.
pub proof fn law_closed_turn_ends_with_answer(ms: Seq<MessageView>)
    requires
        ms.len() > 0,
    ensures
        close_turn_spec(ms).len() > 0,
        close_turn_spec(ms).last().role == Role::Assistant,
        close_turn_spec(ms).last().content is Some,
        close_turn_spec(ms).last().content->0.len() > 0,
        close_turn_spec(ms).take(ms.len() as int) == ms,
{
    crate::history::law_close_answers_every_call(ms);
    assert(interrupted_text().len() > 0) by {
        reveal_strlit("이 작업은 완료되지 않은 채 중단되었습니다. 다음 요청부터 새로 진행합니다.");
    }
    let c = close_spec(ms);
    if ended_without_answer(c) {
        assert(c.push(crate::models::message_of(Role::Assistant, Some(interrupted_text()))).take(
            ms.len() as int,
        ) =~= c.take(ms.len() as int));
    }
}

impl TurnState {
    /// Records the outcome of a call: the result goes into the history (clipped
    /// at 4000 characters), and a successful tool that changes files forgets the read
    /// calls made so far (they may now give other results). Returns the result
    /// clipped at 2000 characters, as shown to the user.
    pub fn after_call(
        &mut self,
        messages: &mut Vec<ChatMessage>,
        id: &str,
        name: &str,
        ok: bool,
        text: &str,
    ) -> (shown: String)
        ensures
            turn_wf(*old(self)) ==> turn_wf(*final(self)),
            shown@ == clip_spec(text@, 2000),
            msgs_view(final(messages)@) == msgs_view(old(messages)@).push(
                tool_result(id@, clip_spec(text@, 4000)),
            ),
            final(self).round_success == (old(self).round_success || ok),
            final(self).user_text@ == old(self).user_text@,
            final(self).excluded@ == old(self).excluded@,
            final(self).rag_on == old(self).rag_on,
            final(self).rejected_rounds == old(self).rejected_rounds,
            final(self).hard_cap == old(self).hard_cap,
            final(self).empty_retry_left == old(self).empty_retry_left,
            names_view(final(self).malformed_ids@) == names_view(old(self).malformed_ids@),
            ok && !is_read_only(name@) ==> final(self).had_write_success && pairs_view(
                final(self).executed@,
            ) == keep_write_calls(pairs_view(old(self).executed@)) && names_view(
                final(self).looping_tools@,
            ) == keep_write_names(names_view(old(self).looping_tools@)),
            !(ok && !is_read_only(name@)) ==> final(self).had_write_success == old(
                self,
            ).had_write_success && pairs_view(final(self).executed@) == pairs_view(
                old(self).executed@,
            ) && names_view(final(self).looping_tools@) == names_view(old(self).looping_tools@),
    {
        proof {
            if turn_wf(*self) {
                lemma_keep_write_calls_distinct(pairs_view(self.executed@));
                lemma_keep_write_names_distinct(names_view(self.looping_tools@));
            }
        }
        self.round_success = self.round_success || ok;
        if ok && !is_read_only_tool(name) {
            self.had_write_success = true;
            let ghost ex = pairs_view(self.executed@);
            let mut kept: Vec<(String, String)> = Vec::new();
            let mut i: usize = 0;
            while i < self.executed.len()
                invariant
                    i <= self.executed@.len(),
                    ex == pairs_view(self.executed@),
                    pairs_view(kept@) =~= keep_write_calls(ex.take(i as int)),
                decreases self.executed.len() - i,
            {
                assert(ex.take(i + 1).drop_last() =~= ex.take(i as int));
                let (a, b) = &self.executed[i];
                if !is_read_only_tool(a.as_str()) {
                    let ghost before = pairs_view(kept@);
                    kept.push((a.clone(), b.clone()));
                    assert(pairs_view(kept@) =~= before.push((a@, b@)));
                }
                i += 1;
            }
            assert(ex.take(ex.len() as int) =~= ex);
            self.executed = kept;
            let ghost lt = names_view(self.looping_tools@);
            let mut names: Vec<String> = Vec::new();
            let mut j: usize = 0;
            while j < self.looping_tools.len()
                invariant
                    j <= self.looping_tools@.len(),
                    lt == names_view(self.looping_tools@),
                    names_view(names@) =~= keep_write_names(lt.take(j as int)),
                decreases self.looping_tools.len() - j,
            {
                assert(lt.take(j + 1).drop_last() =~= lt.take(j as int));
                let n = &self.looping_tools[j];
                if !is_read_only_tool(n.as_str()) {
                    let ghost before = names_view(names@);
                    names.push(n.clone());
                    assert(names_view(names@) =~= before.push(n@));
                }
                j += 1;
            }
            assert(lt.take(lt.len() as int) =~= lt);
            self.looping_tools = names;
        }
        let stored = clip(text, 4000);
        let ghost before = msgs_view(messages@);
        messages.push(ChatMessage::tool(id, stored.as_str()));
        assert(msgs_view(messages@) =~= before.push(tool_result(id@, clip_spec(text@, 4000))));
        clip(text, 2000)
    }

    /// Ends a round of `n_calls` calls: counts rounds without a successful call (a
    /// failure that carries a path hint does not count), and says whether the model
    /// must now answer without tools: after two such rounds in a row, or at once when
    /// nothing succeeded and a result says the user is to be told (an impossible task).
    pub fn end_round(&mut self, messages: &[ChatMessage], n_calls: usize) -> (must_finish: bool)
        requires
            old(self).rejected_rounds < u32::MAX,
        ensures
            turn_wf(*old(self)) ==> turn_wf(*final(self)),
            ({
                let ms = msgs_view(messages@);
                let hint = recent_tool_with(ms, n_calls as int, "이 경로로 다시 시도하세요"@);
                let tell = recent_tool_with(ms, n_calls as int, "사용자에게 알리세요"@);
                &&& final(self).rejected_rounds == (if old(self).round_success {
                    0
                } else if !hint {
                    old(self).rejected_rounds + 1
                } else {
                    old(self).rejected_rounds as int
                })
                &&& must_finish == (final(self).rejected_rounds >= MAX_REJECTED_ROUNDS || (!old(
                    self,
                ).round_success && !hint && tell))
            }),
            final(self).user_text@ == old(self).user_text@,
            final(self).excluded@ == old(self).excluded@,
            final(self).rag_on == old(self).rag_on,
            final(self).had_write_success == old(self).had_write_success,
            final(self).hard_cap == old(self).hard_cap,
            final(self).empty_retry_left == old(self).empty_retry_left,
            final(self).round_success == old(self).round_success,
            pairs_view(final(self).executed@) == pairs_view(old(self).executed@),
            names_view(final(self).looping_tools@) == names_view(old(self).looping_tools@),
            names_view(final(self).malformed_ids@) == names_view(old(self).malformed_ids@),
    {
        let hint = recent_tool_with_of(messages, n_calls, "이 경로로 다시 시도하세요");
        let tell = recent_tool_with_of(messages, n_calls, "사용자에게 알리세요");
        if self.round_success {
            self.rejected_rounds = 0;
        } else if !hint {
            self.rejected_rounds = self.rejected_rounds + 1;
        }
        self.rejected_rounds >= MAX_REJECTED_ROUNDS || (!self.round_success && !hint && tell)
    }

    /// Ends a turn whose model was made to answer without tools and wrote `content`:
    /// its answer (markup cut) is recorded; when it wrote nothing, a question about
    /// the location of a missing file (only when no file was changed) or a report of
    /// the last error is recorded and shown instead.
    pub fn finish_forced(&mut self, messages: &mut Vec<ChatMessage>, content: String) -> (r:
        ForcedEnd)
        ensures
            turn_wf(*old(self)) ==> turn_wf(*final(self)),
            ({
                let ms = msgs_view(old(messages)@);
                let text = strip_markup_spec(content@);
                let note = if !old(self).had_write_success && location_question_spec(ms) is Some {
                    location_question_spec(ms)
                } else {
                    failure_note_spec(ms, old(self).had_write_success)
                };
                if text.len() > 0 {
                    &&& r is Answered
                    &&& msgs_view(final(messages)@) == ms.push(
                        crate::models::message_of(Role::Assistant, Some(text)),
                    )
                } else {
                    match note {
                        Some(q) => (r matches ForcedEnd::Synthesized(s) && s@ == q) && msgs_view(
                            final(messages)@,
                        ) == ms.push(crate::models::message_of(Role::Assistant, Some(q))),
                        None => (r matches ForcedEnd::Stalled(s) && s@ == stalled_text())
                            && msgs_view(final(messages)@) == ms,
                    }
                }
            }),
    {
        let mut content = content;
        strip_tool_markup(&mut content);
        if chars_of(content.as_str()).len() > 0 {
            let ghost before = msgs_view(messages@);
            messages.push(ChatMessage::assistant(Some(content), None));
            assert(msgs_view(messages@) =~= before.push(messages@.last()@));
            return ForcedEnd::Answered;
        }
        let question = if !self.had_write_success {
            synthesize_location_question(messages.as_slice())
        } else {
            None
        };
        let note = match question {
            Some(q) => Some(q),
            None => synthesize_failure_note(messages.as_slice(), self.had_write_success),
        };
        match note {
            Some(q) => {
                let ghost before = msgs_view(messages@);
                messages.push(ChatMessage::assistant(Some(q.clone()), None));
                assert(msgs_view(messages@) =~= before.push(messages@.last()@));
                ForcedEnd::Synthesized(q)
            },
            None => ForcedEnd::Stalled(to_string(
                "도구 실행이 진전 없이 반복되어 작업을 중단했습니다. 요청을 바꿔 다시 시도해보세요.",
            )),
        }
    }
}

} // verus!

verus! {

/// A call of a tool that changes files stays on record for the rest of the turn,
/// whatever succeeds after it: the same call (same tool, same arguments) is never
/// run twice in a turn.
pub proof fn law_write_calls_stay_recorded(ps: Seq<(Seq<char>, Seq<char>)>, k: (Seq<char>, Seq<char>))
    requires
        ps.contains(k),
        !is_read_only(k.0),
    ensures
        keep_write_calls(ps).contains(k),
    decreases ps.len(),
{
    let i = choose|i: int| 0 <= i < ps.len() && ps[i] == k;
    if i == ps.len() - 1 {
        let r = keep_write_calls(ps.drop_last());
        assert(keep_write_calls(ps) == r.push(k));
        assert(r.push(k)[r.len() as int] == k);
    } else {
        assert(ps.drop_last()[i] == k);
        law_write_calls_stay_recorded(ps.drop_last(), k);
        let r = keep_write_calls(ps.drop_last());
        let j = choose|j: int| 0 <= j < r.len() && r[j] == k;
        if !is_read_only(ps.last().0) {
            assert(r.push(ps.last())[j] == k);
        }
    }
}

} // verus!
