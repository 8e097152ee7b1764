use local_agent::models::{ChatMessage, CompletionResult, FunctionCall, Role, ToolCall};
use local_agent::turn::{
    close_turn, is_context_overflow, is_read_only_tool, retry_after_error, CallCheck, ForcedEnd,
    PlannedCall, RoundStep, TurnState,
};

fn call(id: &str, name: &str, args: &str) -> ToolCall {
    ToolCall {
        id: id.to_string(),
        call_type: "function".to_string(),
        function: FunctionCall { name: name.to_string(), arguments: args.to_string() },
    }
}

fn answer(text: &str) -> CompletionResult {
    CompletionResult { content: text.to_string(), reasoning: String::new(), tool_calls: vec![] }
}

fn calls(cs: Vec<ToolCall>) -> CompletionResult {
    CompletionResult { content: String::new(), reasoning: String::new(), tool_calls: cs }
}

/// Outcome of a scripted turn: what was reported as an error, if anything.
struct Outcome {
    error: Option<String>,
    shown: Vec<String>,
}

/// Runs one turn against scripted completions and a scripted tool runner, the way
/// the application drives the state machine.
fn drive(
    messages: &mut Vec<ChatMessage>,
    max_rounds: u32,
    mut completions: Vec<CompletionResult>,
    run_tool: &dyn Fn(&str, &str) -> (bool, String),
) -> Outcome {
    completions.reverse();
    let mut next = move || completions.pop().unwrap_or_default();
    let mut st = TurnState::start(messages, max_rounds);
    let mut out = Outcome { error: None, shown: vec![] };
    let mut round = 0u32;
    while round <= st.hard_cap {
        let result = next();
        match st.on_completion(messages, result, round) {
            RoundStep::Retry => {
                round += 1;
                continue;
            }
            RoundStep::Empty(m) | RoundStep::HardCap(m) => {
                out.error = Some(m);
                break;
            }
            RoundStep::Answered => break,
            RoundStep::Calls(planned) => {
                let n = planned.len();
                for c in &planned {
                    let (ok, text) = match st.check_call(c) {
                        CallCheck::Refuse(t) => (false, t),
                        CallCheck::Execute => run_tool(&c.name, &c.arguments),
                    };
                    out.shown.push(st.after_call(messages, &c.id, &c.name, ok, &text));
                }
                if st.end_round(messages, n) {
                    let fin = next();
                    match st.finish_forced(messages, fin.content) {
                        ForcedEnd::Answered => {}
                        ForcedEnd::Synthesized(q) => out.shown.push(q),
                        ForcedEnd::Stalled(m) => out.error = Some(m),
                    }
                    break;
                }
            }
        }
        round += 1;
    }
    close_turn(messages);
    out
}

fn last_text(messages: &[ChatMessage]) -> &str {
    messages.last().unwrap().content.as_deref().unwrap()
}

#[test]
fn loop_executes_tool_then_finishes() {
    let mut messages = vec![ChatMessage::system("s"), ChatMessage::user("a.txt 읽어줘")];
    let out = drive(
        &mut messages,
        8,
        vec![calls(vec![call("c1", "read_file", "{\"path\":\"a.txt\"}")]), answer("내용은 hi 입니다.")],
        &|_, _| (true, "hi".to_string()),
    );
    assert!(out.error.is_none());
    assert_eq!(messages.len(), 5);
    assert_eq!(messages[2].role, Role::Assistant);
    assert_eq!(messages[3].role, Role::Tool);
    assert_eq!(messages[3].content.as_deref(), Some("hi"));
    assert_eq!(last_text(&messages), "내용은 hi 입니다.");
}

#[test]
fn duplicate_tool_call_is_short_circuited() {
    let mut messages = vec![ChatMessage::user("목록 보여줘")];
    let runs = std::cell::Cell::new(0);
    let c = || calls(vec![call("x", "list_dir", " {\"dir\":\"/w\"} ")]);
    drive(&mut messages, 8, vec![c(), c(), answer("끝")], &|_, _| {
        runs.set(runs.get() + 1);
        (true, "a.txt".to_string())
    });
    assert_eq!(runs.get(), 1, "같은 인자의 두 번째 호출은 실행하지 않는다");
    assert!(messages.iter().any(|m| m.content.as_deref().is_some_and(|t| t.contains("이미 같은 인자로"))));
}

#[test]
fn malformed_tool_args_are_sanitized_not_poisoning_history() {
    let mut messages = vec![ChatMessage::user("써줘")];
    drive(
        &mut messages,
        8,
        vec![calls(vec![call("c1", "write_file", "{\"path\": \"C:\\ws")]), answer("다시 할게요")],
        &|_, _| panic!("깨진 인자로 실행하면 안 됨"),
    );
    let assistant = &messages[1];
    let args = &assistant.tool_calls.as_ref().unwrap()[0].function.arguments;
    assert_eq!(args, "{}");
    assert!(messages[2].content.as_deref().unwrap().contains("유효한 JSON이 아니어서"));
}

#[test]
fn excluded_tool_call_is_blocked_at_execution() {
    let mut messages = vec![ChatMessage::user("dog.png 배경제거 해봐")];
    drive(
        &mut messages,
        8,
        vec![calls(vec![call("c1", "image_transform", "{}")]), answer("다시")],
        &|_, _| panic!("숨긴 도구는 실행하면 안 됨"),
    );
    assert_eq!(
        messages[2].content.as_deref(),
        Some("오류: 'image_transform' 도구는 이번 요청에 사용할 수 없습니다. 제공된 도구 목록에서 다시 선택하세요.")
    );
}

#[test]
fn empty_completion_recovers_with_one_retry() {
    let mut messages = vec![ChatMessage::user("안녕")];
    let out = drive(&mut messages, 8, vec![answer(""), answer("안녕하세요")], &|_, _| (true, String::new()));
    assert!(out.error.is_none());
    assert_eq!(last_text(&messages), "안녕하세요");
}

#[test]
fn empty_completion_twice_surfaces_error() {
    let mut messages = vec![ChatMessage::user("안녕")];
    let out = drive(&mut messages, 8, vec![answer(""), answer("")], &|_, _| (true, String::new()));
    assert!(out.error.unwrap().contains("모델이 응답을 완성하지 못했습니다"));
    assert_eq!(last_text(&messages), "이 작업은 완료되지 않은 채 중단되었습니다. 다음 요청부터 새로 진행합니다.");
}

#[test]
fn pure_tool_markup_answer_is_retried_as_empty() {
    let mut messages = vec![ChatMessage::user("찾아줘")];
    let out = drive(
        &mut messages,
        8,
        vec![answer("<tool_call> <function=search_files>"), answer("없습니다.")],
        &|_, _| (true, String::new()),
    );
    assert!(out.error.is_none());
    assert_eq!(last_text(&messages), "없습니다.");
}

#[test]
fn consecutive_failed_rounds_finish_early_with_location_question() {
    let err = "오류: 파일 없음: /ws/발표자료.pdf. 사용자에게 파일의 정확한 위치(폴더)를 물어보세요.";
    let mut messages = vec![ChatMessage::user("발표자료.pdf 요약해줘")];
    let out = drive(
        &mut messages,
        8,
        vec![
            calls(vec![call("c1", "read_file", "{\"path\":\"/ws/발표자료.pdf\"}")]),
            calls(vec![call("c2", "read_file", "{\"path\":\"/ws/발표자료2.pdf\"}")]),
            answer(""),
        ],
        &|_, _| (false, err.to_string()),
    );
    let answer = last_text(&messages);
    assert!(answer.contains("발표자료.pdf"), "{answer}");
    assert!(answer.contains("알려주"), "{answer}");
    assert_eq!(out.shown.last().map(String::as_str), Some(answer));
}

#[test]
fn hard_cap_stops_runaway_success() {
    let mut messages = vec![ChatMessage::user("계속")];
    let script: Vec<CompletionResult> = (0..10)
        .map(|i| calls(vec![call(&format!("c{i}"), "write_file", &format!("{{\"n\":{i}}}"))]))
        .collect();
    let out = drive(&mut messages, 1, script, &|_, _| (true, "저장".to_string()));
    assert_eq!(out.error.as_deref(), Some("도구 호출 한도(3회) 초과로 중단"));
    // the last assistant call is closed with a synthetic result, then the turn note
    let n = messages.len();
    assert_eq!(messages[n - 2].role, Role::Tool);
    assert!(messages[n - 2].content.as_deref().unwrap().contains("턴이 중단되어"));
    assert_eq!(messages[n - 1].role, Role::Assistant);
}

#[test]
fn write_success_lets_reads_repeat() {
    let mut st = TurnState::start(&[ChatMessage::user("q")], 8);
    let read = PlannedCall { id: "1".into(), name: "list_dir".into(), arguments: "{}".into() };
    let write = PlannedCall { id: "2".into(), name: "delete_path".into(), arguments: "{}".into() };
    let mut msgs = vec![];
    assert!(matches!(st.check_call(&read), CallCheck::Execute));
    st.after_call(&mut msgs, "1", "list_dir", true, "a");
    assert!(matches!(st.check_call(&read), CallCheck::Refuse(_)));
    assert!(matches!(st.check_call(&write), CallCheck::Execute));
    st.after_call(&mut msgs, "2", "delete_path", true, "deleted");
    assert!(matches!(st.check_call(&read), CallCheck::Execute), "쓰기 성공 후 재조회는 허용");
    assert!(matches!(st.check_call(&write), CallCheck::Refuse(_)), "같은 쓰기는 다시 실행하지 않는다");
    assert!(st.had_write_success);
}

#[test]
fn hidden_tools_and_rag_turns() {
    let st = TurnState::start(&[ChatMessage::user("화면 캡처해줘")], 8);
    let hidden = st.hidden_tools().unwrap();
    assert_eq!(hidden, vec!["set_workspace".to_string()]);
    let rag = format!("프롬프트\n\n{}\n[#1]", local_agent::localsearch::RAG_MARKER);
    let st = TurnState::start(&[ChatMessage::system(&rag), ChatMessage::user("질문")], 8);
    assert!(st.hidden_tools().is_none());
    assert_eq!(TurnState::start(&[], u32::MAX).hard_cap, u32::MAX);
    assert_eq!(TurnState::start(&[], 8).hard_cap, 24);
}

#[test]
fn context_overflow_and_read_only_predicates() {
    assert!(is_context_overflow("the request exceeds the available context size"));
    assert!(!is_context_overflow("out of memory"));
    assert!(is_read_only_tool("read_file"));
    assert!(!is_read_only_tool("write_file"));
    assert!(!is_read_only_tool("read_fil"));
}

#[test]
fn turn_sets_hold_each_entry_once() {
    let mut messages = vec![ChatMessage::user("써줘")];
    let mut st = TurnState::start(&messages, 8);
    let r = calls(vec![call("d", "write_file", "{broken"), call("d", "write_file", "{also broken")]);
    let planned = match st.on_completion(&mut messages, r, 0) {
        RoundStep::Calls(v) => v,
        _ => panic!("two calls were made"),
    };
    assert_eq!(st.malformed_ids, vec!["d".to_string()]);
    assert_eq!(planned.len(), 2);

    let c = PlannedCall { id: "e".into(), name: "list_dir".into(), arguments: "{\"dir\":\"/w\"}".into() };
    assert!(matches!(st.check_call(&c), CallCheck::Execute));
    assert!(!matches!(st.check_call(&c), CallCheck::Execute));
    assert!(!matches!(st.check_call(&c), CallCheck::Execute));
    assert_eq!(st.executed.len(), 1);
    assert_eq!(st.looping_tools, vec!["list_dir".to_string()]);
}

#[test]
fn overflow_error_cuts_old_results_and_asks_again() {
    let big = "가".repeat(400);
    let mut messages = vec![
        ChatMessage::user("질문"),
        ChatMessage::tool("a", &big),
        ChatMessage::tool("b", &big),
        ChatMessage::tool("c", &big),
    ];
    assert!(!retry_after_error(&mut messages, "connection refused"));
    assert_eq!(messages[1].content.as_deref(), Some(big.as_str()));
    assert!(retry_after_error(&mut messages, "request exceeds the available context size"));
    assert!(messages[1].content.as_deref().unwrap().contains("축약됨"));
    assert_eq!(messages[2].content.as_deref(), Some(big.as_str()));
    // nothing to cut: the error stands
    let mut short = vec![ChatMessage::user("질문"), ChatMessage::tool("a", "짧음")];
    assert!(!retry_after_error(&mut short, "request exceeds the available context size"));
}
