use local_agent::history::{
    append_digest_line, close_dangling_tool_calls, compact_old_tool_results, digest_line,
    enforce_history_budget, history_budget_chars, message_chars, rag_active, split_digest,
    total_chars, DIGEST_MARKER, DIGEST_MAX_CHARS, KEEP_RECENT_TURNS,
};
use local_agent::localsearch::RAG_MARKER;
use local_agent::models::{ChatMessage, FunctionCall, Role, ToolCall};

/// A system prompt followed by `n` user/assistant turns with answers of
/// `answer_len` characters after their label.
fn history_with_turns(n: usize, answer_len: usize) -> Vec<ChatMessage> {
    let mut msgs = vec![ChatMessage::system("시스템 프롬프트")];
    for i in 0..n {
        msgs.push(ChatMessage::user(&format!("질문{i}: 파일{i} 처리해줘")));
        msgs.push(ChatMessage::assistant(
            Some(format!("답변{i}: {}", "가".repeat(answer_len))),
            None,
        ));
    }
    msgs
}

fn content(m: &ChatMessage) -> &str {
    m.content.as_deref().unwrap()
}

fn call(id: &str, name: &str, args: &str) -> ToolCall {
    ToolCall {
        id: id.to_string(),
        call_type: "function".to_string(),
        function: FunctionCall { name: name.to_string(), arguments: args.to_string() },
    }
}

#[test]
fn rag_active_detects_marker_in_system_message() {
    let marker = RAG_MARKER;
    let with = vec![
        ChatMessage::system(&format!("시스템 프롬프트\n\n{marker}\n[#1 문서: a.pdf] 내용")),
        ChatMessage::user("질문"),
    ];
    assert!(rag_active(&with));

    let without = vec![ChatMessage::system("시스템 프롬프트"), ChatMessage::user("질문")];
    assert!(!rag_active(&without));
}

#[test]
fn rag_inactive_on_empty_history() {
    assert!(!rag_active(&[]));
}

#[test]
fn compact_skips_when_nothing_to_compact() {
    let mut messages = vec![ChatMessage::user("짧음"), ChatMessage::tool("c1", "짧은 결과")];
    assert_eq!(compact_old_tool_results(&mut messages), 0);
}

#[test]
fn compact_keeps_two_latest_tool_results_whole() {
    let long = "x".repeat(400);
    let mut messages = vec![
        ChatMessage::tool("a", &long),
        ChatMessage::tool("b", &long),
        ChatMessage::tool("c", &long),
    ];
    assert_eq!(compact_old_tool_results(&mut messages), 1);
    let first = content(&messages[0]);
    assert_eq!(first, format!("{}\n...(컨텍스트 절약을 위해 축약됨)", "x".repeat(300)));
    assert_eq!(content(&messages[1]), long);
    assert_eq!(content(&messages[2]), long);
}

#[test]
fn budget_is_context_minus_reserve_with_floor() {
    assert_eq!(history_budget_chars(16384), 10384);
    assert_eq!(history_budget_chars(8000), 4000);
    assert_eq!(history_budget_chars(0), 4000);
    assert_eq!(history_budget_chars(10000), 4000);
    assert_eq!(history_budget_chars(10001), 4001);
}

#[test]
fn sizes_count_characters_and_call_bytes() {
    let m = ChatMessage::assistant(Some("가나다".to_string()), Some(vec![call("1", "ab", "{}")]));
    assert_eq!(message_chars(&m), 3 + 2 + 2);
    let msgs = vec![ChatMessage::user("abc"), m];
    assert_eq!(total_chars(&msgs), 10);
}

#[test]
fn budget_noop_when_under() {
    let mut msgs = history_with_turns(3, 50);
    let before = msgs.len();
    enforce_history_budget(&mut msgs, 100_000);
    assert_eq!(msgs.len(), before);
    assert!(!content(&msgs[0]).contains(DIGEST_MARKER));
}

#[test]
fn budget_folds_oldest_turns_into_digest_keeping_recent() {
    let mut msgs = history_with_turns(6, 500);
    enforce_history_budget(&mut msgs, 2200);

    let system_count = msgs.iter().filter(|m| m.role == Role::System).count();
    assert_eq!(system_count, 1, "system 메시지는 항상 1개여야 함");
    let prompt = content(&msgs[0]);
    assert!(prompt.starts_with("시스템 프롬프트"), "기본 프롬프트가 앞에 보존");
    assert!(prompt.contains(DIGEST_MARKER));
    assert!(prompt.contains("질문0"), "가장 오래된 턴이 요약에 있어야 함: {prompt}");

    let users: Vec<&str> =
        msgs.iter().filter(|m| m.role == Role::User).map(|m| content(m)).collect();
    assert_eq!(users.len(), KEEP_RECENT_TURNS);
    assert!(users[0].starts_with("질문3"));
    assert!(users[2].starts_with("질문5"));
}

#[test]
fn budget_never_folds_recent_turns_even_if_still_over() {
    let mut msgs = history_with_turns(3, 5000);
    enforce_history_budget(&mut msgs, 1000);
    let users = msgs.iter().filter(|m| m.role == Role::User).count();
    assert_eq!(users, 3, "최근 턴은 절대 접지 않는다");
}

#[test]
fn budget_compacts_tool_results_before_folding() {
    let mut msgs = vec![
        ChatMessage::system("시스템"),
        ChatMessage::user("질문0"),
        ChatMessage::tool("c0", &"가".repeat(3000)),
        ChatMessage::assistant(Some("답0".into()), None),
        ChatMessage::user("질문1"),
        ChatMessage::tool("c1", &"나".repeat(100)),
        ChatMessage::assistant(Some("답1".into()), None),
        ChatMessage::user("질문2"),
        ChatMessage::tool("c2", &"다".repeat(100)),
        ChatMessage::assistant(Some("답2".into()), None),
        ChatMessage::user("질문3"),
    ];
    enforce_history_budget(&mut msgs, 1500);
    assert!(content(&msgs[2]).contains("축약됨"), "오래된 도구 결과가 먼저 축약");
    assert_eq!(msgs.iter().filter(|m| m.role == Role::User).count(), 4, "턴은 유지");
}

#[test]
fn digest_accumulates_and_respects_cap() {
    let mut msgs = history_with_turns(40, 400);
    enforce_history_budget(&mut msgs, 1500);
    let prompt = content(&msgs[0]);
    let section = &prompt[prompt.find(DIGEST_MARKER).expect("요약 섹션 존재")..];
    let lines_chars: usize = section.lines().skip(1).map(|l| l.chars().count() + 1).sum();
    assert!(lines_chars <= DIGEST_MAX_CHARS, "요약 상한 준수: {lines_chars}");
    assert!(section.contains("질문3"), "마지막으로 접힌 턴은 남아야 함");
}

#[test]
fn folding_inserts_system_message_when_missing() {
    let mut msgs = vec![
        ChatMessage::user("q0"),
        ChatMessage::assistant(Some("a0".into()), None),
        ChatMessage::user("q1"),
        ChatMessage::user("q2"),
        ChatMessage::user("q3"),
    ];
    enforce_history_budget(&mut msgs, 0);
    assert_eq!(msgs[0].role, Role::System);
    assert_eq!(content(&msgs[0]), format!("{DIGEST_MARKER}\n- 사용자: q0 → 답: a0"));
    assert_eq!(msgs.len(), 4);
}

#[test]
fn digest_line_collapses_and_clips() {
    let turn = vec![
        ChatMessage::user("  여러   줄\n질문  "),
        ChatMessage::assistant(Some("첫 답".into()), None),
        ChatMessage::assistant(Some(String::new()), None),
    ];
    assert_eq!(digest_line(&turn), "- 사용자: 여러 줄 질문 → 답: 첫 답");
    let long = vec![ChatMessage::user(&"a".repeat(61))];
    assert_eq!(
        digest_line(&long),
        format!("- 사용자: {}...(잘림) → 답: (답 없음)", "a".repeat(60))
    );
}

#[test]
fn digest_line_of_long_answer_stays_on_one_line() {
    let turn = vec![
        ChatMessage::user("질문0: 파일0 처리해줘"),
        ChatMessage::assistant(Some(format!("답변0: {}", "가".repeat(500))), None),
    ];
    let line = digest_line(&turn);
    assert!(!line.contains('\n'), "{line}");
    assert!(line.starts_with("- 사용자: 질문0: 파일0 처리해줘 → 답: 답변0: 가"));
    assert!(line.ends_with("...(잘림)"));
    assert_eq!(line.chars().count(), "- 사용자: 질문0: 파일0 처리해줘 → 답: ".chars().count() + 80 + 7);
}

#[test]
fn budget_keeps_tool_results_of_recent_turns_whole() {
    let big = "가".repeat(1000);
    let mut msgs = vec![
        ChatMessage::system("시스템"),
        ChatMessage::user("질문"),
        ChatMessage::tool("c0", &big),
        ChatMessage::tool("c1", "짧음1"),
        ChatMessage::tool("c2", "짧음2"),
    ];
    let before = msgs.clone();
    enforce_history_budget(&mut msgs, 100);
    assert_eq!(msgs.len(), before.len());
    assert_eq!(content(&msgs[2]), big, "최근 턴의 도구 결과는 원문 그대로");
    for (a, b) in msgs.iter().zip(before.iter()) {
        assert_eq!(a.content, b.content);
    }
}

#[test]
fn budget_compacts_only_before_recent_turns() {
    let mut msgs = vec![
        ChatMessage::system("시스템"),
        ChatMessage::user("질문0"),
        ChatMessage::tool("c0", &"가".repeat(400)),
        ChatMessage::user("질문1"),
        ChatMessage::tool("c1", &"나".repeat(400)),
        ChatMessage::user("질문2"),
        ChatMessage::tool("c2", &"다".repeat(400)),
        ChatMessage::user("질문3"),
        ChatMessage::tool("c3", &"라".repeat(400)),
    ];
    // fits once the oldest tool result is cut: nothing else is touched
    enforce_history_budget(&mut msgs, 1550);
    assert_eq!(msgs.len(), 9);
    assert!(content(&msgs[2]).ends_with("축약됨)"));
    assert_eq!(content(&msgs[4]), "나".repeat(400));
    assert_eq!(content(&msgs[6]), "다".repeat(400));
    assert_eq!(content(&msgs[8]), "라".repeat(400));
}

#[test]
fn digest_section_round_trip() {
    let (base, lines) = split_digest(&format!("프롬프트 \n\n{DIGEST_MARKER}\n- a\n- b"));
    assert_eq!(base, "프롬프트");
    assert_eq!(lines, vec!["- a".to_string(), "- b".to_string()]);
    let (base, lines) = split_digest("요약 없음");
    assert_eq!(base, "요약 없음");
    assert!(lines.is_empty());

    let mut msgs = vec![ChatMessage::system("기본")];
    append_digest_line(&mut msgs, "- 첫 줄");
    append_digest_line(&mut msgs, "- 둘째 줄");
    assert_eq!(content(&msgs[0]), format!("기본\n\n{DIGEST_MARKER}\n- 첫 줄\n- 둘째 줄"));
}

#[test]
fn digest_drops_oldest_lines_over_cap() {
    let mut msgs = vec![ChatMessage::system("")];
    let line = "가".repeat(999);
    append_digest_line(&mut msgs, &format!("A{line}"));
    append_digest_line(&mut msgs, &format!("B{line}"));
    assert_eq!(content(&msgs[0]), format!("{DIGEST_MARKER}\nB{line}"));
}

#[test]
fn dangling_tool_calls_get_closing_results() {
    let mut msgs = vec![
        ChatMessage::user("q"),
        ChatMessage::assistant(None, Some(vec![call("c1", "list_dir", "{}"), call("c2", "read_file", "{}")])),
        ChatMessage::tool("c1", "ok"),
    ];
    close_dangling_tool_calls(&mut msgs);
    assert_eq!(msgs.len(), 4);
    assert_eq!(msgs[3].role, Role::Tool);
    assert_eq!(msgs[3].tool_call_id.as_deref(), Some("c2"));
    assert!(content(&msgs[3]).contains("턴이 중단되어"));

    // nothing left to close: unchanged
    close_dangling_tool_calls(&mut msgs);
    assert_eq!(msgs.len(), 4);

    let mut plain = vec![ChatMessage::user("q")];
    close_dangling_tool_calls(&mut plain);
    assert_eq!(plain.len(), 1);
}
