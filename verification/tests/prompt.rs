use local_agent::models::ChatMessage;
use local_agent::prompt::{
    attach_context, persona_section, refresh_system_prompt, restore_first_content, system_prompt,
};

const HOME: &str = "C:\\Users\\EST";
const NOW: &str = "2026-06-12 10:00 (Friday)";

fn default_prompt() -> String {
    system_prompt("", "", "C:\\Users\\EST", HOME, NOW)
}

#[test]
fn prompt_has_claim_grounding_rule() {
    let p = default_prompt();
    assert!(p.contains("성공 결과를 받았을 때만"));
}

#[test]
fn prompt_has_file_state_and_search_scope_rules() {
    let p = default_prompt();
    assert!(p.contains("옛 경로"));
    assert!(p.contains("그대로 복사하지"));
    assert!(p.contains("위치를 묻는다"));
}

#[test]
fn prompt_includes_workspace() {
    let p = system_prompt("", "", "/tmp/x/작업방", HOME, NOW);
    assert!(p.contains("작업방"));
    assert!(p.contains("워크스페이스 안에서만"));
}

#[test]
fn prompt_defaults_bare_names_to_workspace() {
    let ws = "C:\\tmp\\작업방";
    let p = system_prompt("", "", ws, HOME, NOW);
    let ws_slash = ws.replace('\\', "/");
    assert!(p.contains(&format!("현재 폴더(워크스페이스): {ws_slash}")));
    assert!(p.contains("경로 없이"));
    assert!(p.contains("직접 말했을 때만"));
    let ws_pos = p.find("현재 폴더(워크스페이스)").unwrap();
    let home_pos = p.find("바탕화면=").unwrap();
    assert!(ws_pos < home_pos);
}

#[test]
fn prompt_asks_names_when_unknown() {
    let p = default_prompt();
    assert!(!p.contains("update_profile"));
    assert!(p.contains("지어달라고"));
    assert!(p.contains("설정"));
    assert!(p.contains("로컬 에이전트 'Local Agent'"));
}

#[test]
fn prompt_strips_trailing_honorific_from_user_name() {
    let p = system_prompt("쫄병", "태경님", "C:\\w", HOME, NOW);
    assert!(p.contains("'태경'"), "{p}");
    assert!(!p.contains("태경님님"), "{p}");
}

#[test]
fn prompt_uses_names_when_known() {
    let p = system_prompt("앨리", "태경", "C:\\w", HOME, NOW);
    assert!(p.contains("'앨리'") && p.contains("'태경'"));
    assert!(!p.contains("지어달라고"));
}

#[test]
fn capability_rule_is_positive_only() {
    let p = default_prompt();
    let start = p.find("11.").expect("rule 11");
    let end = p.find("12.").or_else(|| p.find("페르소나")).unwrap_or(p.len());
    let rule = &p[start..end];
    assert!(rule.contains("배경제거"));
    for bad in ["못 ", "못하", "할 수 없", "불가능", "금지"] {
        assert!(!rule.contains(bad), "{bad}");
    }
}

#[test]
fn prompt_asks_only_missing_name() {
    let p = system_prompt("앨리", "", "C:\\w", HOME, NOW);
    assert!(p.contains("'앨리'"));
    assert!(p.contains("사용자의 이름을 모르니"));
}

#[test]
fn persona_for_user_name_only() {
    let p = persona_section("  태경 ", "");
    assert!(p.starts_with("페르소나: 사용자의 이름은 '태경'다."), "{p}");
}

#[test]
fn prompt_exact_head() {
    let p = system_prompt(" 앨리 ", "", "C:\\w", HOME, NOW);
    assert!(p.starts_with(
        "너는 사용자의 Windows PC에서 동작하는 로컬 에이전트 '앨리'다.\n현재 시각: 2026-06-12 10:00 (Friday).\n\n현재 폴더(워크스페이스): C:/w\n"
    ));
    assert!(p.contains("바탕화면=C:\\Users\\EST\\Desktop, 다운로드=C:\\Users\\EST\\Downloads"));
}

#[test]
fn refresh_keeps_digest_lines() {
    let mut msgs = vec![
        ChatMessage::system("옛 프롬프트\n\n[이전 대화 요약]\n- 사용자: a → 응답: b"),
        ChatMessage::user("안녕"),
    ];
    refresh_system_prompt(&mut msgs, "새 프롬프트");
    assert_eq!(
        msgs[0].content.as_deref(),
        Some("새 프롬프트\n\n[이전 대화 요약]\n- 사용자: a → 응답: b")
    );
    assert_eq!(msgs[1].content.as_deref(), Some("안녕"));
    let mut plain = vec![ChatMessage::system("옛 프롬프트")];
    refresh_system_prompt(&mut plain, "새 프롬프트");
    assert_eq!(plain[0].content.as_deref(), Some("새 프롬프트"));
    let mut no_system = vec![ChatMessage::user("hi")];
    refresh_system_prompt(&mut no_system, "새 프롬프트");
    assert_eq!(no_system[0].content.as_deref(), Some("hi"));
}

#[test]
fn context_block_is_attached_for_one_turn_then_removed() {
    let mut msgs = vec![ChatMessage::system("시스템"), ChatMessage::user("질문")];
    let saved = attach_context(&mut msgs, "[참고 문서]\n내용");
    assert_eq!(saved.as_deref(), Some("시스템"));
    assert_eq!(msgs[0].content.as_deref(), Some("시스템\n\n[참고 문서]\n내용"));
    msgs.push(ChatMessage::assistant(Some("답".into()), None));
    restore_first_content(&mut msgs, saved);
    assert_eq!(msgs[0].content.as_deref(), Some("시스템"));
    assert_eq!(msgs.len(), 3);
    assert_eq!(msgs[2].content.as_deref(), Some("답"));

    let mut none: Vec<ChatMessage> = Vec::new();
    assert_eq!(attach_context(&mut none, "x"), None);
    assert!(none.is_empty());
}
