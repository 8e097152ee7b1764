use local_agent::models::ChatMessage;
use local_agent::sessions::{
    count_users, sort_newest_first, text_less, title_from, SessionError, SessionMeta,
    SessionStore, StoredSession,
};

fn turn(user: &str, answer: &str) -> Vec<ChatMessage> {
    vec![
        ChatMessage::system("시스템"),
        ChatMessage::user(user),
        ChatMessage::assistant(Some(answer.into()), None),
    ]
}

fn stored(id: &str, updated_at: &str, messages: Vec<ChatMessage>) -> StoredSession {
    StoredSession {
        id: id.to_string(),
        title: title_from(&messages),
        created_at: "2026-01-01T00:00:00+09:00".to_string(),
        updated_at: updated_at.to_string(),
        messages,
    }
}

fn meta(id: &str, updated_at: &str) -> SessionMeta {
    SessionMeta {
        id: id.to_string(),
        title: String::new(),
        created_at: String::new(),
        updated_at: updated_at.to_string(),
        turns: 0,
    }
}

#[test]
fn title_is_collapsed_and_clipped() {
    let long = format!("아주   긴\n제목 {}", "가".repeat(100));
    let msgs = vec![ChatMessage::user(&long)];
    let title = title_from(&msgs);
    assert!(title.starts_with("아주 긴 제목"), "공백/줄바꿈 정리: {title}");
    assert!(title.chars().count() <= 49, "48자 + 말줄임");
    assert!(title.ends_with('…'));
}

#[test]
fn title_defaults_for_blank_or_missing_user_message() {
    assert_eq!(title_from(&[ChatMessage::system("s")]), "새 대화");
    assert_eq!(title_from(&[ChatMessage::user("   \n ")]), "새 대화");
    assert_eq!(title_from(&[ChatMessage::user(&"가".repeat(48))]), "가".repeat(48));
    assert_eq!(
        title_from(&turn(" 첫  질문 ", "답")),
        "첫 질문",
        "첫 사용자 발화가 제목"
    );
}

#[test]
fn path_traversal_ids_are_rejected() {
    let store = SessionStore::new("/data/sessions");
    for bad in ["../evil", "..\\evil", "a/b", "", "a.b", "공백 id"] {
        match store.path(bad) {
            Err(SessionError::InvalidId(id)) => assert_eq!(id, bad),
            Ok(p) => panic!("accepted {bad:?} as {p}"),
        }
    }
    assert_eq!(store.path("abc-123").unwrap(), "/data/sessions/abc-123.json");
    let err = store.path("a/b").unwrap_err();
    assert_eq!(err.message(), "잘못된 세션 id: a/b");
}

#[test]
fn load_needs_a_valid_id_and_a_file() {
    let store = SessionStore::new("/data/sessions/");
    let s = stored("abc-123", "t", turn("파일 찾아줘", "찾았습니다"));
    let loaded = store.load("abc-123", Some(s.clone())).unwrap();
    assert_eq!(loaded.len(), 3);
    assert_eq!(loaded[1].content.as_deref(), Some("파일 찾아줘"));
    assert_eq!(loaded[2].content.as_deref(), Some("찾았습니다"));
    assert!(store.load("abc-123", None).is_none());
    assert!(store.load("../x", Some(s)).is_none());
}

#[test]
fn empty_session_without_user_message_is_not_saved() {
    let store = SessionStore::new("/s");
    let r = store.prepare_save("empty-1", &[ChatMessage::system("시스템")], "now", None);
    assert!(matches!(r, Ok(None)));
    // not even an invalid id is reported when there is nothing to save
    assert!(matches!(store.prepare_save("../x", &[], "now", None), Ok(None)));
}

#[test]
fn save_keeps_creation_time_and_titles() {
    let store = SessionStore::new("/s");
    let msgs = turn("처음 질문", "답");
    let first = store.prepare_save("s-1", &msgs, "t1", None).unwrap().unwrap();
    assert_eq!(first.id, "s-1");
    assert_eq!(first.title, "처음 질문");
    assert_eq!(first.created_at, "t1");
    assert_eq!(first.updated_at, "t1");
    assert_eq!(first.messages.len(), 3);
    let again = store.prepare_save("s-1", &msgs, "t2", Some(first.created_at.clone())).unwrap().unwrap();
    assert_eq!(again.created_at, "t1", "생성 시각은 보존");
    assert_eq!(again.updated_at, "t2");
    assert!(store.prepare_save("a/b", &msgs, "t", None).is_err());
}

#[test]
fn list_returns_meta_sorted_by_updated_desc() {
    let store = SessionStore::new("/s");
    let mut two = turn("두 번째 질문", "답2");
    two.push(ChatMessage::user("또"));
    let metas = store.list(vec![
        stored("first-1", "2026-06-12T10:00:00+09:00", turn("첫 번째 질문", "답1")),
        stored("second-2", "2026-06-12T10:00:01+09:00", two),
    ]);
    assert_eq!(metas.len(), 2);
    assert_eq!(metas[0].id, "second-2", "최근 수정이 먼저");
    assert_eq!(metas[0].title, "두 번째 질문");
    assert_eq!(metas[0].turns, 2);
    assert_eq!(metas[1].turns, 1);
}

#[test]
fn sort_is_newest_first_and_stable() {
    let sorted = sort_newest_first(vec![
        meta("a", "2"),
        meta("b", "3"),
        meta("c", "2"),
        meta("d", "10"),
    ]);
    let ids: Vec<&str> = sorted.iter().map(|m| m.id.as_str()).collect();
    assert_eq!(ids, vec!["b", "a", "c", "d"]);
}

#[test]
fn text_order_is_lexicographic() {
    assert!(text_less("a", "b"));
    assert!(text_less("ab", "abc"));
    assert!(!text_less("abc", "ab"));
    assert!(!text_less("x", "x"));
    assert!(text_less("", "a"));
    assert!(text_less("z", "가"));
}

#[test]
fn turns_count_user_messages() {
    let mut msgs = turn("q", "a");
    msgs.push(ChatMessage::user("q2"));
    assert_eq!(count_users(&msgs), 2);
}

#[test]
fn save_load_roundtrip_preserves_messages() {
    let store = local_agent::sessions::SessionStore::new("/data/sessions");
    let messages = vec![
        ChatMessage::system("시스템"),
        ChatMessage::user("파일 찾아줘"),
        ChatMessage::assistant(Some("찾았습니다".to_string()), None),
    ];
    let saved = store
        .prepare_save("abc-123", &messages, "2026-06-12T10:00:00+09:00", None)
        .unwrap()
        .unwrap();
    assert_eq!(saved.created_at, "2026-06-12T10:00:00+09:00");
    let loaded = store.load("abc-123", Some(saved)).unwrap();
    assert_eq!(loaded.len(), 3);
    assert_eq!(loaded[1].content.as_deref(), Some("파일 찾아줘"));
    assert_eq!(loaded[2].content.as_deref(), Some("찾았습니다"));
}
