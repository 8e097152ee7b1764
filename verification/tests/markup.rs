use local_agent::markup::{marker_prefix_suffix_len, strip_tool_markup, MarkupStreamGuard};

#[test]
fn markup_stream_guard_blocks_split_markers() {
    let mut g = MarkupStreamGuard::default();
    assert_eq!(g.push("답변입니다. <tool_call> <function=x>"), "답변입니다.");
    assert_eq!(g.push(" 더 많은 마크업"), "");
    assert_eq!(g.finish(), "");

    let mut g = MarkupStreamGuard::default();
    let first = g.push("안녕하세요 <tool");
    assert!(first.starts_with("안녕하세요"), "{first}");
    assert!(!first.contains("<tool"), "마커 접두사는 보류돼야 함: {first}");
    assert_eq!(g.push("_call> <function=list_dir>"), "");
    assert_eq!(g.finish(), "", "차단 후 꼬리 방출 금지");

    let mut g = MarkupStreamGuard::default();
    let out = g.push("a < b 입니다");
    let tail = g.finish();
    assert_eq!(format!("{out}{tail}"), "a < b 입니다");
    assert_eq!(g.push("다음 답변"), "다음 답변");
}

#[test]
fn guard_holds_only_marker_prefixes() {
    let mut g = MarkupStreamGuard::new();
    assert_eq!(g.push("abc <func"), "abc ");
    assert_eq!(g.push("tion"), "");
    assert_eq!(g.push(" call"), "<function call");
    assert_eq!(g.finish(), "");
}

#[test]
fn tool_markup_suffix_is_stripped_from_answer() {
    let mut s = "검색 결과가 없습니다. <tool_call> <function=search_files> <parameter=pattern>".to_string();
    strip_tool_markup(&mut s);
    assert_eq!(s, "검색 결과가 없습니다.");
    let mut only = "<function=x>".to_string();
    strip_tool_markup(&mut only);
    assert_eq!(only, "");
    let mut clean = "그대로  ".to_string();
    strip_tool_markup(&mut clean);
    assert_eq!(clean, "그대로  ");
}

#[test]
fn marker_prefix_lengths() {
    let v: Vec<char> = "abc<tool_cal".chars().collect();
    assert_eq!(marker_prefix_suffix_len(&v), 9);
    let v: Vec<char> = "x<".chars().collect();
    assert_eq!(marker_prefix_suffix_len(&v), 1);
    let v: Vec<char> = "<tool_call".chars().collect();
    assert_eq!(marker_prefix_suffix_len(&v), 0);
    let v: Vec<char> = "a <f".chars().collect();
    assert_eq!(marker_prefix_suffix_len(&v), 2);
}

#[test]
fn guard_shows_whole_stream_when_no_marker_comes() {
    let mut g = MarkupStreamGuard::new();
    let deltas = ["첫 줄 <", "b>굵게</b> <tool", "-x> 끝"];
    let mut shown = String::new();
    for d in deltas {
        shown.push_str(&g.push(d));
    }
    shown.push_str(&g.finish());
    assert_eq!(shown, deltas.concat());
}

#[test]
fn guard_shows_text_up_to_first_marker_over_many_deltas() {
    let mut g = MarkupStreamGuard::new();
    let deltas = ["앞 문장.  ", "  <func", "tion=read_file> 뒤", " <tool_call>"];
    let mut shown = String::new();
    for d in deltas {
        shown.push_str(&g.push(d));
    }
    shown.push_str(&g.finish());
    // white space already emitted before the marker arrived stays shown
    assert_eq!(shown, "앞 문장.    ");
    let all = deltas.concat();
    let p = all.find("<function=").unwrap();
    assert!(all[..p].starts_with(&shown));
    assert!(shown.starts_with(all[..p].trim_end()));

    // white space that arrives with the marker is trimmed
    let mut g = MarkupStreamGuard::new();
    let mut shown = g.push("앞 문장.");
    shown.push_str(&g.push("  <function=x> 뒤"));
    shown.push_str(&g.finish());
    assert_eq!(shown, "앞 문장.");
}
