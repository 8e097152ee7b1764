use local_agent::client::{
    is_retryable_generation_error, response_action, sse_payload, take_line, CallDelta,
    ResponseAction, StreamState,
};

fn piece(index: u64, id: Option<&str>, name: Option<&str>, args: Option<&str>) -> CallDelta {
    CallDelta {
        index,
        id: id.map(String::from),
        name: name.map(String::from),
        arguments: args.map(String::from),
    }
}

#[test]
fn retry_predicate_matches_tool_parse_500_only() {
    let parse_err = r#"{"error":{"code":500,"message":"Failed to parse tool call arguments as JSON: ..."}}"#;
    assert!(is_retryable_generation_error(500, parse_err));
    assert!(!is_retryable_generation_error(400, parse_err));
    assert!(!is_retryable_generation_error(500, "out of memory"));
}

#[test]
fn responses_are_streamed_retried_or_failed() {
    let parse_err = "Failed to parse tool call arguments";
    assert!(matches!(response_action(1, true, 200, "200 OK", ""), ResponseAction::Stream));
    assert!(matches!(response_action(1, false, 500, "500 Internal Server Error", parse_err), ResponseAction::Retry));
    assert!(matches!(response_action(2, false, 500, "500 Internal Server Error", parse_err), ResponseAction::Retry));
    match response_action(3, false, 500, "500 Internal Server Error", parse_err) {
        ResponseAction::Fail(m) => {
            assert_eq!(m, format!("llama-server 오류 500 Internal Server Error: {parse_err}"))
        }
        _ => panic!("세 번째 실패는 재시도하지 않는다"),
    }
    match response_action(1, false, 400, "400 Bad Request", "bad request") {
        ResponseAction::Fail(m) => assert!(m.contains("400")),
        _ => panic!("400은 즉시 실패"),
    }
}

#[test]
fn stream_lines_and_payloads() {
    let mut buf = String::from("data: {\"a\":1}\r\n\ndata: [DONE]\n\npartial");
    let l1 = take_line(&mut buf).unwrap();
    assert_eq!(l1, "data: {\"a\":1}");
    assert_eq!(sse_payload(&l1).as_deref(), Some("{\"a\":1}"));
    let l2 = take_line(&mut buf).unwrap();
    assert_eq!(l2, "");
    assert_eq!(sse_payload(&l2), None);
    let l3 = take_line(&mut buf).unwrap();
    assert_eq!(sse_payload(&l3), None, "[DONE] 은 페이로드가 아니다");
    let _ = take_line(&mut buf).unwrap();
    assert_eq!(take_line(&mut buf), None);
    assert_eq!(buf, "partial");
    assert_eq!(sse_payload(": keep-alive"), None);
}

#[test]
fn tool_call_pieces_are_merged_by_index() {
    let mut st = StreamState::new();
    st.add_calls(&vec![
        piece(1, None, Some("read_"), Some("{\"pa")),
        piece(0, Some("c0"), Some("list_dir"), Some("{}")),
    ]);
    st.add_calls(&vec![piece(1, None, Some("file"), Some("th\":\"a\"}"))]);
    st.content.push_str("안녕");
    let r = st.finish();
    assert_eq!(r.content, "안녕");
    assert_eq!(r.tool_calls.len(), 2);
    assert_eq!(r.tool_calls[0].id, "c0");
    assert_eq!(r.tool_calls[0].function.name, "list_dir");
    assert_eq!(r.tool_calls[1].id, "call_1");
    assert_eq!(r.tool_calls[1].call_type, "function");
    assert_eq!(r.tool_calls[1].function.name, "read_file");
    assert_eq!(r.tool_calls[1].function.arguments, "{\"path\":\"a\"}");
}
