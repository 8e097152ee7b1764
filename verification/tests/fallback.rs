use local_agent::fallback::{
    filename_with_ext, strip_model_directives, synthesize_failure_note,
    synthesize_location_question,
};
use local_agent::models::ChatMessage;

#[test]
fn filename_extraction_handles_korean_and_particles() {
    assert_eq!(filename_with_ext("앨범사진.pdf로 만들어줘", "pdf").as_deref(), Some("앨범사진.pdf"));
    assert_eq!(filename_with_ext("result-1.zip 으로 묶어", "zip").as_deref(), Some("result-1.zip"));
    assert_eq!(filename_with_ext("pdf로 만들어줘", "pdf"), None);
    assert_eq!(filename_with_ext("a.pdfx 처리해", "pdf"), None);
}

#[test]
fn filename_extraction_takes_the_first_occurrence_only() {
    assert_eq!(filename_with_ext("my_doc.pdf and b.pdf", "pdf").as_deref(), Some("my_doc.pdf"));
    assert_eq!(filename_with_ext(" .pdf 와 b.pdf", "pdf"), None);
    assert_eq!(filename_with_ext("경로/사진1.png", "png").as_deref(), Some("사진1.png"));
}

#[test]
fn synthesize_question_extracts_filename() {
    let err = "오류: 파일 없음: C:/ws/발표자료.pdf. 주변 폴더에서도 같은 이름을 찾지 못했습니다. \
               다른 경로를 추측해 재시도하지 말고, 사용자에게 파일의 정확한 위치(폴더)를 물어보세요.";
    let msgs = vec![ChatMessage::user("발표자료.pdf 요약해줘"), ChatMessage::tool("c1", err)];
    let q = synthesize_location_question(&msgs).unwrap();
    assert!(q.contains("발표자료.pdf"), "{q}");
    assert!(q.contains("알려주"), "{q}");
    assert!(synthesize_location_question(&[ChatMessage::tool("c2", "오류: 기타")]).is_none());
}

#[test]
fn synthesize_question_hides_hallucinated_filename() {
    let err = "오류: 파일 없음: C:/ws/final_report.pdf. 주변 폴더에서도 같은 이름을 찾지 못했습니다. \
               다른 경로를 추측해 재시도하지 말고, 사용자에게 파일의 정확한 위치(폴더)를 물어보세요.";
    let msgs = vec![ChatMessage::user("발표자료.pdf 요약해줘"), ChatMessage::tool("c1", err)];
    let q = synthesize_location_question(&msgs).unwrap();
    assert!(!q.contains("final_report"), "환각 파일명 노출: {q}");
    assert!(q.contains("알려주") || q.contains("?"), "{q}");
}

#[test]
fn synthesize_question_exact_wording() {
    let err = "오류: 파일 없음: /ws/보고서.hwp. 사용자에게 물어보세요.";
    let msgs = vec![ChatMessage::user("보고서 열어줘"), ChatMessage::tool("c1", err)];
    assert_eq!(
        synthesize_location_question(&msgs).unwrap(),
        "'보고서.hwp' 파일을 찾지 못했어요. 어느 폴더에 있는지 알려주시면 다시 시도할게요."
    );
    let other = vec![ChatMessage::user("다른 거"), ChatMessage::tool("c1", err)];
    assert_eq!(
        synthesize_location_question(&other).unwrap(),
        "요청하신 파일을 찾지 못했어요. 정확한 위치(폴더)를 알려주시겠어요?"
    );
}

#[test]
fn failure_note_strips_model_directives() {
    let msgs = vec![ChatMessage::tool(
        "c1",
        "오류: 이 파일은 PDF가 아니라 이미지(.gif)입니다. 이미지 속 글자를 읽는 기능(OCR)은 \
         없습니다 — 이 사실을 그대로 사용자에게 알리세요.",
    )];
    let note = synthesize_failure_note(&msgs, false).unwrap();
    assert!(note.contains("OCR"), "{note}");
    assert!(!note.contains("알리세요"), "지시문 노출: {note}");
    assert!(!note.contains("이 사실을"), "지시문 노출: {note}");
}

#[test]
fn failure_note_wording_and_partial_success() {
    let msgs = vec![
        ChatMessage::tool("c0", "오류: 첫 실패"),
        ChatMessage::tool("c1", "오류:오류: zip 파일이 아닙니다"),
        ChatMessage::tool("c2", "성공"),
    ];
    assert_eq!(
        synthesize_failure_note(&msgs, false).unwrap(),
        "요청하신 작업을 완료하지 못했어요. 이유: zip 파일이 아닙니다"
    );
    assert_eq!(
        synthesize_failure_note(&msgs, true).unwrap(),
        "요청 중 일부는 완료했지만 마지막 단계는 실패했어요. 이유: zip 파일이 아닙니다"
    );
    assert!(synthesize_failure_note(&[ChatMessage::tool("c", "성공")], false).is_none());
    assert!(synthesize_failure_note(&[ChatMessage::user("오류: 사용자 글")], false).is_none());
}

#[test]
fn directives_are_cut_with_trailing_dashes() {
    assert_eq!(strip_model_directives("없습니다 — 이 사실을 그대로 알리세요"), "없습니다");
    assert_eq!(
        strip_model_directives("없음, - 제공된 도구 목록에서 고르세요 이 사실을 그대로"),
        "없음,"
    );
    assert_eq!(strip_model_directives("그냥 이유"), "그냥 이유");
}
