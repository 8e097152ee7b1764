use local_agent::routing::{strip_quoted, tools_to_exclude};

#[test]
fn compress_intent_excludes_zip_extract() {
    assert!(tools_to_exclude("photos 폴더 압축해줘").contains(&"zip_extract"));
    assert!(tools_to_exclude("이미지들 압축해서 보관해줘").contains(&"zip_extract"));
    assert!(!tools_to_exclude("백업.zip 압축 풀어줘").contains(&"zip_extract"));
    assert!(!tools_to_exclude("압축 해제해줘").contains(&"zip_extract"));
    assert!(!tools_to_exclude("백업.zip 안에 뭐 있어?").contains(&"zip_extract"));
}

#[test]
fn rename_intent_excludes_write_file() {
    for t in [
        "이미지들 이름을 생성시간으로 전부 변경해봐",
        "이름을 cat1,2,3 으로 변경해봐",
        "그 파일 이름을 회의메모.txt로 바꿔",
    ] {
        assert!(tools_to_exclude(t).contains(&"write_file"), "{t}");
        assert!(tools_to_exclude(t).contains(&"image_transform"), "{t}");
    }
    assert!(
        !tools_to_exclude("note.txt에 '안녕'이라고 적고, 파일 이름을 인사.txt로 바꿔줘")
            .contains(&"write_file"),
    );
    assert!(!tools_to_exclude("내 이름은 태경이야. 기억해줘").contains(&"write_file"));
}

#[test]
fn bg_keywords_exclude_image_transform() {
    for t in ["dog.png를 배경제거 해봐", "이 사진 누끼 따줘", "배경을 빼서 투명하게"] {
        assert!(tools_to_exclude(t).contains(&"image_transform"), "{t}");
    }
    assert!(!tools_to_exclude("dog.png를 90도 회전시켜줘").contains(&"image_transform"));
    assert!(
        !tools_to_exclude("배경화면 바꿔줘").contains(&"image_transform"),
        "배경화면은 배경제거가 아님"
    );
}

#[test]
fn dictation_write_excludes_read_tools() {
    let read_tools = [
        "read_file", "list_dir", "search_files", "pdf_extract_text", "move_path", "rename_file",
        "copy_path", "delete_path",
    ];
    for t in [
        "todo.md에 '장보기' 라고 적어줘",
        "minutes.txt에 \"회의 요약: 배포 일정 확정\"이라고 저장해줘",
        "contacts.csv에 \"이름,전화번호\"라고 기록해줘",
        "plan.md에 \"보고서 작성, 메일 회신\"이라고 작성해줘",
        "idea.txt에 \"신제품 마케팅 아이디어\"라고 적어줘",
    ] {
        let ex = tools_to_exclude(t);
        for r in read_tools {
            assert!(ex.contains(&r), "{t} 에서 {r} 제외 누락");
        }
        assert!(!ex.contains(&"write_file"), "{t}");
    }
    for t in [
        "report.md를 읽고 요약해서 summary.md에 저장해줘",
        "guide.md에 뭐라고 적혀 있어?",
        "로그 내용을 정리해서 result.txt라고 저장해줘",
        "todo.md 적힌 거 보여줘",
    ] {
        assert!(!tools_to_exclude(t).iter().any(|n| read_tools.contains(n)), "{t}");
    }
}

#[test]
fn extract_intent_excludes_zip_create() {
    let compound =
        tools_to_exclude("pngs.zip 압축풀고 거기에 있는 이미지 파일들 오늘날짜로 이름 변경해줘");
    assert!(compound.contains(&"zip_create"), "풀기 의도에서 zip_create 숨김");
    assert!(compound.contains(&"write_file"), "이름변경 의도와 합성돼야 함");
    assert!(tools_to_exclude("백업.zip 압축 해제해줘").contains(&"zip_create"));
    assert!(!tools_to_exclude("이미지들 압축해줘").contains(&"zip_create"));
}

#[test]
fn delete_intent_excludes_zip_extract() {
    assert!(tools_to_exclude("현재 워크스페이스에 있는 압축파일 모두 지워봐").contains(&"zip_extract"));
    assert!(tools_to_exclude("cat_nobg.zip 삭제해줘").contains(&"zip_extract"));
    assert!(!tools_to_exclude("압축 풀고 원본 압축파일은 지워줘").contains(&"zip_extract"));
    assert!(!tools_to_exclude("이미지들 압축해서 원본은 지워줘").contains(&"zip_create"));
}

#[test]
fn screen_capture_hidden_unless_mentioned() {
    assert!(tools_to_exclude("귀여워").contains(&"screen_capture"));
    assert!(tools_to_exclude("이미지들 압축해줘").contains(&"screen_capture"));
    assert!(!tools_to_exclude("화면 캡처해줘").contains(&"screen_capture"));
    assert!(!tools_to_exclude("지금 스크린샷 찍어줘").contains(&"screen_capture"));
    assert!(!tools_to_exclude("화면 찍어서 저장해").contains(&"screen_capture"));
}

#[test]
fn set_workspace_hidden_unless_mentioned() {
    assert!(tools_to_exclude("이미지 파일들 보여줘").contains(&"set_workspace"));
    assert!(tools_to_exclude("이름을 cat1로 바꿔").contains(&"set_workspace"));
    assert!(!tools_to_exclude("워크스페이스를 pngs 폴더로 바꿔줘").contains(&"set_workspace"));
    assert!(!tools_to_exclude("작업 폴더를 바탕화면으로 변경해").contains(&"set_workspace"));
}

#[test]
fn strip_quoted_removes_only_quoted_spans() {
    assert_eq!(strip_quoted("a '인용' b"), "a  b");
    assert_eq!(strip_quoted("x \"요약: 내용\" 라고 적어줘"), "x  라고 적어줘");
    assert_eq!(strip_quoted("“스마트” 따옴표도 ‘처리’"), " 따옴표도 ");
    assert_eq!(strip_quoted("따옴표 없음"), "따옴표 없음");
}

#[test]
fn exclusion_list_has_fixed_order() {
    assert_eq!(
        tools_to_exclude("dog.png 배경제거"),
        vec!["image_transform", "set_workspace", "screen_capture"]
    );
    assert_eq!(tools_to_exclude("화면 캡처해서 워크스페이스에 저장"), Vec::<&str>::new());
    assert_eq!(strip_quoted("열린 '따옴표"), "열린 ");
}
