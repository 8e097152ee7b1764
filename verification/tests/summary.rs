use local_agent::summary::{build_suggestions, classify, summarize, Counts};

fn exts(names: &[&str]) -> Vec<Option<String>> {
    names
        .iter()
        .map(|n| local_agent::paths::extension_of(n))
        .collect()
}

#[test]
fn images_only_builds_pdf_and_bg_and_capture() {
    let s = summarize("/tmp/ws", "/tmp/home", true, &exts(&["a.png", "b.jpg"]));
    assert_eq!(s.images, 2);
    assert!(!s.is_empty);
    assert!(!s.is_default_home);
    assert!(s.removebg_available);
    assert_eq!(
        s.suggestions,
        vec![
            "이미지 2장을 PDF 한 권으로 묶기".to_string(),
            "사진 2장 배경 제거하기".to_string(),
            "화면 캡처해줘".to_string(),
        ]
    );
}

#[test]
fn pdf_only_builds_extract_and_capture() {
    let s = summarize("/tmp/ws", "/tmp/home", false, &exts(&["report.pdf"]));
    assert_eq!(s.pdfs, 1);
    assert_eq!(
        s.suggestions,
        vec!["PDF 1개에서 텍스트 추출".to_string(), "화면 캡처해줘".to_string()]
    );
}

#[test]
fn no_removebg_model_skips_bg_suggestion() {
    let s = summarize("/tmp/ws", "/tmp/home", false, &exts(&["a.png"]));
    assert!(!s.removebg_available);
    assert!(!s.suggestions.iter().any(|x| x.contains("배경 제거")));
}

#[test]
fn empty_dir_is_empty_and_no_suggestions() {
    let s = summarize("/tmp/ws", "/tmp/home", false, &vec![]);
    assert!(s.is_empty);
    assert!(s.suggestions.is_empty());
    let others = summarize("/tmp/ws", "/tmp/home", false, &exts(&["a.docx", "b.mp4"]));
    assert!(others.is_empty);
    assert_eq!(others.others, 2);
}

#[test]
fn default_home_detected_and_no_suggestions() {
    let s = summarize("/tmp/home", "/tmp/home/", false, &exts(&["a.png"]));
    assert!(s.is_default_home);
    assert!(s.suggestions.is_empty());
}

#[test]
fn folder_name_is_last_segment() {
    let s = summarize("/tmp/abc/작업", "/tmp/home", false, &vec![]);
    assert_eq!(s.folder_name, "작업");
    assert_eq!(s.workspace_dir, "/tmp/abc/작업");
}

#[test]
fn counts_and_suggestions() {
    let c = classify(&exts(&["A.PNG", "b.Tiff", "c.zip", "d.pdf", "e", "f.txt"]));
    assert_eq!(c, Counts { images: 2, pdfs: 1, zips: 1, others: 2 });
    assert_eq!(
        build_suggestions(&c, false),
        vec![
            "PDF 1개에서 텍스트 추출".to_string(),
            "이미지 2장을 PDF 한 권으로 묶기".to_string(),
            "압축 파일 풀기".to_string(),
            "화면 캡처해줘".to_string(),
        ]
    );
}
