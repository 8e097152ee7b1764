use local_agent::tools::fs::{
    binary_redirect, check_new_name, copy_report, delete_report, exists_refusal, list_report,
    list_single_file, move_report, read_text, rename_exists_refusal, rename_report, rename_target,
    target_exists_refusal, write_report, DirEntryInfo, ListDir, ReadFile,
};

fn entry(name: &str, is_dir: bool) -> DirEntryInfo {
    DirEntryInfo { is_dir, size: 3, modified: "2026-06-12 10:00".to_string(), name: name.to_string() }
}

#[test]
fn listing_has_header_and_cap() {
    assert_eq!(list_report(&vec![]), "(빈 디렉토리)");
    assert_eq!(
        list_report(&vec![entry("a.txt", false), entry("sub", true)]),
        "type\tsize\tmodified\tname\nfile\t3\t2026-06-12 10:00\ta.txt\ndir\t3\t2026-06-12 10:00\tsub"
    );
    let many: Vec<DirEntryInfo> = (0..105).map(|i| entry(&format!("f{i}"), false)).collect();
    let out = list_report(&many);
    assert!(out.ends_with("\n...(총 105개 중 100개만 표시)"), "{out}");
    assert!(out.contains("\tf99\n") && !out.contains("\tf100"));
    assert_eq!(
        list_single_file("/w/a.txt", 5, "2026-06-12 10:00"),
        "type\tsize\tmodified\tname\nfile\t5\t2026-06-12 10:00\ta.txt\n(이 경로는 폴더가 아니라 파일 1개입니다)"
    );
    assert_eq!(ListDir.name(), "list_dir");
}

#[test]
fn reading_redirects_binaries_and_clips() {
    assert!(binary_redirect("/w/a.PDF").unwrap().contains("pdf_extract_text"));
    assert!(binary_redirect("/w/a.png").unwrap().contains("image_info"));
    assert!(binary_redirect("/w/a.zip").unwrap().contains("zip_extract"));
    assert_eq!(binary_redirect("/w/a.txt"), None);
    assert_eq!(read_text("안녕".as_bytes(), 6), "안녕");
    assert_eq!(read_text(&[0x61, 0xFF, 0x62], 3), "a\u{FFFD}b");
    let big = vec![b'x'; 70000];
    let out = read_text(&big, 70000);
    assert!(out.ends_with("\n...(잘림: 전체 70000 bytes 중 65536 bytes만 표시)"));
    assert_eq!(out.chars().filter(|c| *c == 'x').count(), 65536);
    assert_eq!(ReadFile.name(), "read_file");
}

#[test]
fn write_then_read_roundtrip() {
    let out = write_report("/w/a.txt", "안녕");
    assert!(out.contains("저장 완료"));
    assert_eq!(out, "저장 완료: /w/a.txt (6 bytes)");
    assert_eq!(read_text("안녕".as_bytes(), 6), "안녕");
}

#[test]
fn write_refuses_overwrite_without_flag() {
    let err = exists_refusal("/w/a.txt");
    assert!(err.contains("overwrite"));
    assert_eq!(err, "파일이 이미 존재함: /w/a.txt. 덮어쓰려면 overwrite=true 로 다시 호출.");
}

#[test]
fn write_file_absorbs_bare_name_into_workspace() {
    assert_eq!(local_agent::paths::absorb_into_workspace("memo.txt", "/w"), "/w/memo.txt");
}

#[test]
fn move_copy_delete_rename_reports() {
    assert_eq!(move_report("/w/a", "/w/b/a"), "이동 완료: /w/a -> /w/b/a");
    assert_eq!(copy_report("/w/a", "/w/c", 12), "복사 완료: /w/a -> /w/c (12 bytes)");
    assert_eq!(delete_report("/w/a"), "휴지통으로 이동 완료: /w/a");
    assert_eq!(target_exists_refusal("/w/c"), "대상이 이미 존재함: /w/c");
    assert_eq!(check_new_name("  cat1 "), Ok("cat1".to_string()));
    assert!(check_new_name(" ").is_err());
    assert!(check_new_name("a/b").unwrap_err().contains("move_path"));
    assert_eq!(rename_target("/w/cat.png", "cat1", true), "/w/cat1.png");
    assert_eq!(rename_target("/w/v1.0", "v2", false), "/w/v2");
    assert_eq!(rename_target("/w/cat.png", "dog.jpg", true), "/w/dog.jpg");
    assert_eq!(rename_exists_refusal("/w/x"), "같은 이름이 이미 존재함: /w/x");
    assert_eq!(rename_report("/w/a.png", "/w/b.png"), "이름 변경 완료: /w/a.png -> /w/b.png");
}
