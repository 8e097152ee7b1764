use local_agent::localsearch::IndexSummary;
use local_agent::tools::archive::{
    choose_entry_name, decode_name, entry_target, extract_dir, extract_report, folder_entry_name,
    is_safe_entry, listed_count, missing_target_error, parse_zip_targets, zip_create_report,
    output_exists_refusal, zip_list_report, zip_output_path, ListedEntry, ZipCreate, ZipExtract,
};
use local_agent::tools::capture::{capture_output, capture_report, pick_monitor, ScreenCapture};
use local_agent::tools::image::{
    format_of_path, image_info_report, is_jpeg_path, not_image_error, plan_remove_background,
    plan_transform, remove_background_report, resize_box, resolve_output_path, rotation_of,
    transform_report, undecodable_image_error, ImageInfo, ImageTransform, RemoveBackground,
};
use local_agent::tools::index::{index_report, index_target, not_a_folder_error, IndexFolder};
use local_agent::tools::notfound::{not_found_msg, EntryStep, HintSearch};
use local_agent::tools::pdf::{
    animated_webp_error, batch_error, check_pdf_request, choose_embedding, input_error_line,
    input_kind, is_cmyk_jpeg, jpeg_component_count, page_size_arg, pdf_report, pdf_text_report,
    temp_path, Embedding, ImagesToPdf, PageSize, PdfExtractText,
};
use local_agent::tools::profile::{ProfileUpdate, UpdateProfile};
use local_agent::tools::search::{
    glob_pattern, is_hidden_or_system, search_depth, FoundFile, SearchFiles, SearchState,
};
use local_agent::tools::workspace::{
    check_new_workspace, create_failed_error, set_workspace_report, workspace_in_use, SetWorkspace,
};

// ----- search ---------------------------------------------------------------

fn found(path: &str, name: &str, ext: Option<&str>) -> FoundFile {
    FoundFile {
        path: path.to_string(),
        name: name.to_string(),
        ext: ext.map(|e| e.to_string()),
        size: 1,
        modified: "2026-06-12 10:00".to_string(),
    }
}

fn sample_walk() -> Vec<FoundFile> {
    vec![
        found("/d/photo.png", "photo.png", Some("png")),
        found("/d/report.docx", "report.docx", Some("docx")),
        found("/d/sub/screenshot.PNG", "screenshot.PNG", Some("PNG")),
    ]
}

fn run_search(pattern: &str, images_only: bool) -> String {
    let mut s = SearchState::start("/d", pattern, images_only, None).unwrap();
    for f in sample_walk() {
        if !s.on_file(&f) {
            break;
        }
    }
    s.report()
}

#[test]
fn glob_matches_recursively_case_insensitive() {
    let out = run_search("*.png", false);
    assert!(out.contains("photo.png"));
    assert!(out.contains("screenshot.PNG"));
    assert!(!out.contains("report.docx"));
}

#[test]
fn substring_pattern_works() {
    let out = run_search("report", false);
    assert!(out.contains("report.docx"));
}

#[test]
fn images_only_filters_non_images() {
    let out = run_search("*", true);
    assert!(out.contains("photo.png"));
    assert!(!out.contains("report.docx"));
}

#[test]
fn search_report_format_and_empty_result() {
    let out = run_search("*.png", false);
    assert_eq!(
        out,
        "2개 발견:\npath\tsize\tmodified\n/d/photo.png\t1\t2026-06-12 10:00\n/d/sub/screenshot.PNG\t1\t2026-06-12 10:00"
    );
    let none = run_search("*.xyz", false);
    assert_eq!(none, "'*.xyz' 에 해당하는 파일 없음 (검색 위치: /d)");
}

#[test]
fn search_stops_at_limit() {
    let mut s = SearchState::start("/d", "*", false, Some(1)).unwrap();
    let walk = sample_walk();
    assert!(!s.on_file(&walk[0]));
    assert_eq!(s.results.len(), 1);
}

#[test]
fn search_glob_and_filters() {
    assert_eq!(glob_pattern("보고서"), "*보고서*");
    assert_eq!(glob_pattern("*.png"), "*.png");
    assert_eq!(glob_pattern("a?c"), "a?c");
    assert_eq!(search_depth(true), 8);
    assert_eq!(search_depth(false), 1);
    assert!(is_hidden_or_system(".git"));
    assert!(is_hidden_or_system("NODE_MODULES"));
    assert!(is_hidden_or_system("appdata"));
    assert!(!is_hidden_or_system("docs"));
    assert!(SearchState::start("/d", "[", false, None).is_err());
    assert_eq!(SearchFiles.name(), "search_files");
}

// ----- archive --------------------------------------------------------------

#[test]
fn zip_targets_are_split_trimmed_and_checked() {
    let v = parse_zip_targets(" /a/x.txt , ,/b/y.txt,").unwrap();
    assert_eq!(v, vec!["/a/x.txt".to_string(), "/b/y.txt".to_string()]);
    assert_eq!(parse_zip_targets(" , ").unwrap_err(), "압축할 대상이 없음");
    assert_eq!(missing_target_error("/a/x"), "경로 없음: /a/x");
}

#[test]
fn zip_default_output_next_to_first_target() {
    assert_eq!(zip_output_path("/w/보고서", None), "/w/보고서.zip");
    assert_eq!(zip_output_path("/w/a.txt", None), "/w/a.zip");
    assert_eq!(zip_output_path("/w/a.txt", Some("/o/x.zip")), "/o/x.zip");
    assert_eq!(zip_output_path("/w/", None), "/w/archive.zip");
    assert_eq!(
        output_exists_refusal("/w/a.zip"),
        "대상이 이미 존재함: /w/a.zip (다른 output_path 지정)"
    );
}

#[test]
fn folder_entries_keep_folder_name_as_root() {
    assert_eq!(folder_entry_name("/w/보고서", "/w/보고서/요약.txt"), "보고서/요약.txt");
    assert_eq!(
        folder_entry_name("C:\\w\\보고서", "C:\\w\\보고서\\하위\\자료.md"),
        "보고서/하위/자료.md"
    );
    assert_eq!(folder_entry_name("/w/a", "/x/b.txt"), "/x/b.txt");
}

#[test]
fn zip_reports() {
    assert_eq!(
        zip_create_report("/w/보고서.zip", 2, 300),
        "압축 완료: /w/보고서.zip (파일 2개, 300 bytes)"
    );
    assert_eq!(extract_report("/w/풀기", 3), "압축 해제 완료: /w/풀기 (파일 3개)");
    let entries = vec![
        ListedEntry { name: "보고서/요약.txt".to_string(), size: 15 },
        ListedEntry { name: "보고서/하위/자료.md".to_string(), size: 8 },
    ];
    assert_eq!(
        zip_list_report(2, &entries),
        "2개 항목:\nname\tsize\n보고서/요약.txt\t15\n보고서/하위/자료.md\t8"
    );
    assert_eq!(listed_count(5), 5);
    assert_eq!(listed_count(500), 200);
    assert_eq!(ZipCreate.name(), "zip_create");
    assert_eq!(ZipExtract.name(), "zip_extract");
}

#[test]
fn extract_blocks_zip_slip() {
    assert!(!is_safe_entry("../escape.txt"));
    assert!(!is_safe_entry("a/../../escape.txt"));
    assert!(!is_safe_entry("/etc/passwd"));
    assert!(!is_safe_entry("C:\\x.txt"));
    assert!(is_safe_entry("보고서/요약.txt"));
    assert_eq!(entry_target("/w/out", "보고서/요약.txt"), "/w/out/보고서/요약.txt");
    assert_eq!(extract_dir("/w/보고서.zip", None), "/w/보고서");
    assert_eq!(extract_dir("/w/a.zip", Some("/w/풀기")), "/w/풀기");
}

#[test]
fn entry_names_decode_utf8_then_euc_kr() {
    assert_eq!(decode_name("요약.txt".as_bytes()), "요약.txt");
    // "한글" in EUC-KR
    assert_eq!(decode_name(&[0xC7, 0xD1, 0xB1, 0xDB]), "한글");
    assert_eq!(
        choose_entry_name(None, ("x".to_string(), true), "lossy".to_string()),
        "lossy"
    );
    assert_eq!(
        choose_entry_name(Some("u".to_string()), ("x".to_string(), false), "l".to_string()),
        "u"
    );
}

// ----- image ----------------------------------------------------------------

#[test]
fn info_reports_dimensions() {
    let out = image_info_report("/w/a.png", 32, 16, 120);
    assert!(out.contains("32x16"));
    assert_eq!(out, "/w/a.png: 32x16 px, 포맷 Png, 120 bytes");
    assert_eq!(format_of_path("/w/a.JPG"), "Jpeg");
    assert_eq!(format_of_path("/w/a.xyz"), "unknown");
    assert_eq!(format_of_path("/w/noext"), "unknown");
}

#[test]
fn convert_to_jpeg_drops_alpha() {
    let plan = plan_transform("/w/a.png", None, Some("jpeg"), None, None, None, false, "/w").unwrap();
    assert_eq!(plan.output, "/w/a_edited.jpeg");
    assert!(plan.drop_alpha);
    let out = transform_report(&plan, 10, 10, 10, 10);
    assert!(out.contains("a_edited.jpeg"), "{out}");
    assert_eq!(out, "포맷 변환 완료 -> /w/a_edited.jpeg");
}

#[test]
fn transform_plan_orders_edits_and_checks_rotation() {
    let plan =
        plan_transform("/w/a.png", None, None, Some(40), None, Some(90), true, "/w").unwrap();
    assert_eq!(plan.resize, Some((40, u32::MAX)));
    assert_eq!(plan.rotate, Some(90));
    assert!(!plan.drop_alpha);
    assert_eq!(
        transform_report(&plan, 100, 50, 40, 20),
        "리사이즈 100x50 -> 40x20, 회전 90°, 흑백 변환 완료 -> /w/a_edited.png"
    );
    let err = plan_transform("/w/a.png", None, None, None, None, Some(45), false, "/w")
        .err()
        .unwrap();
    assert_eq!(err, "지원하지 않는 회전 각도: 45 (90/180/270만 가능)");
    let outside = plan_transform("/w/a.png", Some("/x/b.png"), None, None, None, None, false, "/w")
        .err()
        .unwrap();
    assert!(outside.contains("워크스페이스 밖"), "{outside}");
    let named = plan_transform("/w/a.png", Some("b.png"), None, None, None, None, false, "/w").unwrap();
    assert_eq!(named.output, "/w/b.png");
}

#[test]
fn transform_helpers() {
    assert_eq!(rotation_of(None), Ok(None));
    assert_eq!(rotation_of(Some(270)), Ok(Some(270)));
    assert_eq!(resize_box(None, None), None);
    assert_eq!(resize_box(None, Some(5)), Some((u32::MAX, 5)));
    assert_eq!(resize_box(Some(4294967297), None), Some((1, u32::MAX)));
    assert_eq!(resolve_output_path("/w/a.webp", None, None).unwrap(), "/w/a_edited.webp");
    assert_eq!(resolve_output_path("/w/noext", None, None).unwrap(), "/w/noext_edited.png");
    assert_eq!(resolve_output_path("/w/", None, None).unwrap_err(), "잘못된 경로");
    assert!(is_jpeg_path("/w/x.JPG"));
    assert!(!is_jpeg_path("/w/x.png"));
    assert_eq!(
        not_image_error("/w/a.txt"),
        "이 파일은 이미지가 아닙니다: /w/a.txt. 이 사실을 그대로 사용자에게 알리세요."
    );
    assert!(undecodable_image_error("/w/a.txt", "bad").contains("(bad)"));
    assert_eq!(ImageInfo.name(), "image_info");
    assert_eq!(ImageTransform.name(), "image_transform");
}

#[test]
fn rejects_non_png_output() {
    let err = plan_remove_background("/w/in.png", Some("/w/out.jpg"), "/w").unwrap_err();
    assert!(err.contains(".png"), "{err}");
}

#[test]
fn rejects_unsupported_input_extension() {
    let err = plan_remove_background("/w/in.gif", None, "/w").unwrap_err();
    assert!(err.contains("지원하지 않는 입력"), "{err}");
    assert_eq!(err, "지원하지 않는 입력 형식 .gif (jpg, jpeg, png, webp, bmp, tiff 지원)");
}

#[test]
fn outside_input_defaults_into_workspace_not_rejected() {
    let out = plan_remove_background("/tmp/cache/in.png", None, "/tmp/ws").unwrap();
    assert_eq!(out, "/tmp/ws/in_nobg.png");
    let inside = plan_remove_background("/tmp/ws/sub/c.PNG", None, "/tmp/ws").unwrap();
    assert_eq!(inside, "/tmp/ws/sub/c_nobg.png");
    assert_eq!(
        remove_background_report("/tmp/ws/in_nobg.png", 96, 72),
        "배경 제거 완료 -> /tmp/ws/in_nobg.png (96x72 px, 투명 PNG)"
    );
    assert_eq!(RemoveBackground.name(), "remove_background");
}

// ----- pdf ------------------------------------------------------------------

#[test]
fn rejects_non_pdf_output() {
    let paths = vec!["/w/a.png".to_string()];
    let err = check_pdf_request(&paths, "/w/o.txt").unwrap_err();
    assert!(err.contains(".pdf"), "{err}");
    assert!(check_pdf_request(&paths, "/w/o.PDF").is_ok());
    assert_eq!(
        check_pdf_request(&vec![], "/w/o.pdf").unwrap_err(),
        "필수 인자 누락: paths (이미지 경로 배열)"
    );
}

#[test]
fn mixed_batch_reports_all_unsupported_at_once() {
    let inputs = ["/w/a.png", "/w/b.gif", "/w/c.heic"];
    let mut errors = Vec::new();
    for p in inputs {
        if let Err(e) = input_kind(p) {
            errors.push(input_error_line(p, &e));
        }
    }
    let msg = batch_error(&errors);
    assert!(msg.contains("b.gif") && msg.contains("c.heic"), "{msg}");
    assert_eq!(
        msg,
        "입력 검증 실패 (2건):\n/w/b.gif: 지원하지 않는 형식: gif (png, jpg, jpeg, bmp, webp 만 지원)\n/w/c.heic: 지원하지 않는 형식: heic (png, jpg, jpeg, bmp, webp 만 지원)"
    );
}

#[test]
fn output_outside_workspace_rejected() {
    let err = local_agent::paths::ensure_in_workspace("/tmp/밖.pdf", "/tmp/ws").unwrap_err();
    assert!(err.message().contains("워크스페이스 밖"));
}

#[test]
fn jpeg_component_count_reads_frame_header() {
    // SOI, APP0 (length 4), SOF0 with Nf = 3
    let rgb = [
        0xFF, 0xD8, 0xFF, 0xE0, 0x00, 0x04, 0x00, 0x00, 0xFF, 0xC0, 0x00, 0x11, 0x08, 0x00, 0x10,
        0x00, 0x10, 0x03, 0x01,
    ];
    assert_eq!(jpeg_component_count(&rgb), Some(3));
    let cmyk = [0xFF, 0xD8, 0xFF, 0xC2, 0x00, 0x14, 0x08, 0x00, 0x10, 0x00, 0x10, 0x04];
    assert_eq!(jpeg_component_count(&cmyk), Some(4));
    assert!(is_cmyk_jpeg(true, &cmyk));
    assert!(!is_cmyk_jpeg(false, &cmyk));
    // DHT (C4) is not a frame header; restart markers carry no length
    let dht = [0xFF, 0xD8, 0xFF, 0xD0, 0xFF, 0xC4, 0x00, 0x02, 0xFF, 0xC1, 0, 0, 8, 0, 0, 0, 0, 1];
    assert_eq!(jpeg_component_count(&dht), Some(1));
    assert_eq!(jpeg_component_count(&[0x89, 0x50, 0x4E, 0x47]), None);
    assert_eq!(jpeg_component_count(&[0xFF, 0xD8, 0xFF]), None);
    assert_eq!(jpeg_component_count(&[0xFF, 0xD8, 0xFF, 0xC0, 0x00]), None);
}

#[test]
fn pdf_page_size_and_embedding() {
    assert_eq!(PageSize::parse(" A4 "), Some(PageSize::A4));
    assert_eq!(PageSize::parse("Letter"), Some(PageSize::Letter));
    assert_eq!(PageSize::parse("fit"), Some(PageSize::Fit));
    assert_eq!(PageSize::parse("b5"), None);
    assert_eq!(page_size_arg(None), Ok(PageSize::A4));
    assert_eq!(page_size_arg(Some("b5")).unwrap_err(), "page_size 는 a4|letter|fit 중 하나: b5");
    assert_eq!(choose_embedding(true, false, false, true), Embedding::Corrected);
    assert_eq!(choose_embedding(false, false, false, true), Embedding::JpegPassthrough);
    assert_eq!(choose_embedding(false, false, false, false), Embedding::Raw);
    assert_eq!(choose_embedding(false, false, true, true), Embedding::Corrected);
    let k = input_kind("/w/a.JPG").unwrap();
    assert!(k.is_jpeg && !k.is_webp);
    assert!(input_kind("/w/a.webp").unwrap().is_webp);
    assert_eq!(temp_path("/w/out.pdf"), "/w/out.pdf.tmp");
    assert_eq!(pdf_report("/w/o.pdf", 2, 999), "PDF 생성 완료: /w/o.pdf (2페이지, 999 bytes)");
    assert!(pdf_report("/w/o.pdf", 2, 999).contains("2페이지"));
    assert_eq!(animated_webp_error("/w/a.webp"), "animated webp 는 지원하지 않음: /w/a.webp");
    assert_eq!(ImagesToPdf.name(), "images_to_pdf");
    assert_eq!(PdfExtractText.name(), "pdf_extract_text");
}

#[test]
fn pdf_text_is_trimmed_and_clipped() {
    assert_eq!(pdf_text_report("  본문  ", 20000), "본문");
    assert_eq!(pdf_text_report("가나다라", 2), "가나\n...(잘림: 전체 4자 중 2자)");
    assert_eq!(pdf_text_report("가나", 2), "가나");
    assert!(pdf_text_report(" \n ", 10).contains("스캔본"));
}

// ----- capture, index, profile, workspace -------------------------------------

#[test]
fn capture_defaults_into_workspace_captures() {
    assert_eq!(
        capture_output(None, "/w", "20260612_101010").unwrap(),
        "/w/captures/capture_20260612_101010.png"
    );
    assert!(capture_output(Some("/x/a.png"), "/w", "s").unwrap_err().contains("워크스페이스 밖"));
    assert_eq!(pick_monitor(0, 2), Ok(0));
    assert_eq!(pick_monitor(3, 2).unwrap_err(), "모니터 3 없음 (총 2개)");
    assert_eq!(capture_report("/w/c.png", 1920, 1080), "캡처 완료: /w/c.png (1920x1080 px)");
    assert_eq!(ScreenCapture.name(), "screen_capture");
}

#[test]
fn index_folder_paths_and_report() {
    assert_eq!(index_target("docs", "/w"), "/w/docs");
    assert_eq!(index_target("/d/docs", "/w"), "/d/docs");
    let s = IndexSummary { indexed: 12, skipped: 1, errors: 0 };
    assert_eq!(
        index_report(&s, "/w/docs"),
        "인덱싱 완료: 12 chunks (건너뜀 1, 오류 0). 이제 '/w/docs' 내용을 검색할 수 있습니다."
    );
    assert!(not_a_folder_error("/w/x").contains("/w/x"));
    assert_eq!(IndexFolder.name(), "index_folder");
}

#[test]
fn saves_both_names() {
    let u = ProfileUpdate::from_args(Some("태경"), Some("앨리")).unwrap();
    let mut user = String::new();
    let mut agent = String::new();
    u.apply(&mut user, &mut agent);
    let out = u.report();
    assert!(out.contains("저장 완료"), "{out}");
    assert_eq!(user, "태경");
    assert_eq!(agent, "앨리");
    assert_eq!(out, "사용자 이름 '태경', 내 이름 '앨리' 저장 완료. 앞으로 이 이름을 기억한다.");
}

#[test]
fn partial_update_keeps_other_name() {
    let mut user = String::new();
    let mut agent = "앨리".to_string();
    let u = ProfileUpdate::from_args(Some("태경"), None).unwrap();
    u.apply(&mut user, &mut agent);
    assert_eq!(agent, "앨리");
    assert_eq!(user, "태경");
}

#[test]
fn rejects_empty_args() {
    assert!(ProfileUpdate::from_args(None, None).is_err());
    assert!(ProfileUpdate::from_args(Some("  "), None).is_err());
    assert_eq!(UpdateProfile.name(), "update_profile");
}

#[test]
fn set_workspace_requires_absolute_path() {
    assert!(check_new_workspace("/home/u/새작업공간").is_ok());
    assert_eq!(check_new_workspace("rel").unwrap_err(), "절대경로가 필요함: rel");
    let out = set_workspace_report("/home/u/새작업공간");
    assert!(out.contains("변경 완료"), "{out}");
    assert_eq!(
        create_failed_error("/x", "denied"),
        "워크스페이스 생성 실패: /x (denied)"
    );
    assert_eq!(SetWorkspace.name(), "set_workspace");
}

#[test]
fn workspace_path_falls_back_when_dir_missing() {
    let p = workspace_in_use("C:/이런폴더는없습니다/진짜로없음", false, "/home/u");
    assert_eq!(p, "/home/u");
    assert_eq!(workspace_in_use("  ", true, "/home/u"), "/home/u");
}

#[test]
fn workspace_path_keeps_existing_dir() {
    assert_eq!(workspace_in_use("/w/ws", true, "/home/u"), "/w/ws");
}

#[test]
fn not_found_msg_instructs_asking_user_when_no_candidate() {
    let msg = not_found_msg("/w/유니콘.pdf", "", &vec![]);
    assert!(msg.contains("물어보세요"), "{msg}");
    assert!(msg.contains("추측"), "{msg}");
}

#[test]
fn hint_scan_reads_parent_before_workspace() {
    let mut scan = HintSearch::start("/p/ws/N.txt", "/p/ws", Some("/p")).unwrap();
    assert_eq!(scan.next_dir(), Some(("/p".to_string(), 1)));
    // the parent holds the workspace folder and the file
    assert!(matches!(scan.on_entry("/p/ws", false, true, 1), EntryStep::Next));
    match scan.on_entry("/p/N.txt", true, false, 1) {
        EntryStep::Found(h) => {
            assert_eq!(h, " 같은 이름의 파일 발견: /p/N.txt — 이 경로로 다시 시도하세요.")
        }
        _ => panic!("the file in the parent is the hint"),
    }
}

#[test]
fn hint_scan_names_similar_file_with_same_extension() {
    let mut scan = HintSearch::start("/d/pngs.pngs.zip", "/d", None).unwrap();
    assert_eq!(scan.next_dir(), Some(("/d".to_string(), 0)));
    assert!(matches!(scan.on_entry("/d/pngs.zip", true, false, 0), EntryStep::Next));
    assert_eq!(scan.next_dir(), None);
    assert_eq!(scan.finish(), " 비슷한 파일 발견: /d/pngs.zip — 이 경로로 다시 시도하세요.");

    let mut scan = HintSearch::start("/d/pngs.pngs.zip", "/d", None).unwrap();
    scan.next_dir();
    assert!(matches!(scan.on_entry("/d/pngs.txt", true, false, 0), EntryStep::Next));
    assert_eq!(scan.finish(), "");

    // the extension is compared after lower-casing
    let mut scan = HintSearch::start("/d/Report.PDF", "/d", None).unwrap();
    scan.next_dir();
    assert!(matches!(scan.on_entry("/d/report_final.pdf", true, false, 0), EntryStep::Next));
    assert_eq!(scan.finish(), " 비슷한 파일 발견: /d/report_final.pdf — 이 경로로 다시 시도하세요.");
}
