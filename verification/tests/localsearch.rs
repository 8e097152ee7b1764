use local_agent::localsearch::{index_args, parse_index_summary, serve_args, LocalSearchConfig};

#[test]
fn index_args_places_index_subcommand_with_path() {
    let cfg = LocalSearchConfig {
        binary: "/v/ls".into(),
        models_dir: "/m".into(),
        db_dir: "/d".into(),
        ort_dylib: None,
        port: 11234,
    };
    let args = index_args(&cfg, "/docs/folder");
    assert_eq!(args, vec!["--models-dir", "/m", "--db-dir", "/d", "index", "/docs/folder"]);
}

#[test]
fn parse_index_summary_extracts_counts() {
    let out = "  [ok] a.md → 1 chunks\n인덱싱 완료: 5 chunks, skipped=2, errors=1\n";
    let s = parse_index_summary(out).unwrap();
    assert_eq!(s.indexed, 5);
    assert_eq!(s.skipped, 2);
    assert_eq!(s.errors, 1);
}

#[test]
fn parse_index_summary_is_none_without_summary_line() {
    assert!(parse_index_summary("진행 로그만 있고 완료줄 없음").is_none());
}

#[test]
fn serve_args_orders_global_dirs_before_subcommand() {
    let cfg = LocalSearchConfig {
        binary: "/v/localsearch-cli".into(),
        models_dir: "/m".into(),
        db_dir: "/d".into(),
        ort_dylib: Some("/lib/libonnxruntime.dylib".into()),
        port: 11234,
    };
    let args = serve_args(&cfg);
    assert_eq!(args, vec!["--models-dir", "/m", "--db-dir", "/d", "serve", "--port", "11234"]);
}

#[test]
fn summary_takes_last_line_and_rejects_overflow() {
    let out = "인덱싱 완료: 1 chunks, skipped=0, errors=0\r\n인덱싱 완료: 7 chunks, skipped=3, errors=0\r\n";
    let s = parse_index_summary(out).unwrap();
    assert_eq!((s.indexed, s.skipped, s.errors), (7, 3, 0));
    assert!(parse_index_summary("인덱싱 완료: 99999999999999999999 chunks, skipped=0, errors=0").is_none());
    assert!(parse_index_summary("인덱싱 완료: 5 chunks, errors=0").is_none());
}
