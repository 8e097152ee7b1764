use local_agent::commands::{capture_file_name, capture_result, is_model_file, model_list, ModelEntry};
use local_agent::server::{
    base_url, health_url, i32_to_string, is_mmproj_file, missing_model_error, missing_program_error,
    resolve_mmproj, restart_needed, server_args, HealthWait, ServerSettings, WaitStep,
};

fn entry(name: &str) -> ModelEntry {
    ModelEntry { name: name.to_string(), path: format!("/m/{name}"), size_bytes: 1 }
}

#[test]
fn models_are_filtered_and_sorted_by_name() {
    let found = vec![
        entry("z.gguf"),
        entry("mmproj-x.gguf"),
        entry("A.GGUF"),
        entry("notes.txt"),
        entry("b.gguf"),
    ];
    let list = model_list(found);
    let names: Vec<&str> = list.iter().map(|e| e.name.as_str()).collect();
    assert_eq!(names, vec!["A.GGUF", "b.gguf", "z.gguf"]);
    assert!(is_model_file("Qwen.GGUF"));
    assert!(!is_model_file("MMPROJ-qwen.gguf"));
}

#[test]
fn capture_result_has_png_data_url() {
    let r = capture_result("/w/captures/c.png", b"Man", 320, 200);
    assert_eq!(r.thumb_data_url, "data:image/png;base64,TWFu");
    let r2 = capture_result("/w/c.png", &[0xFF, 0xEE], 1, 1);
    assert_eq!(r2.thumb_data_url, "data:image/png;base64,/+4=");
    assert_eq!(r2.path, "/w/c.png");
    assert_eq!(capture_file_name("20260612_101010_123"), "capture_20260612_101010_123.png");
}

fn settings(device: &str, budget: i32) -> ServerSettings {
    ServerSettings {
        server_exe: "/b/llama-server".to_string(),
        model_path: "/m/model.gguf".to_string(),
        port: 8736,
        n_gpu_layers: 99,
        ctx_size: 16384,
        device: device.to_string(),
        reasoning_budget: budget,
        mmproj_path: String::new(),
    }
}

#[test]
fn server_args_follow_settings() {
    let a = server_args(&settings("Vulkan0", 0), Some("/m/mmproj-model.gguf"));
    assert_eq!(
        a,
        vec![
            "-m", "/m/model.gguf", "--port", "8736", "--host", "127.0.0.1", "-ngl", "99", "-c",
            "16384", "--jinja", "--no-webui", "--mmproj", "/m/mmproj-model.gguf",
            "--image-min-tokens", "1024", "--device", "Vulkan0", "--reasoning", "off"
        ]
    );
    let b = server_args(&settings("  ", -1), None);
    assert_eq!(&b[12..], &["--reasoning-budget", "-1", "--reasoning-budget-message",
        "생각할 시간이 끝났다. 지금 바로 도구를 호출하거나 한국어로 최종 답변한다."]);
    assert_eq!(i32_to_string(i32::MIN), "-2147483648");
}

#[test]
fn mmproj_prefers_configured_then_sibling() {
    let sib = vec!["/m/model-Q4.gguf".to_string(), "/m/MMPROJ-model-BF16.gguf".to_string()];
    assert_eq!(resolve_mmproj("", false, &sib), Some("/m/MMPROJ-model-BF16.gguf".to_string()));
    assert_eq!(resolve_mmproj("/c/custom.gguf", true, &sib), Some("/c/custom.gguf".to_string()));
    assert_eq!(resolve_mmproj("/c/custom.gguf", false, &sib), None);
    assert_eq!(resolve_mmproj(" ", false, &vec!["/m/model-Q4.gguf".to_string()]), None);
    assert!(is_mmproj_file("/m/mmproj-x.GGUF"));
}

#[test]
fn health_wait_outcomes() {
    assert_eq!(base_url(8736), "http://127.0.0.1:8736");
    assert_eq!(health_url("http://127.0.0.1:8736"), "http://127.0.0.1:8736/health");
    assert_eq!(missing_model_error("/m/x.gguf"), "모델 파일이 없습니다: /m/x.gguf");
    assert_eq!(
        missing_program_error("llama-server", "/b/x"),
        "llama-server 실행 파일이 없습니다: /b/x"
    );
    let mut w = HealthWait::new("llama-server", None);
    assert!(matches!(w.on_probe(None, false), WaitStep::Retry));
    assert!(matches!(w.on_probe(None, true), WaitStep::Ready));
    let mut e = HealthWait::new("llama-server", None);
    match e.on_probe(Some("exit status: 1"), false) {
        WaitStep::Failed(m) => assert_eq!(m, "llama-server 가 즉시 종료됨 (exit: exit status: 1)"),
        _ => panic!("expected failure"),
    }
    let mut t = HealthWait::new("llama-server", None);
    for _ in 0..119 {
        assert!(matches!(t.on_probe(None, false), WaitStep::Retry));
    }
    match t.on_probe(None, false) {
        WaitStep::Failed(m) => assert_eq!(m, "llama-server 가 120초 내에 준비되지 않음"),
        _ => panic!("expected timeout"),
    }
}

#[test]
fn sidecar_exit_names_log_and_settings_change_restarts() {
    let mut w = HealthWait::new("localsearch-cli", Some("/logs/localsearch-server.log"));
    match w.on_probe(Some("exit status: 2"), false) {
        WaitStep::Failed(m) => assert_eq!(
            m,
            "localsearch-cli 가 즉시 종료됨 (exit: exit status: 2). 로그: /logs/localsearch-server.log"
        ),
        _ => panic!("expected failure"),
    }
    let a = settings("Vulkan0", 0);
    let mut b = settings("Vulkan0", 0);
    assert!(!restart_needed(&a, &b));
    b.ctx_size = 8192;
    assert!(restart_needed(&a, &b));
    let mut c = settings("Vulkan0", 0);
    c.mmproj_path = "/m/p.gguf".to_string();
    assert!(restart_needed(&a, &c));
}
