use local_agent::paths::{
    absorb_into_workspace, default_output_in_workspace, ensure_in_workspace, extension_of,
    file_stem_of, join, normalize,
};

#[test]
fn default_output_routes_outside_input_into_workspace() {
    let ws = "/home/user/ws";
    let got = default_output_in_workspace(
        "/home/user/Library/Caches/app/captures/x.png",
        "x_nobg.png",
        ws,
    );
    assert_eq!(got, "/home/user/ws/x_nobg.png");
}

#[test]
fn default_output_keeps_inside_input_next_to_it() {
    let ws = "/home/user/ws";
    let got = default_output_in_workspace("/home/user/ws/sub/y.png", "y_edited.png", ws);
    assert_eq!(got, "/home/user/ws/sub/y_edited.png");
}

#[test]
fn inside_workspace_passes() {
    let ws = r"C:\Users\EST\work";
    assert!(ensure_in_workspace(r"C:\Users\EST\work\a.txt", ws).is_ok());
    assert!(ensure_in_workspace(r"C:\Users\EST\work\sub\b.png", ws).is_ok());
    assert!(ensure_in_workspace(r"C:\Users\EST\work", ws).is_ok());
}

#[test]
fn outside_workspace_fails_with_korean_hint() {
    let ws = r"C:\Users\EST\work";
    let err = ensure_in_workspace(r"C:\Users\EST\Desktop\a.txt", ws).unwrap_err();
    assert!(err.message().contains("워크스페이스 밖"), "{}", err.message());
}

#[test]
fn slash_and_case_are_normalized() {
    let ws = r"C:\Users\EST\Work";
    assert!(ensure_in_workspace("C:/users/est/work/파일.txt", ws).is_ok());
}

#[test]
fn parent_dir_escape_rejected() {
    let ws = r"C:\Users\EST\work";
    assert!(ensure_in_workspace(r"C:\Users\EST\work\..\Desktop\x.txt", ws).is_err());
}

#[test]
fn prefix_name_collision_is_not_inside() {
    let ws = r"C:\Users\EST\work";
    assert!(ensure_in_workspace(r"C:\Users\EST\work2\a.txt", ws).is_err());
}

#[test]
fn relative_path_rejected() {
    let ws = r"C:\Users\EST\work";
    assert!(ensure_in_workspace("a.txt", ws).is_err());
}

#[test]
fn guard_messages_name_the_path() {
    let e = ensure_in_workspace("a.txt", "/ws").unwrap_err();
    assert_eq!(e.message(), "절대경로가 필요함: a.txt");
    let e = ensure_in_workspace("/ws/../x", "/ws").unwrap_err();
    assert_eq!(e.message(), "경로에 .. 사용 불가: /ws/../x");
    let e = ensure_in_workspace("/other/x", "/ws").unwrap_err();
    assert_eq!(
        e.message(),
        "워크스페이스 밖에는 쓸 수 없음: /other/x. 파일 생성/수정/삭제는 워크스페이스(/ws) 안의 경로로 다시 시도하세요."
    );
    assert!(ensure_in_workspace("/anything", "").is_ok());
}

#[test]
fn path_pieces() {
    assert_eq!(normalize("/A/./b//C").unwrap(), vec!["a", "b", "c"]);
    assert_eq!(join("C:/ws", "1.png"), "C:/ws/1.png");
    assert_eq!(join("C:/ws/", "1.png"), "C:/ws/1.png");
    assert_eq!(join("C:/ws", "D:/x.png"), "D:/x.png");
    assert_eq!(absorb_into_workspace("memo.txt", "/home/ws"), "/home/ws/memo.txt");
    assert_eq!(absorb_into_workspace("/abs/memo.txt", "/home/ws"), "/abs/memo.txt");
    assert_eq!(file_stem_of("/a/b/photo.tar.gz"), "photo.tar");
    assert_eq!(extension_of("/a/b/photo.tar.gz").as_deref(), Some("gz"));
    assert_eq!(extension_of("/a/.bashrc"), None);
    assert_eq!(file_stem_of("/a/.bashrc"), ".bashrc");
}

#[test]
fn join_puts_the_platform_separator_between() {
    let sep = std::path::MAIN_SEPARATOR;
    assert_eq!(local_agent::paths::join("/ws", "a.txt"), format!("/ws{sep}a.txt"));
    assert_eq!(local_agent::paths::join("/ws/", "a.txt"), "/ws/a.txt");
    assert_eq!(local_agent::paths::join("/ws", "/x/b.txt"), "/x/b.txt");
    assert_eq!(local_agent::paths::join("", "c.txt"), "c.txt");
}
