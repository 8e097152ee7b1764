use local_agent::args::{
    absorb_relative_path_args, fix_paths_string, fix_resize_axis, inject_named_output,
    json_text_of, to_abs, JsonValue,
};

fn s(t: &str) -> JsonValue {
    JsonValue::Str(t.to_string())
}

fn n(t: &str) -> JsonValue {
    JsonValue::Number(t.to_string())
}

fn obj(entries: Vec<(&str, JsonValue)>) -> JsonValue {
    JsonValue::Object(entries.into_iter().map(|(k, v)| (k.to_string(), v)).collect())
}

fn get<'a>(v: &'a JsonValue, k: &str) -> Option<&'a JsonValue> {
    match v {
        JsonValue::Object(es) => es.iter().find(|(key, _)| key == k).map(|(_, v)| v),
        _ => None,
    }
}

fn get_str<'a>(v: &'a JsonValue, k: &str) -> &'a str {
    match get(v, k) {
        Some(JsonValue::Str(t)) => t,
        other => panic!("{k}: {other:?}"),
    }
}

#[test]
fn relative_path_args_are_absorbed_into_workspace() {
    let ws = "C:/ws";
    let args = absorb_relative_path_args(obj(vec![("path", s("1.png"))]), ws);
    assert_eq!(get_str(&args, "path"), "C:/ws/1.png");
    let args = absorb_relative_path_args(obj(vec![("path", s("D:/other/x.png"))]), ws);
    assert_eq!(get_str(&args, "path"), "D:/other/x.png");
    let args = absorb_relative_path_args(
        obj(vec![("paths", JsonValue::Array(vec![s("1.png"), s("C:/abs/2.png")]))]),
        ws,
    );
    match get(&args, "paths") {
        Some(JsonValue::Array(items)) => {
            assert!(matches!(&items[0], JsonValue::Str(t) if t == "C:/ws/1.png"));
            assert!(matches!(&items[1], JsonValue::Str(t) if t == "C:/abs/2.png"));
        }
        other => panic!("{other:?}"),
    }
    let args = absorb_relative_path_args(obj(vec![("paths", s("[\"1.png\", \"2.png\"]"))]), ws);
    assert_eq!(get_str(&args, "paths"), "C:/ws/1.png,C:/ws/2.png");
    let args = absorb_relative_path_args(obj(vec![("paths", s("a.png, C:/abs/b.png"))]), ws);
    assert_eq!(get_str(&args, "paths"), "C:/ws/a.png,C:/abs/b.png");
}

#[test]
fn absorb_keeps_other_keys_and_non_strings() {
    let args = absorb_relative_path_args(
        obj(vec![("pattern", s("*.png")), ("to", s(" sub\\b.txt ")), ("max", n("3"))]),
        "/home/u/ws",
    );
    assert_eq!(get_str(&args, "pattern"), "*.png");
    assert_eq!(get_str(&args, "to"), "/home/u/ws/sub/b.txt");
    assert!(matches!(get(&args, "max"), Some(JsonValue::Number(t)) if t == "3"));
    assert!(matches!(absorb_relative_path_args(JsonValue::Null, "/w"), JsonValue::Null));
}

#[test]
fn paths_string_drops_empty_pieces() {
    assert_eq!(fix_paths_string("a.png,, ,b.png", "/w"), "/w/a.png,/w/b.png");
    assert_eq!(fix_paths_string("", "/w"), "");
    assert_eq!(to_abs("  ", "/w"), None);
    assert_eq!(to_abs("x", "/w/").as_deref(), Some("/w/x"));
}

#[test]
fn resize_axis_fix_swaps_mismatched_dimension() {
    let args = fix_resize_axis(
        "photo.png 가로 800으로 줄여줘",
        "image_transform",
        obj(vec![("path", s("a.png")), ("resize_height", n("800"))]),
    );
    assert!(matches!(get(&args, "resize_width"), Some(JsonValue::Number(t)) if t == "800"));
    assert!(get(&args, "resize_height").is_none());

    let args = fix_resize_axis(
        "세로 600으로 맞춰줘",
        "image_transform",
        obj(vec![("path", s("a.png")), ("resize_width", n("600"))]),
    );
    assert!(matches!(get(&args, "resize_height"), Some(JsonValue::Number(t)) if t == "600"));

    let args = fix_resize_axis("가로 800 세로 600으로", "image_transform", obj(vec![("resize_height", n("800"))]));
    assert!(matches!(get(&args, "resize_height"), Some(JsonValue::Number(t)) if t == "800"));
    let args = fix_resize_axis("800으로 줄여줘", "image_transform", obj(vec![("resize_height", n("800"))]));
    assert!(matches!(get(&args, "resize_height"), Some(JsonValue::Number(t)) if t == "800"));
    let args = fix_resize_axis("가로 800", "zip_create", obj(vec![("resize_height", n("800"))]));
    assert!(get(&args, "resize_width").is_none());
}

#[test]
fn named_output_is_injected_when_model_omits_it() {
    let args = inject_named_output(
        "이미지들 묶어서 album.pdf로 만들어줘",
        "images_to_pdf",
        obj(vec![("dir", s("C:/ws"))]),
    );
    assert_eq!(get_str(&args, "output_path"), "album.pdf");

    let args = inject_named_output(
        "이미지들 묶어서 album.pdf로",
        "images_to_pdf",
        obj(vec![("dir", s("C:/ws")), ("output_path", s("C:/ws/모음.pdf"))]),
    );
    assert_eq!(get_str(&args, "output_path"), "C:/ws/모음.pdf");

    let args = inject_named_output(
        "photos.zip 다시 압축해줘",
        "zip_create",
        obj(vec![("paths", s("C:/ws/photos.zip"))]),
    );
    assert!(get(&args, "output_path").is_none());

    let args = inject_named_output("zip으로 압축해줘", "zip_create", obj(vec![("paths", s("C:/ws/a.png"))]));
    assert!(get(&args, "output_path").is_none());

    // a blank output path is replaced in place
    let args = inject_named_output(
        "b.zip 으로 묶어",
        "zip_create",
        obj(vec![("output_path", s("  ")), ("paths", s("x"))]),
    );
    assert_eq!(get_str(&args, "output_path"), "b.zip");
}

#[test]
fn json_text_matches_compact_serde_output() {
    let v = obj(vec![
        ("a", JsonValue::Array(vec![s("x\"y"), n("1.5"), JsonValue::Bool(true), JsonValue::Null])),
        ("b", obj(vec![])),
    ]);
    assert_eq!(json_text_of(&v), r#"{"a":["x\"y",1.5,true,null],"b":{}}"#);
}

#[test]
fn json_text_escapes_strings_as_serde_json_does() {
    let v = s("따옴표\" 역슬래시\\ 줄\n탭\t백\u{8}폼\u{c}복귀\r제어\u{1}\u{1f} 끝\u{7f}");
    assert_eq!(
        json_text_of(&v),
        "\"따옴표\\\" 역슬래시\\\\ 줄\\n탭\\t백\\b폼\\f복귀\\r제어\\u0001\\u001f 끝\u{7f}\""
    );
    let obj = JsonValue::Object(vec![("키\"".to_string(), s("값"))]);
    assert_eq!(json_text_of(&obj), "{\"키\\\"\":\"값\"}");
}
