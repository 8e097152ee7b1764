use local_agent::tools::{ToolKind, ToolRegistry};

fn names_of(text: &str) -> Vec<String> {
    let v: serde_json::Value = serde_json::from_str(text).unwrap();
    v.as_array()
        .unwrap()
        .iter()
        .map(|t| t["function"]["name"].as_str().unwrap().to_string())
        .collect()
}

#[test]
fn schemas_only_exposes_allowed_minus_excluded() {
    let reg = ToolRegistry::with_default_tools();
    let v = reg.schemas_only(&["list_dir", "read_file", "search_files"], &["search_files"]);
    let names = names_of(&v);
    assert_eq!(names, vec!["list_dir", "read_file"]);
    assert!(!names.contains(&"write_file".to_string()));
    assert!(!names.contains(&"delete_path".to_string()));
}

#[test]
fn registry_has_rename_file_and_no_update_profile() {
    let names = names_of(&ToolRegistry::with_default_tools().schemas());
    assert!(names.contains(&"rename_file".to_string()), "{names:?}");
    assert!(!names.contains(&"update_profile".to_string()), "{names:?}");
    assert_eq!(names.len(), 17);
}

#[test]
fn schemas_excluding_hides_tool() {
    let registry = ToolRegistry::with_default_tools();
    let all = registry.schemas();
    assert!(all.contains("image_transform") && all.contains("remove_background"));
    let filtered = registry.schemas_excluding(&["image_transform"]);
    assert!(!filtered.contains("\"image_transform\""));
    assert!(filtered.contains("remove_background"));
}

#[test]
fn schemas_are_valid_json_with_parameters() {
    let reg = ToolRegistry::with_default_tools();
    let v: serde_json::Value = serde_json::from_str(&reg.schemas()).unwrap();
    let first = &v[0];
    assert_eq!(first["type"], "function");
    assert_eq!(first["function"]["name"], "list_dir");
    assert_eq!(first["function"]["parameters"]["required"][0], "path");
    let t: serde_json::Value = serde_json::from_str(ToolKind::ImageTransform.parameters()).unwrap();
    assert_eq!(t["properties"]["rotate"]["enum"][1], 180);
}

#[test]
fn find_looks_up_by_name() {
    let reg = ToolRegistry::with_default_tools();
    assert_eq!(reg.find("zip_extract"), Ok(ToolKind::ZipExtract));
    assert_eq!(reg.find("update_profile").unwrap_err(), "알 수 없는 도구: update_profile");
    assert_eq!(ToolKind::SetWorkspace.name(), "set_workspace");
    assert!(ToolKind::RemoveBackground.description().contains("누끼"));
}
