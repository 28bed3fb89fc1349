use compile_commands::config::parse_config;
use compile_commands::config::ConfigError;

#[test]
fn full_configuration_populates_every_field() {
    let text = r#"{
        "c_compiler_path": "/usr/bin/cc",
        "cpp_compiler_path": "/usr/bin/c++",
        "workspace_root_folder": "./proj",
        "workspace_src_pattern": ["*.c", "*.cpp"],
        "workspace_exclude_pattern": ["skip/*"],
        "workspace_include_folders": ["inc"],
        "workspace_compile_flags": ["-Wall", "-g"],
        "folders": [
            {
                "folder": "lib",
                "src_pattern": ["*.cc"],
                "exclude_pattern": ["old.cc"],
                "include_folders": ["lib/inc"],
                "compile_flags": ["-O2"]
            },
            { "folder": "app" }
        ]
    }"#;
    let config = parse_config(text).unwrap_or_else(|_| panic!("expected a valid configuration"));
    assert_eq!(config.workspace.c_compiler_path, "/usr/bin/cc");
    assert_eq!(config.workspace.cpp_compiler_path, "/usr/bin/c++");
    assert_eq!(config.workspace.root_folder_path, "./proj");
    assert_eq!(config.workspace.src_pattern, vec!["*.c", "*.cpp"]);
    assert_eq!(config.workspace.exclude_pattern, vec!["skip/*"]);
    assert_eq!(config.workspace.include_folders, vec!["inc"]);
    assert_eq!(config.workspace.compile_flags, vec!["-Wall", "-g"]);
    assert_eq!(config.folders.len(), 2);
    assert_eq!(config.folders[0].folder_path, "lib");
    assert_eq!(config.folders[0].src_pattern, vec!["*.cc"]);
    assert_eq!(config.folders[0].exclude_pattern, vec!["old.cc"]);
    assert_eq!(config.folders[0].include_folders, vec!["lib/inc"]);
    assert_eq!(config.folders[0].compile_flags, vec!["-O2"]);
    // declaration order is kept
    assert_eq!(config.folders[1].folder_path, "app");
}

#[test]
fn absent_fields_default_to_empty() {
    let text = r#"{ "folders": [ {} ] }"#;
    let config = parse_config(text).unwrap_or_else(|_| panic!("expected a valid configuration"));
    assert_eq!(config.workspace.c_compiler_path, "");
    assert_eq!(config.workspace.cpp_compiler_path, "");
    assert_eq!(config.workspace.root_folder_path, "");
    assert!(config.workspace.src_pattern.is_empty());
    assert!(config.workspace.exclude_pattern.is_empty());
    assert!(config.workspace.include_folders.is_empty());
    assert!(config.workspace.compile_flags.is_empty());
    assert_eq!(config.folders.len(), 1);
    assert_eq!(config.folders[0].folder_path, "");
    assert!(config.folders[0].src_pattern.is_empty());
}

#[test]
fn an_empty_folders_array_is_a_valid_workspace() {
    let config = parse_config(r#"{ "folders": [] }"#)
        .unwrap_or_else(|_| panic!("expected a valid configuration"));
    assert!(config.folders.is_empty());
}

#[test]
fn a_missing_folders_key_is_fatal() {
    assert!(matches!(
        parse_config(r#"{ "c_compiler_path": "cc" }"#),
        Err(ConfigError::MissingFolders)
    ));
}

#[test]
fn a_non_array_folders_value_is_fatal() {
    assert!(matches!(parse_config(r#"{ "folders": "lib" }"#), Err(ConfigError::MissingFolders)));
}

#[test]
fn text_that_is_no_json_is_rejected() {
    assert!(matches!(parse_config("not json at all {"), Err(ConfigError::NotJson)));
    assert!(matches!(parse_config(""), Err(ConfigError::NotJson)));
}

#[test]
fn wrongly_typed_fields_degrade_to_empty() {
    let text = r#"{
        "c_compiler_path": 17,
        "workspace_src_pattern": "not-an-array",
        "workspace_compile_flags": ["-Wall", 5, "-g"],
        "folders": []
    }"#;
    let config = parse_config(text).unwrap_or_else(|_| panic!("expected a valid configuration"));
    assert_eq!(config.workspace.c_compiler_path, "");
    assert!(config.workspace.src_pattern.is_empty());
    // an element that is no string contributes nothing
    assert_eq!(config.workspace.compile_flags, vec!["-Wall", "-g"]);
}
