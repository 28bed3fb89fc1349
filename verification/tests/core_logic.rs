use compile_commands::arguments::assemble_arguments;
use compile_commands::entries::build_entry;
use compile_commands::entries::entries_for_folder;
use compile_commands::paths::is_cpp_path;
use compile_commands::paths::join_pattern;
use compile_commands::paths::make_include_arg;
use compile_commands::resolve::merge_filtered;
use compile_commands::resolve::merge_lists;
use compile_commands::resolve::merge_unique;
use compile_commands::settings::FolderSettings;
use compile_commands::settings::WorkspaceSettings;

fn strings(items: &[&str]) -> Vec<String> {
    items.iter().map(|s| s.to_string()).collect()
}

fn workspace() -> WorkspaceSettings {
    WorkspaceSettings {
        c_compiler_path: "/usr/bin/cc".to_string(),
        cpp_compiler_path: "/usr/bin/c++".to_string(),
        root_folder_path: "./proj".to_string(),
        src_pattern: strings(&["*.c"]),
        exclude_pattern: vec![],
        include_folders: strings(&["ws_inc"]),
        compile_flags: strings(&["-Wall"]),
    }
}

fn folder() -> FolderSettings {
    FolderSettings {
        folder_path: "lib".to_string(),
        src_pattern: strings(&["*.cpp"]),
        exclude_pattern: strings(&["skip.c"]),
        include_folders: strings(&["f_inc"]),
        compile_flags: strings(&["-O2"]),
    }
}

#[test]
fn join_pattern_uses_single_separators() {
    assert_eq!(join_pattern("./proj", "lib", "*.c"), "./proj/lib/*.c");
    assert_eq!(join_pattern("", "", "*.c"), "//*.c");
}

#[test]
fn include_arg_is_prefixed_token() {
    assert_eq!(make_include_arg("dir/x"), "-includedir/x");
    assert_eq!(make_include_arg(""), "-include");
}

#[test]
fn cpp_selection_matches_suffix_only() {
    assert!(is_cpp_path("a.cpp"));
    assert!(is_cpp_path("a.cxx"));
    assert!(is_cpp_path("a.cc"));
    assert!(is_cpp_path("dir/with.dots/a.cc"));
    assert!(!is_cpp_path("a.c"));
    assert!(!is_cpp_path("a.h"));
    assert!(!is_cpp_path(""));
    // a path merely containing `.cpp` is not a C++ file
    assert!(!is_cpp_path("foo.cpparser.c"));
    assert!(!is_cpp_path("x.cc.orig"));
}

#[test]
fn merge_lists_keeps_workspace_entries_first() {
    let first = strings(&["a", "b"]);
    let second = strings(&["c", "a"]);
    assert_eq!(merge_lists(&first, &second), strings(&["a", "b", "c", "a"]));
}

#[test]
fn merge_unique_drops_later_duplicates() {
    let lists = vec![strings(&["a", "b", "a"]), strings(&["b", "c"])];
    assert_eq!(merge_unique(&lists), strings(&["a", "b", "c"]));
}

#[test]
fn merge_filtered_removes_excluded_and_duplicate_paths() {
    let lists = vec![strings(&["a", "skip", "a"]), strings(&["b", "skip"])];
    let excl = strings(&["skip"]);
    assert_eq!(merge_filtered(&lists, &excl), strings(&["a", "b"]));
}

#[test]
fn excludes_win_over_every_matching_source_pattern() {
    // the same path matched by two source patterns and one exclude pattern
    let lists = vec![strings(&["both.c"]), strings(&["both.c", "keep.c"])];
    let excl = strings(&["both.c"]);
    assert_eq!(merge_filtered(&lists, &excl), strings(&["keep.c"]));
}

#[test]
fn argument_vector_layout_is_exact() {
    let ws = workspace();
    let f = folder();
    let args = assemble_arguments(&ws, &f);
    assert_eq!(args, strings(&["-includews_inc", "-includef_inc", "-Wall", "-O2"]));
}

#[test]
fn entry_prepends_cpp_compiler_for_cpp_files() {
    let ws = workspace();
    let f = folder();
    let args = assemble_arguments(&ws, &f);
    let entry = build_entry(&ws, &f, &args, "./proj/lib/a.cpp".to_string());
    assert_eq!(entry.directory, "./proj");
    assert_eq!(entry.file, "./proj/lib/a.cpp");
    assert_eq!(
        entry.arguments,
        strings(&["/usr/bin/c++", "-includews_inc", "-includef_inc", "-Wall", "-O2"])
    );
}

#[test]
fn entry_prepends_c_compiler_for_other_files() {
    let ws = workspace();
    let f = folder();
    let args = assemble_arguments(&ws, &f);
    let entry = build_entry(&ws, &f, &args, "./proj/lib/a.c".to_string());
    assert_eq!(
        entry.arguments,
        strings(&["/usr/bin/cc", "-includews_inc", "-includef_inc", "-Wall", "-O2"])
    );
}

#[test]
fn entries_share_the_folder_vector_without_mutating_it() {
    let ws = workspace();
    let f = folder();
    let args = assemble_arguments(&ws, &f);
    let files = strings(&["a.cpp", "b.c", "c.cc"]);
    let entries = entries_for_folder(&ws, &f, &args, &files);
    assert_eq!(entries.len(), 3);
    // compiler selection per file, same tail everywhere
    assert_eq!(entries[0].arguments[0], "/usr/bin/c++");
    assert_eq!(entries[1].arguments[0], "/usr/bin/cc");
    assert_eq!(entries[2].arguments[0], "/usr/bin/c++");
    for e in &entries {
        assert_eq!(&e.arguments[1..], &["-includews_inc", "-includef_inc", "-Wall", "-O2"]);
        assert_eq!(e.directory, "./proj");
    }
    // the shared vector is unchanged after all entries were built
    assert_eq!(args, strings(&["-includews_inc", "-includef_inc", "-Wall", "-O2"]));
    // entries keep file-discovery order
    assert_eq!(entries[0].file, "a.cpp");
    assert_eq!(entries[1].file, "b.c");
    assert_eq!(entries[2].file, "c.cc");
}

#[test]
fn describe_renders_the_settings_dump() {
    let ws = WorkspaceSettings {
        c_compiler_path: "cc".to_string(),
        cpp_compiler_path: "cxx".to_string(),
        root_folder_path: "root".to_string(),
        src_pattern: strings(&["*.c"]),
        exclude_pattern: vec![],
        include_folders: strings(&["i1", "i2"]),
        compile_flags: strings(&["-g"]),
    };
    let expected = "================workspace settings===================\n\
                    c_compiler_path : cc\n\
                    cpp_compiler_path : cxx\n\
                    root_folder : root\n\
                    src_pattern:\n  *.c\n\
                    exclude_pattern:\n\
                    include_folders:\n  i1\n  i2\n\
                    compile_flags:\n  -g\n";
    assert_eq!(ws.describe(), expected);
}

#[test]
fn describe_renders_the_folder_dump() {
    let f = FolderSettings {
        folder_path: "lib".to_string(),
        src_pattern: vec![],
        exclude_pattern: strings(&["skip.c"]),
        include_folders: vec![],
        compile_flags: vec![],
    };
    let expected = "================folder settings===================\n\
                    folder_path : lib\n\
                    src_pattern:\n\
                    exclude_pattern:\n  skip.c\n\
                    include_folders:\n\
                    compile_flags:\n";
    assert_eq!(f.describe(), expected);
}

#[test]
fn empty_settings_are_all_empty() {
    let ws = WorkspaceSettings::empty();
    assert_eq!(ws.c_compiler_path, "");
    assert_eq!(ws.root_folder_path, "");
    assert!(ws.src_pattern.is_empty());
    let f = FolderSettings::empty();
    assert_eq!(f.folder_path, "");
    assert!(f.compile_flags.is_empty());
    let dw = WorkspaceSettings::default();
    assert_eq!(dw.cpp_compiler_path, "");
    assert!(dw.exclude_pattern.is_empty());
    let df = FolderSettings::default();
    assert_eq!(df.folder_path, "");
    assert!(df.src_pattern.is_empty());
}
