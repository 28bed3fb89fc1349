//! End-to-end tests that resolve glob patterns against this crate's own
//! source tree, which is the filesystem the test run is guaranteed to see.

use compile_commands::entries::generate_entries;
use compile_commands::entries::CompileEntry;
use compile_commands::resolve::expand_patterns;
use compile_commands::resolve::resolve_folder_sources;
use compile_commands::settings::FolderSettings;
use compile_commands::settings::WorkspaceSettings;

fn strings(items: &[&str]) -> Vec<String> {
    items.iter().map(|s| s.to_string()).collect()
}

fn workspace(src: &[&str], excl: &[&str]) -> WorkspaceSettings {
    WorkspaceSettings {
        c_compiler_path: "cc".to_string(),
        cpp_compiler_path: "c++".to_string(),
        root_folder_path: ".".to_string(),
        src_pattern: strings(src),
        exclude_pattern: strings(excl),
        include_folders: vec![],
        compile_flags: vec![],
    }
}

fn folder(path: &str) -> FolderSettings {
    FolderSettings {
        folder_path: path.to_string(),
        src_pattern: vec![],
        exclude_pattern: vec![],
        include_folders: vec![],
        compile_flags: vec![],
    }
}

fn files_of(entries: &[CompileEntry]) -> Vec<String> {
    entries.iter().map(|e| e.file.clone()).collect()
}

fn position_of(files: &[String], suffix: &str) -> usize {
    files
        .iter()
        .position(|f| f.ends_with(suffix))
        .unwrap_or_else(|| panic!("no file ends with {suffix}"))
}

#[test]
fn resolves_real_files_with_c_compiler_and_root_directory() {
    let ws = workspace(&["*.rs"], &[]);
    let folders = vec![folder("src")];
    let entries = generate_entries(&ws, &folders);
    assert!(!entries.is_empty());
    let files = files_of(&entries);
    position_of(&files, "src/paths.rs");
    position_of(&files, "src/lib.rs");
    for e in &entries {
        assert_eq!(e.directory, ".");
        // .rs files do not end in .cpp/.cxx/.cc, so the C compiler leads
        assert_eq!(e.arguments, vec!["cc".to_string()]);
    }
}

#[test]
fn discovery_order_is_alphabetical_within_a_pattern() {
    let ws = workspace(&["*.rs"], &[]);
    let folders = vec![folder("src")];
    let files = files_of(&generate_entries(&ws, &folders));
    let a = position_of(&files, "arguments.rs");
    let b = position_of(&files, "config.rs");
    let c = position_of(&files, "entries.rs");
    assert!(a < b && b < c);
}

#[test]
fn folder_declaration_order_is_kept_in_the_output() {
    let ws = workspace(&["*.rs"], &[]);
    let folders = vec![folder("src"), folder("tests")];
    let files = files_of(&generate_entries(&ws, &folders));
    let last_src = files
        .iter()
        .enumerate()
        .filter(|(_, f)| f.contains("src/"))
        .map(|(i, _)| i)
        .max()
        .unwrap_or_else(|| panic!("no src entries"));
    let first_tests = files
        .iter()
        .position(|f| f.contains("tests/"))
        .unwrap_or_else(|| panic!("no tests entries"));
    assert!(last_src < first_tests);
}

#[test]
fn a_path_matched_twice_appears_once() {
    let mut ws = workspace(&["*.rs", "paths.rs"], &[]);
    ws.src_pattern.push("*.rs".to_string());
    let folders = vec![folder("src")];
    let files = files_of(&generate_entries(&ws, &folders));
    let hits = files.iter().filter(|f| f.ends_with("paths.rs")).count();
    assert_eq!(hits, 1);
    for i in 0..files.len() {
        for j in 0..i {
            assert_ne!(files[i], files[j]);
        }
    }
}

#[test]
fn an_excluded_file_never_appears() {
    let ws = workspace(&["*.rs"], &["lib.rs"]);
    let folders = vec![folder("src")];
    let files = files_of(&generate_entries(&ws, &folders));
    assert!(!files.is_empty());
    assert!(files.iter().all(|f| !f.ends_with("lib.rs")));
    position_of(&files, "paths.rs");
}

#[test]
fn a_pattern_matching_nothing_contributes_nothing() {
    let ws = workspace(&["*.nosuchsuffix"], &[]);
    let folders = vec![folder("src")];
    assert!(generate_entries(&ws, &folders).is_empty());
}

#[test]
fn a_malformed_pattern_degrades_to_an_empty_expansion() {
    // an unclosed bracket class is not a valid pattern
    let ws = workspace(&["[", "*.rs"], &[]);
    let folders = vec![folder("src")];
    let files = files_of(&generate_entries(&ws, &folders));
    // the malformed pattern is skipped, the valid one still resolves
    position_of(&files, "paths.rs");
}

#[test]
fn malformed_pattern_gets_an_empty_expansion_of_its_own() {
    // an unclosed bracket class is not a valid pattern; resolution of the
    // remaining patterns goes on in order
    let expansions =
        expand_patterns(&".".to_string(), &"src".to_string(), &strings(&["[", "*.rs"]));
    assert_eq!(expansions.len(), 2);
    assert!(expansions[0].is_empty());
    assert!(expansions[1].iter().any(|p| p.ends_with("paths.rs")));
}

#[test]
fn two_runs_over_an_unchanged_tree_give_identical_output() {
    let ws = workspace(&["*.rs"], &["entries.rs"]);
    let folders = vec![folder("src"), folder("tests")];
    let first = generate_entries(&ws, &folders);
    let second = generate_entries(&ws, &folders);
    assert_eq!(first.len(), second.len());
    for (a, b) in first.iter().zip(second.iter()) {
        assert_eq!(a.directory, b.directory);
        assert_eq!(a.file, b.file);
        assert_eq!(a.arguments, b.arguments);
    }
}

#[test]
fn every_resolved_path_still_matches_when_expanded_again() {
    let ws = workspace(&["*.rs"], &["lib.rs"]);
    let f = folder("src");
    let resolved = resolve_folder_sources(&ws, &f);
    assert!(!resolved.0.is_empty());
    let again = expand_patterns(&ws.root_folder_path, &f.folder_path, &ws.src_pattern);
    for path in &resolved.0 {
        assert!(
            again.iter().any(|expansion| expansion.contains(path)),
            "{path} no longer matches its pattern"
        );
    }
}
