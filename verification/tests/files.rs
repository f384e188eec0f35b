//! Which files are read.

use zhtw_mcp::files::{
    diff_range, is_excluded, is_supported, resolve_diff_files, resolve_file_args, walk_entry,
    DiffOutput, EntryKind, FoundPath, WalkStep,
};

fn strings(list: &[&str]) -> Vec<String> {
    list.iter().map(|s| s.to_string()).collect()
}

#[test]
fn patterns_exclude_by_extension_directory_and_component() {
    let excluded = |path: &str, pat: &str| is_excluded(path, &strings(&[pat]));
    assert!(excluded("/a/b.tmp", "*.tmp"));
    assert!(!excluded("/a/b.tmp.md", "*.tmp"));
    assert!(excluded("/path/to/vendor/file.md", "vendor/**"));
    assert!(!excluded("/path/to/some_vendor/file.md", "vendor/**"));
    assert!(excluded("/path/to/vendor", "vendor/**"));
    assert!(excluded("vendor/file.md", "vendor/**"));
    assert!(excluded("vendor/a/file.md", "vendor/**"));
    assert!(!excluded("vendor", "vendor/**"));
    assert!(!excluded("/a/b.md", "/**"));
    assert!(!excluded("vendor2/file.md", "vendor/**"));
    assert!(excluded("docs", "docs"));
    assert!(!excluded("docs.md", "docs"));
    assert!(excluded("/a/docs/x.md", "docs"));
    assert!(excluded("/a/docs", "docs"));
    assert!(excluded("docs/x.md", "docs"));
    assert!(!excluded("/a/mydocs/x.md", "docs"));
    assert!(excluded("/a/b/c/x.md", "b/c"));
    assert!(!is_excluded("/a", &vec![]));
    assert!(is_excluded("/a/x.bak", &strings(&["*.tmp", "*.bak"])));
}

#[test]
fn supported_extensions_are_found_in_any_case() {
    for name in ["a.md", "a.MARKDOWN", "x.y.yml", "b.Yaml", "c.txt", "/d.e/f.md"] {
        assert!(is_supported(name), "{name}");
    }
    for name in ["md", "a.rs", "a.md.bak", "", "a."] {
        assert!(!is_supported(name), "{name}");
    }
}

#[test]
fn the_walk_skips_links_and_hidden_entries() {
    assert_eq!(walk_entry("a.md", EntryKind::File), WalkStep::Take);
    assert_eq!(walk_entry("a.rs", EntryKind::File), WalkStep::Skip);
    assert_eq!(walk_entry("a.md", EntryKind::Symlink), WalkStep::Skip);
    assert_eq!(walk_entry(".a.md", EntryKind::File), WalkStep::Skip);
    assert_eq!(walk_entry(".git", EntryKind::Directory), WalkStep::Skip);
    assert_eq!(walk_entry("docs", EntryKind::Directory), WalkStep::Descend);
    assert_eq!(walk_entry("a.md", EntryKind::Other), WalkStep::Skip);
}

#[test]
fn paths_are_resolved_in_order_and_once() {
    let found = vec![
        FoundPath::File("/z.md".into()),
        FoundPath::File("/a.md".into()),
        FoundPath::Stdin,
        FoundPath::File("/z.md".into()),
        FoundPath::File("/v/x.md".into()),
        FoundPath::Other,
        FoundPath::Stdin,
    ];
    assert_eq!(
        resolve_file_args(&found, &strings(&["v"])).unwrap(),
        ["--", "/a.md", "/z.md"]
    );
    // The order is that of the standard library's ordered set.
    let names = ["/é", "/e", "/軟", "/", "/e/f", "/E"];
    let found: Vec<FoundPath> = names.iter().map(|s| FoundPath::File(s.to_string())).collect();
    let sorted: std::collections::BTreeSet<String> = names.iter().map(|s| s.to_string()).collect();
    assert_eq!(
        resolve_file_args(&found, &vec![]).unwrap(),
        sorted.into_iter().collect::<Vec<String>>()
    );
}

#[test]
fn missing_and_empty_arguments_are_errors() {
    let found = vec![
        FoundPath::File("/a.md".into()),
        FoundPath::Missing("b.md".into()),
        FoundPath::Missing("c.md".into()),
    ];
    assert_eq!(
        resolve_file_args(&found, &vec![]).unwrap_err().message,
        "path does not exist: b.md"
    );
    for found in [vec![], vec![FoundPath::Other], vec![FoundPath::File("/a.tmp".into())]] {
        assert_eq!(
            resolve_file_args(&found, &strings(&["*.tmp"])).unwrap_err().message,
            "no supported files found in the given paths"
        );
    }
}

#[test]
fn git_references_are_checked() {
    assert_eq!(diff_range("origin/main").unwrap(), "origin/main...HEAD");
    assert_eq!(diff_range("HEAD~2^@{1}").unwrap(), "HEAD~2^@{1}...HEAD");
    assert_eq!(diff_range("").unwrap(), "...HEAD");
    assert_eq!(
        diff_range("--output=x").unwrap_err().message,
        "--diff-from ref must not start with '-'"
    );
    for bad in ["a b", "a;b", "軟", "a:b", "a*"] {
        assert_eq!(
            diff_range(bad).unwrap_err().message,
            "--diff-from ref contains invalid characters"
        );
    }
}

#[test]
fn changed_files_are_filtered_by_extension() {
    let names = "a.md\r\n\nsrc/b.rs\nc.TXT\nd.yaml";
    assert_eq!(
        resolve_diff_files(&DiffOutput::Names(names.into())).unwrap(),
        ["a.md", "c.TXT", "d.yaml"]
    );
    assert!(resolve_diff_files(&DiffOutput::Names(String::new())).unwrap().is_empty());
    assert_eq!(
        resolve_diff_files(&DiffOutput::Failed("bad revision".into())).unwrap_err().message,
        "git diff failed: bad revision"
    );
}
