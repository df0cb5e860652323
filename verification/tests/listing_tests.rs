use pty_sessions::fsdir::{get_file_name, organize_entries, FileEntry};

fn entry(name: &str, is_dir: bool) -> FileEntry {
    FileEntry::from_parts(name.to_string(), format!("/base/{}", name), is_dir)
}

fn names(v: &[FileEntry]) -> Vec<String> {
    v.iter().map(|e| e.name.clone()).collect()
}

#[test]
fn listing_drops_noise_entries() {
    let raw = vec![
        entry("node_modules", true),
        entry(".git", true),
        entry("target", true),
        entry(".DS_Store", false),
        entry("src", true),
    ];
    let out = organize_entries(raw);
    assert_eq!(names(&out), vec!["src".to_string()]);
}

#[test]
fn listing_sorts_directories_first_then_case_insensitively() {
    let raw = vec![
        entry("zeta", false),
        entry("Alpha", false),
        entry("beta", true),
        entry(".hidden", false),
        entry("Gamma", true),
    ];
    let out = organize_entries(raw);
    assert_eq!(
        names(&out),
        vec![
            "beta".to_string(),
            "Gamma".to_string(),
            ".hidden".to_string(),
            "Alpha".to_string(),
            "zeta".to_string(),
        ]
    );
}

#[test]
fn listing_orders_mixed_case_names_together() {
    let raw = vec![entry("b", false), entry("A", false), entry("C", false)];
    let out = organize_entries(raw);
    assert_eq!(
        names(&out),
        vec!["A".to_string(), "b".to_string(), "C".to_string()]
    );
}

#[test]
fn hidden_flag_follows_leading_dot() {
    assert!(entry(".profile", false).is_hidden);
    assert!(!entry("profile", false).is_hidden);
}

#[test]
fn file_name_of_nested_path() {
    assert_eq!(get_file_name(&"/a/b/c.txt".to_string()), "c.txt");
}

#[test]
fn file_name_of_bare_name() {
    assert_eq!(get_file_name(&"notes".to_string()), "notes");
}

#[test]
fn file_name_ignores_trailing_separator() {
    assert_eq!(get_file_name(&"/a/b/".to_string()), "b");
}

#[test]
fn file_name_ignores_trailing_dot_component() {
    assert_eq!(get_file_name(&"foo.txt/.".to_string()), "foo.txt");
    assert_eq!(get_file_name(&"a/./".to_string()), "a");
}

#[test]
fn file_name_falls_back_on_parent_component() {
    assert_eq!(get_file_name(&"a/..".to_string()), "a/..");
    assert_eq!(get_file_name(&"..".to_string()), "..");
}

#[test]
fn file_name_falls_back_on_root_and_empty() {
    assert_eq!(get_file_name(&"/".to_string()), "/");
    assert_eq!(get_file_name(&"".to_string()), "");
    assert_eq!(get_file_name(&".".to_string()), ".");
}

#[test]
fn file_name_keeps_dotted_names() {
    assert_eq!(get_file_name(&"/etc/.profile".to_string()), ".profile");
    assert_eq!(get_file_name(&"...".to_string()), "...");
}
