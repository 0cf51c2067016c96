use matchmaker::source_tree::{deep_modified_ts, skipped_name, TreeEntry};

fn file(path: &[&str], ts: u128) -> TreeEntry {
    TreeEntry { path: path.iter().map(|p| p.to_string()).collect(), is_file: true, modified_ms: ts }
}

#[test]
fn skipped_names() {
    assert!(skipped_name(".git"));
    assert!(skipped_name("node_modules"));
    assert!(skipped_name("target"));
    assert!(skipped_name("dist"));
    assert!(!skipped_name("src"));
    assert!(!skipped_name(""));
    assert!(!skipped_name("targets"));
}

#[test]
fn newest_source_file_wins() {
    let entries = vec![
        file(&["src", "lib.rs"], 10),
        file(&["target", "debug", "out"], 99),
        file(&["src", ".cache"], 50),
        TreeEntry { path: vec!["src".to_string()], is_file: false, modified_ms: 80 },
        file(&["README.md"], 20),
    ];
    assert_eq!(deep_modified_ts(&entries), 20);
    assert_eq!(deep_modified_ts(&vec![]), 0);
}
