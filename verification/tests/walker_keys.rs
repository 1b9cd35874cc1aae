use gitless_sync::paths::{relative_path, sorted_union};

#[test]
fn relative_path_normalizes_nfd_to_nfc() {
    let key = relative_path("/root", "/root/\u{1100}\u{1161}.txt").unwrap();
    assert_eq!(key, "가.txt");
    assert_eq!(key, "\u{AC00}.txt");
}

#[test]
fn relative_path_nfc_input_is_preserved() {
    let key = relative_path("/root", "/root/가.txt").unwrap();
    assert_eq!(key, "가.txt");
}

#[test]
fn relative_path_uses_forward_slashes_and_rejects_outside_paths() {
    assert_eq!(relative_path("/root", "/root/a\\b.md").unwrap(), "a/b.md");
    assert_eq!(relative_path("/root/", "/root/x/y.md").unwrap(), "x/y.md");
    assert!(relative_path("/root", "/rootx/y.md").is_none());
    assert!(relative_path("/root", "/other/y.md").is_none());
}

#[test]
fn sorted_union_merges_both_sides_once_in_byte_order() {
    let local = vec!["b.md".to_string(), "a.md".to_string(), "Z.md".to_string()];
    let remote = vec!["c.md".to_string(), "a.md".to_string()];
    assert_eq!(sorted_union(&local, &remote), vec!["Z.md", "a.md", "b.md", "c.md"]);
}
