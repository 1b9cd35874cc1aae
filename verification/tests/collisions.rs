use gitless_sync::collisions::{case_collisions, nfd_collisions};
use gitless_sync::paths::sorted_union;

fn keys(v: &[&str]) -> Vec<String> {
    v.iter().map(|s| s.to_string()).collect()
}

#[test]
fn empty_input_yields_no_collisions() {
    assert!(nfd_collisions(&keys(&[])).is_empty());
}

#[test]
fn single_entry_per_key_yields_no_collisions() {
    assert!(nfd_collisions(&keys(&["a.txt", "sub/b.md"])).is_empty());
}

#[test]
fn duplicate_nfc_key_is_flagged() {
    let c = nfd_collisions(&keys(&["가.txt", "가.txt"]));
    assert_eq!(c.len(), 1);
    assert!(c.contains(&"가.txt".to_string()));
}

#[test]
fn three_copies_of_same_key_flag_once() {
    let c = nfd_collisions(&keys(&["dup.md", "dup.md", "dup.md"]));
    assert_eq!(c.len(), 1);
    assert!(c.contains(&"dup.md".to_string()));
}

#[test]
fn distinct_keys_with_one_collision_pair_only_flag_dup_key() {
    let c = nfd_collisions(&keys(&["alpha.md", "dup.md", "dup.md", "beta.md"]));
    assert_eq!(c.len(), 1);
    assert!(c.contains(&"dup.md".to_string()));
    assert!(!c.contains(&"alpha.md".to_string()));
    assert!(!c.contains(&"beta.md".to_string()));
}

fn run(locals: &[&str], remotes: &[&str]) -> Vec<String> {
    let l = keys(locals);
    let r = keys(remotes);
    let all = sorted_union(&l, &r);
    case_collisions(&all, &l, &r)
}

#[test]
fn canonical_case_insensitive_volume_flags_remote_only_variant() {
    let c = run(&["foo.txt"], &["Foo.txt", "foo.txt"]);
    assert_eq!(c.len(), 1);
    assert!(c.contains(&"Foo.txt".to_string()));
    assert!(!c.contains(&"foo.txt".to_string()));
}

#[test]
fn local_has_both_cases_remote_has_one_flags_unmatched_local() {
    let c = run(&["Foo.txt", "foo.txt"], &["Foo.txt"]);
    assert_eq!(c.len(), 1);
    assert!(c.contains(&"foo.txt".to_string()));
    assert!(!c.contains(&"Foo.txt".to_string()));
}

#[test]
fn diagonal_case_mismatch_flags_both_paths() {
    let c = run(&["foo.txt"], &["Foo.txt"]);
    assert_eq!(c.len(), 2);
    assert!(c.contains(&"foo.txt".to_string()));
    assert!(c.contains(&"Foo.txt".to_string()));
}

#[test]
fn matched_path_with_no_siblings_is_not_flagged() {
    assert!(run(&["foo.txt"], &["foo.txt"]).is_empty());
}

#[test]
fn unique_paths_with_distinct_case_folded_forms_are_not_flagged() {
    assert!(run(&["alpha.md", "Beta.md"], &["gamma.md"]).is_empty());
}

#[test]
fn directory_segment_case_difference_is_flagged() {
    let c = run(&["Docs/note.md"], &["docs/note.md"]);
    assert_eq!(c.len(), 2);
    assert!(c.contains(&"Docs/note.md".to_string()));
    assert!(c.contains(&"docs/note.md".to_string()));
}
