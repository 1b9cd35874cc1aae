use gitless_sync::gitattributes::{classify_attributes, classify_path, parse_gitattributes, AttributeMatch};
use gitless_sync::lfs::{is_lfs, placeholder_pointer_for};
use gitless_sync::compare::FailedReason;

fn strings(v: &[&str]) -> Vec<String> {
    v.iter().map(|s| s.to_string()).collect()
}

#[test]
fn returns_false_when_no_gitattributes_present() {
    let rules = parse_gitattributes("");
    assert!(rules.is_empty());
    assert!(!is_lfs(&classify_path(&rules, "vendor/lib.zip")));
}

#[test]
fn matches_canonical_git_lfs_marker_line() {
    let rules = parse_gitattributes("*.psd filter=lfs diff=lfs merge=lfs -text\n");
    assert!(is_lfs(&classify_path(&rules, "art/cover.psd")));
    assert_eq!(classify_path(&rules, "art/cover.png"), AttributeMatch::Default);
}

#[test]
fn parse_skips_comments_and_blank_lines() {
    let rules = parse_gitattributes("# comment\n\n  *.txt\ttext eol=lf  \r\n*.bin binary");
    assert_eq!(rules.len(), 2);
    assert_eq!(rules[0].pattern, "*.txt");
    assert_eq!(rules[0].attributes, strings(&["text", "eol=lf"]));
    assert_eq!(rules[1].pattern, "*.bin");
    assert_eq!(rules[1].attributes, strings(&["binary"]));
}

#[test]
fn attribute_classes_follow_priority() {
    assert_eq!(classify_attributes(&strings(&["-text", "filter=lfs"])), AttributeMatch::LfsPointer);
    assert_eq!(classify_attributes(&strings(&["binary", "working-tree-encoding=UTF-16"])), AttributeMatch::Binary);
    assert_eq!(
        classify_attributes(&strings(&["text", "working-tree-encoding=UTF-16", "filter=git-crypt"])),
        AttributeMatch::Unsupported { attribute: "working-tree-encoding=UTF-16".to_string() }
    );
    assert_eq!(classify_attributes(&strings(&["eol=crlf"])), AttributeMatch::Text);
    assert_eq!(classify_attributes(&strings(&[])), AttributeMatch::Default);
}

#[test]
fn unsupported_attribute_line_is_reported() {
    let rules = parse_gitattributes("*.txt working-tree-encoding=UTF-16\n");
    assert_eq!(
        classify_path(&rules, "notes.txt"),
        AttributeMatch::Unsupported { attribute: "working-tree-encoding=UTF-16".to_string() }
    );
}

#[test]
fn lfs_placeholder_only_for_lfs_reason() {
    let p = placeholder_pointer_for(Some(FailedReason::LfsPointer)).unwrap();
    assert_eq!(p.oid, "?");
    assert_eq!(p.size, 0);
    assert!(placeholder_pointer_for(Some(FailedReason::Symlink)).is_none());
    assert!(placeholder_pointer_for(None).is_none());
}
