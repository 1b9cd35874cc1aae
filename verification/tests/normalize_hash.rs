use gitless_sync::gitattributes::AttributeMatch;
use gitless_sync::normalize::{blob_hash, is_binary, normalize_text, prepare_for_hash};

#[test]
fn blob_hash_matches_git_hash_object() {
    assert_eq!(blob_hash(b"hello\n"), "ce013625030ba8dba906f756967f9e9ca394464a");
    assert_eq!(blob_hash(b""), "e69de29bb2d1d6434b8b29ae775ad8c2e48c5391");
}

#[test]
fn normalize_strips_bom_and_crlf_unless_kept() {
    assert_eq!(normalize_text(b"\xEF\xBB\xBFa\r\nb\r\n", false), b"a\nb\n");
    assert_eq!(normalize_text(b"\xEF\xBB\xBFa\r\n", true), b"\xEF\xBB\xBFa\n");
    assert_eq!(normalize_text(b"a\rb", false), b"a\rb");
}

#[test]
fn binary_probe_looks_for_nul() {
    assert!(is_binary(&[1, 0, 2]));
    assert!(!is_binary(b"text"));
}

#[test]
fn prepare_for_hash_keeps_binary_and_marked_bytes() {
    assert_eq!(prepare_for_hash(b"a\r\n", false, &AttributeMatch::Default), (b"a\n".to_vec(), false));
    assert_eq!(prepare_for_hash(b"a\r\n", false, &AttributeMatch::Binary), (b"a\r\n".to_vec(), false));
    assert_eq!(prepare_for_hash(&[0, 13, 10], false, &AttributeMatch::Text), (vec![0, 13, 10], true));
}

#[test]
fn crlf_variant_of_lf_text_normalizes_to_it() {
    let lf = b"one\ntwo\n\nthree".to_vec();
    let crlf = b"one\r\ntwo\r\n\r\nthree".to_vec();
    assert_eq!(normalize_text(&crlf, false), lf);
    assert_eq!(normalize_text(&lf, false), lf);
    assert_eq!(blob_hash(&normalize_text(&crlf, false)), blob_hash(&lf));
}
