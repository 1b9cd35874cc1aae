use gitless_sync::init::{run, InitArgs};

#[test]
fn emits_repo_only_when_branch_and_ignore_unset() {
    let out = run(&InitArgs { repo: "a/b".to_string(), branch: None, ignore: vec![] });
    assert_eq!(out, "repo = \"a/b\"\n");
}

#[test]
fn emits_repo_and_branch_in_order() {
    let out = run(&InitArgs { repo: "a/b".to_string(), branch: Some("dev".to_string()), ignore: vec![] });
    assert_eq!(out, "repo = \"a/b\"\nbranch = \"dev\"\n");
}

#[test]
fn emits_ignore_with_single_pattern() {
    let out = run(&InitArgs { repo: "a/b".to_string(), branch: None, ignore: vec!["*.tmp".to_string()] });
    assert_eq!(out, "repo = \"a/b\"\nignore = [\"*.tmp\"]\n");
}

#[test]
fn emits_ignore_with_multiple_patterns_comma_space_joined() {
    let out = run(&InitArgs {
        repo: "a/b".to_string(),
        branch: None,
        ignore: vec!["dist/".to_string(), "*.tmp".to_string()],
    });
    assert_eq!(out, "repo = \"a/b\"\nignore = [\"dist/\", \"*.tmp\"]\n");
}

#[test]
fn emits_all_fields_when_present() {
    let out = run(&InitArgs {
        repo: "owner/name".to_string(),
        branch: Some("main".to_string()),
        ignore: vec!["dist/".to_string(), "*.tmp".to_string(), "node_modules/".to_string()],
    });
    assert_eq!(
        out,
        "repo = \"owner/name\"\nbranch = \"main\"\nignore = [\"dist/\", \"*.tmp\", \"node_modules/\"]\n"
    );
}

#[test]
fn emitted_config_parses_back_as_toml() {
    let out = run(&InitArgs {
        repo: "owner/name".to_string(),
        branch: Some("dev".to_string()),
        ignore: vec!["dist/".to_string(), "*.tmp".to_string()],
    });
    let parsed: toml::Table = toml::from_str(&out).expect("emitted toml should parse");
    assert_eq!(parsed["repo"].as_str(), Some("owner/name"));
    assert_eq!(parsed["branch"].as_str(), Some("dev"));
    let ignore: Vec<&str> = parsed["ignore"].as_array().unwrap().iter().map(|v| v.as_str().unwrap()).collect();
    assert_eq!(ignore, vec!["dist/", "*.tmp"]);
}
