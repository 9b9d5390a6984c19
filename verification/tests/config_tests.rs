use worktree::config::{content_is_blank, CopyPatterns, WorktreeConfig};

fn strings(items: &[&str]) -> Vec<String> {
    items.iter().map(|s| s.to_string()).collect()
}

fn parsed(includes: Option<&[&str]>, exclude: Option<&[&str]>) -> WorktreeConfig {
    WorktreeConfig {
        copy_patterns: CopyPatterns {
            includes: includes.map(strings),
            exclude: exclude.map(strings),
        },
    }
}

#[test]
fn test_no_config_file_uses_defaults() {
    let config = WorktreeConfig::effective(None);

    let includes = config.copy_patterns.includes.as_ref().unwrap();
    assert!(includes.contains(&".env*".to_string()));
    assert!(includes.contains(&".vscode/".to_string()));
    assert!(includes.contains(&"*.local.json".to_string()));
    assert!(includes.contains(&"config/local/*".to_string()));

    let excludes = config.copy_patterns.exclude.as_ref().unwrap();
    assert!(excludes.contains(&"node_modules/".to_string()));
    assert!(excludes.contains(&"target/".to_string()));
    assert!(excludes.contains(&".git/".to_string()));
    assert!(excludes.contains(&"*.log".to_string()));
    assert!(excludes.contains(&"*.tmp".to_string()));
}

#[test]
fn test_complete_config_works_legacy() {
    let config = WorktreeConfig::effective(Some(parsed(
        Some(&["custom.conf", "*.env"]),
        Some(&["*.secret", "temp/"]),
    )));

    let includes = config.copy_patterns.includes.as_ref().unwrap();
    assert!(includes.contains(&"custom.conf".to_string()));
    assert!(includes.contains(&"*.env".to_string()));
    assert!(includes.contains(&".env*".to_string()));
    assert!(includes.contains(&".vscode/".to_string()));
    assert!(includes.contains(&"*.local.json".to_string()));
    assert!(includes.contains(&"config/local/*".to_string()));

    let excludes = config.copy_patterns.exclude.as_ref().unwrap();
    assert!(excludes.contains(&"*.secret".to_string()));
    assert!(excludes.contains(&"temp/".to_string()));
    assert!(excludes.contains(&"node_modules/".to_string()));
    assert!(excludes.contains(&"target/".to_string()));
}

#[test]
fn test_blank_config_file_uses_defaults() {
    assert!(content_is_blank(""));
    let config = WorktreeConfig::effective(None);

    let includes = config.copy_patterns.includes.as_ref().unwrap();
    assert!(includes.contains(&".env*".to_string()));
    assert!(includes.contains(&".vscode/".to_string()));
    assert!(includes.contains(&"*.local.json".to_string()));
    assert!(includes.contains(&"config/local/*".to_string()));

    let excludes = config.copy_patterns.exclude.as_ref().unwrap();
    assert!(excludes.contains(&"node_modules/".to_string()));
    assert!(excludes.contains(&"target/".to_string()));
    assert!(excludes.contains(&".git/".to_string()));
    assert!(excludes.contains(&"*.log".to_string()));
    assert!(excludes.contains(&"*.tmp".to_string()));
}

#[test]
fn test_config_with_only_include_merges_defaults() {
    let config =
        WorktreeConfig::effective(Some(parsed(Some(&["mise.toml", "docker-compose.yml"]), None)));

    let includes = config.copy_patterns.includes.as_ref().unwrap();
    assert!(includes.contains(&"mise.toml".to_string()));
    assert!(includes.contains(&"docker-compose.yml".to_string()));
    assert!(includes.contains(&".env*".to_string()));
    assert!(includes.contains(&".vscode/".to_string()));
    assert!(includes.contains(&"*.local.json".to_string()));
    assert!(includes.contains(&"config/local/*".to_string()));

    let excludes = config.copy_patterns.exclude.as_ref().unwrap();
    assert!(excludes.contains(&"node_modules/".to_string()));
    assert!(excludes.contains(&"target/".to_string()));
    assert!(excludes.contains(&".git/".to_string()));
    assert!(excludes.contains(&"*.log".to_string()));
    assert!(excludes.contains(&"*.tmp".to_string()));
}

#[test]
fn test_config_with_only_exclude_merges_defaults() {
    let config = WorktreeConfig::effective(Some(parsed(None, Some(&["*.secret", "private/"]))));

    let includes = config.copy_patterns.includes.as_ref().unwrap();
    assert!(includes.contains(&".env*".to_string()));
    assert!(includes.contains(&".vscode/".to_string()));
    assert!(includes.contains(&"*.local.json".to_string()));
    assert!(includes.contains(&"config/local/*".to_string()));

    let excludes = config.copy_patterns.exclude.as_ref().unwrap();
    assert!(excludes.contains(&"*.secret".to_string()));
    assert!(excludes.contains(&"private/".to_string()));
    assert!(excludes.contains(&"node_modules/".to_string()));
    assert!(excludes.contains(&"target/".to_string()));
    assert!(excludes.contains(&".git/".to_string()));
    assert!(excludes.contains(&"*.log".to_string()));
    assert!(excludes.contains(&"*.tmp".to_string()));
}

#[test]
fn test_user_exclude_overrides_default_include() {
    let config = WorktreeConfig::effective(Some(parsed(None, Some(&[".vscode/"]))));

    let includes = config.copy_patterns.includes.as_ref().unwrap();
    assert!(includes.contains(&".env*".to_string()));
    assert!(includes.contains(&".vscode/".to_string()));
    assert!(includes.contains(&"*.local.json".to_string()));
    assert!(includes.contains(&"config/local/*".to_string()));

    let excludes = config.copy_patterns.exclude.as_ref().unwrap();
    assert!(excludes.contains(&".vscode/".to_string()));
    assert!(excludes.contains(&"node_modules/".to_string()));
    assert!(excludes.contains(&"target/".to_string()));
}

#[test]
fn test_empty_include_exclude_arrays() {
    let config = WorktreeConfig::effective(Some(parsed(Some(&[]), Some(&[]))));

    let includes = config.copy_patterns.includes.as_ref().unwrap();
    assert!(includes.contains(&".env*".to_string()));
    assert!(includes.contains(&".vscode/".to_string()));

    let excludes = config.copy_patterns.exclude.as_ref().unwrap();
    assert!(excludes.contains(&"node_modules/".to_string()));
    assert!(excludes.contains(&"target/".to_string()));
}

#[test]
fn test_duplicate_patterns_in_user_config() {
    let config = WorktreeConfig::effective(Some(parsed(
        Some(&["mise.toml", "mise.toml", "docker-compose.yml"]),
        None,
    )));

    let includes = config.copy_patterns.includes.as_ref().unwrap();
    assert!(includes.contains(&"mise.toml".to_string()));
    assert!(includes.contains(&"docker-compose.yml".to_string()));

    let mise_count = includes.iter().filter(|&p| p == "mise.toml").count();
    assert_eq!(mise_count, 1);
}

#[test]
fn test_user_include_overrides_default_exclude() {
    let config = WorktreeConfig::effective(Some(parsed(Some(&["node_modules/.cache"]), None)));

    let includes = config.copy_patterns.includes.as_ref().unwrap();
    assert!(includes.contains(&"node_modules/.cache".to_string()));
    assert!(includes.contains(&".env*".to_string()));
    assert!(includes.contains(&".vscode/".to_string()));

    let excludes = config.copy_patterns.exclude.as_ref().unwrap();
    assert!(excludes.contains(&"node_modules/".to_string()));
    assert!(excludes.contains(&"target/".to_string()));
}

#[test]
fn test_precedence_based_merging() {
    let config =
        WorktreeConfig::effective(Some(parsed(Some(&["custom.conf"]), Some(&["*.secret"]))));

    let includes = config.copy_patterns.includes.as_ref().unwrap();
    assert!(includes.contains(&"custom.conf".to_string()));
    assert!(includes.contains(&".env*".to_string()));
    assert!(includes.contains(&".vscode/".to_string()));

    let excludes = config.copy_patterns.exclude.as_ref().unwrap();
    assert!(excludes.contains(&"*.secret".to_string()));
    assert!(excludes.contains(&"node_modules/".to_string()));
    assert!(excludes.contains(&"target/".to_string()));
}

#[test]
fn defaults_are_the_built_in_lists_in_order() {
    assert_eq!(
        WorktreeConfig::default_include_patterns(),
        strings(&[".env*", ".vscode/", "*.local.json", "config/local/*"])
    );
    assert_eq!(
        WorktreeConfig::default_exclude_patterns(),
        strings(&["node_modules/", "target/", ".git/", "*.log", "*.tmp"])
    );
    let config = WorktreeConfig::default();
    assert_eq!(config.copy_patterns.includes, Some(WorktreeConfig::default_include_patterns()));
    assert_eq!(config.copy_patterns.exclude, Some(WorktreeConfig::default_exclude_patterns()));
    assert_eq!(CopyPatterns::default(), CopyPatterns { includes: None, exclude: None });
}

#[test]
fn merge_appends_user_patterns_after_the_defaults() {
    let merged = parsed(Some(&["b", ".env*", "a", "b"]), Some(&["*.tmp", "x"])).merged_with_defaults();
    assert_eq!(
        merged.copy_patterns.includes,
        Some(strings(&[".env*", ".vscode/", "*.local.json", "config/local/*", "b", "a"]))
    );
    assert_eq!(
        merged.copy_patterns.exclude,
        Some(strings(&["node_modules/", "target/", ".git/", "*.log", "*.tmp", "x"]))
    );
}

#[test]
fn a_pattern_the_user_includes_stays_excluded_where_it_is_a_default_exclude() {
    let merged = parsed(Some(&["target/"]), Some(&[])).merged_with_defaults();
    let includes = merged.copy_patterns.includes.unwrap();
    let excludes = merged.copy_patterns.exclude.unwrap();
    assert_eq!(includes.last(), Some(&"target/".to_string()));
    assert_eq!(includes.len(), 5);
    assert!(excludes.contains(&"target/".to_string()));
    assert_eq!(excludes.len(), 5);
}

#[test]
fn blank_content_is_white_space_only() {
    assert!(content_is_blank(""));
    assert!(content_is_blank(" \t\r\n"));
    assert!(content_is_blank("\u{a0}\u{2003}\u{3000}"));
    assert!(!content_is_blank(" x "));
    assert!(!content_is_blank("\u{200b}"));
    assert!(!content_is_blank("[copy-patterns]"));
}

#[test]
fn merging_keeps_a_pattern_in_both_lists() {
    let mut included = strings(&["A"]);
    let mut excluded = strings(&["B"]);
    worktree::config::merge_patterns(&mut included, &strings(&["B"]));
    worktree::config::merge_patterns(&mut excluded, &strings(&[]));
    assert_eq!(included, strings(&["A", "B"]));
    assert_eq!(excluded, strings(&["B"]));
}
