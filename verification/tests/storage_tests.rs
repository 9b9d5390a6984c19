use std::path::{Component, Path};

use worktree::paths::{join, path_below, path_components, path_file_name, path_is_absolute};
use worktree::registry::{
    count_key, drop_key, drop_value, format_entry, lookup_in, parse_entry, put_in,
};
use worktree::sanitize::{contains_special_chars, sanitize};
use worktree::storage::files::{RegistryFile, StorageError};
use worktree::storage::repo::RepoRegistry;
use worktree::storage::WorktreeStorage;
use worktree::text::{lines_of, render_lines};

fn strings(items: &[&str]) -> Vec<String> {
    items.iter().map(|s| s.to_string()).collect()
}

#[test]
fn sanitize_replaces_every_unsafe_character() {
    assert_eq!(sanitize("feature/auth"), "feature-auth");
    assert_eq!(sanitize("a/b\\c:d*e?f\"g<h>i|j"), "a-b-c-d-e-f-g-h-i-j");
    assert_eq!(sanitize("plain-name_1.2"), "plain-name_1.2");
    assert_eq!(sanitize(""), "");
    assert_eq!(sanitize("ünï/côdé"), "ünï-côdé");
    assert_eq!(WorktreeStorage::sanitize_branch_name("x//y"), "x--y");
}

#[test]
fn sanitize_is_idempotent() {
    for name in ["feature/auth", "a:b*c", "plain", "", "///", "a-b"] {
        let once = sanitize(name);
        assert_eq!(sanitize(&once), once);
        assert!(!contains_special_chars(&once));
    }
}

#[test]
fn contains_special_chars_finds_each_unsafe_character() {
    for c in ['/', '\\', ':', '*', '?', '"', '<', '>', '|'] {
        assert!(contains_special_chars(&format!("a{}b", c)));
    }
    assert!(!contains_special_chars("feature-auth"));
    assert!(!contains_special_chars(""));
    assert!(!contains_special_chars("a b.c-d_e"));
}

#[test]
fn join_puts_one_separator_between() {
    assert_eq!(join("/root", "demo"), "/root/demo");
    assert_eq!(join("/root/", "demo"), "/root/demo");
    assert_eq!(join("", "demo"), "demo");
    assert_eq!(join("/root", "/abs"), "/abs");
    assert_eq!(join("rel", ""), "rel/");
}

#[test]
fn components_skip_empty_pieces_and_dots() {
    assert_eq!(path_components("/a//b/./c/"), strings(&["a", "b", "c"]));
    assert_eq!(path_components("./a/../b"), strings(&[".", "a", "..", "b"]));
    assert_eq!(path_components("a/./b/."), strings(&["a", "b"]));
    assert_eq!(path_components("/"), Vec::<String>::new());
    assert_eq!(path_components(""), Vec::<String>::new());
    assert_eq!(path_components("single"), strings(&["single"]));
}

#[test]
fn file_name_is_the_last_component() {
    assert_eq!(path_file_name("/home/me/demo"), Some("demo".to_string()));
    assert_eq!(path_file_name("/home/me/demo/"), Some("demo".to_string()));
    assert_eq!(path_file_name("/home/me/demo/."), Some("demo".to_string()));
    assert_eq!(path_file_name("/home/me/.."), None);
    assert_eq!(path_file_name("/"), None);
    assert_eq!(path_file_name(""), None);
    assert_eq!(path_file_name("."), None);
    assert_eq!(path_file_name("name"), Some("name".to_string()));
}

#[test]
fn below_compares_whole_components() {
    assert_eq!(path_below("/s/demo/x/y", "/s/demo"), Some(strings(&["x", "y"])));
    assert_eq!(path_below("/s/demo", "/s/demo/"), Some(Vec::<String>::new()));
    assert_eq!(path_below("/s/demolition/x", "/s/demo"), None);
    assert_eq!(path_below("/s", "/s/demo"), None);
    assert_eq!(path_below("s/demo/x", "/s/demo"), None);
    assert_eq!(path_below("/s/demo", "s"), None);
    assert_eq!(path_below("/s/demo", ""), Some(strings(&["s", "demo"])));
    assert_eq!(path_below("s/demo/x", "s"), Some(strings(&["demo", "x"])));
    assert!(path_is_absolute("/x"));
    assert!(!path_is_absolute("x/"));
    assert!(!path_is_absolute(""));
}

#[test]
fn get_repo_name_takes_the_last_component() {
    assert_eq!(WorktreeStorage::get_repo_name("/home/me/demo"), Ok("demo".to_string()));
    assert_eq!(WorktreeStorage::get_repo_name("/"), Err(StorageError::NoRepositoryName));
    assert_eq!(WorktreeStorage::get_repo_name("/a/.."), Err(StorageError::NoRepositoryName));
}

#[test]
fn storage_paths_are_built_under_the_root() {
    let storage = WorktreeStorage::with_root("/s".to_string());
    assert_eq!(storage.get_root_dir(), "/s");
    assert_eq!(storage.get_repo_storage_dir("demo"), "/s/demo");
    assert_eq!(storage.get_worktree_path("demo", "feature/x"), "/s/demo/feature-x");
    assert_eq!(
        storage.get_managed_branch_flag_path("demo", "feature/x"),
        "/s/demo/.managed-branches/feature-x"
    );
}

#[test]
fn new_with_a_root_uses_that_root() {
    let storage = WorktreeStorage::new(Some("/custom/root".to_string())).unwrap();
    assert_eq!(storage.get_root_dir(), "/custom/root");
    assert!(storage.repos.is_empty());
}

#[test]
fn from_roots_falls_back_to_the_home_directory() {
    let storage = WorktreeStorage::from_roots(None, Some("/home/me".to_string())).unwrap();
    assert_eq!(storage.get_root_dir(), "/home/me/.worktrees");
    let storage =
        WorktreeStorage::from_roots(Some("/x".to_string()), Some("/home/me".to_string())).unwrap();
    assert_eq!(storage.get_root_dir(), "/x");
    assert!(matches!(
        WorktreeStorage::from_roots(None, None),
        Err(StorageError::NoHomeDirectory)
    ));
}

#[test]
fn entries_split_at_the_first_separator() {
    assert_eq!(
        parse_entry("feature-x -> feature/x"),
        Some(("feature-x".to_string(), "feature/x".to_string()))
    );
    assert_eq!(parse_entry("a -> b -> c"), Some(("a".to_string(), "b -> c".to_string())));
    assert_eq!(parse_entry(" -> "), Some((String::new(), String::new())));
    assert_eq!(parse_entry("a->b"), None);
    assert_eq!(parse_entry("a ->b"), None);
    assert_eq!(parse_entry(""), None);
    assert_eq!(format_entry("feature-x", "feature/x"), "feature-x -> feature/x");
}

#[test]
fn lookup_returns_the_first_match() {
    let lines = strings(&["junk", "a -> one", "b -> two", "a -> three"]);
    assert_eq!(lookup_in(&lines, "a"), Some("one".to_string()));
    assert_eq!(lookup_in(&lines, "b"), Some("two".to_string()));
    assert_eq!(lookup_in(&lines, "c"), None);
    assert_eq!(lookup_in(&lines, "junk"), None);
    assert_eq!(count_key(&lines, "a"), 2);
    assert_eq!(count_key(&lines, "c"), 0);
}

#[test]
fn put_then_get_returns_what_was_written() {
    let mut lines = strings(&["x -> y"]);
    put_in(&mut lines, "feature-x", "feature/x");
    assert_eq!(lookup_in(&lines, "feature-x"), Some("feature/x".to_string()));
    assert_eq!(lines, strings(&["x -> y", "feature-x -> feature/x"]));
}

#[test]
fn put_replaces_what_was_mapped_before() {
    let mut lines = strings(&["a-b -> a/b", "other -> o", "a-b -> stale"]);
    put_in(&mut lines, "a-b", "a-b");
    assert_eq!(lines, strings(&["other -> o", "a-b -> a-b"]));
    assert_eq!(lookup_in(&lines, "a-b"), Some("a-b".to_string()));
}

#[test]
fn put_twice_leaves_one_entry() {
    let mut lines: Vec<String> = Vec::new();
    put_in(&mut lines, "feature-x", "feature/x");
    let once = lines.clone();
    put_in(&mut lines, "feature-x", "feature/x");
    assert_eq!(lines, once);
    assert_eq!(lines, strings(&["feature-x -> feature/x"]));
    assert_eq!(count_key(&lines, "feature-x"), 1);
}

#[test]
fn remove_by_value_keeps_every_other_line() {
    let mut lines = strings(&["a -> one", "not an entry", "b -> two", "", "c -> one"]);
    drop_value(&mut lines, "one");
    assert_eq!(lines, strings(&["not an entry", "b -> two", ""]));
    assert_eq!(lookup_in(&lines, "a"), None);
    assert_eq!(lookup_in(&lines, "b"), Some("two".to_string()));
}

#[test]
fn remove_by_key_keeps_every_other_line() {
    let mut lines = strings(&["a -> one", "not an entry", "b -> two", "a -> three"]);
    drop_key(&mut lines, "a");
    assert_eq!(lines, strings(&["not an entry", "b -> two"]));
}

#[test]
fn lines_end_at_line_feeds() {
    assert_eq!(lines_of(""), Vec::<String>::new());
    assert_eq!(lines_of("a\nb\n"), strings(&["a", "b"]));
    assert_eq!(lines_of("a\r\nb"), strings(&["a", "b"]));
    assert_eq!(lines_of("a\n\nb\n"), strings(&["a", "", "b"]));
    assert_eq!(lines_of("\n"), strings(&[""]));
    assert_eq!(lines_of("a\r"), strings(&["a\r"]));
    assert_eq!(lines_of("a\r\r\n"), strings(&["a\r"]));
}

#[test]
fn render_ends_each_line_with_a_line_feed() {
    assert_eq!(render_lines(&strings(&[])), "");
    assert_eq!(render_lines(&strings(&["a -> b"])), "a -> b\n");
    assert_eq!(render_lines(&strings(&["a", "b"])), "a\nb\n");
    assert_eq!(render_lines(&strings(&[""])), "");
    assert_eq!(render_lines(&strings(&["", "x"])), "\nx\n");
}

#[test]
fn a_mapping_survives_being_written_and_read_again() {
    let mut file = RegistryFile::Absent;
    file.put("feature-x", "feature/x").unwrap();
    file.put("fix-1", "fix/1").unwrap();
    let content = file.render().unwrap();
    assert_eq!(content, "feature-x -> feature/x\nfix-1 -> fix/1\n");
    let again = RegistryFile::parse(&content);
    assert_eq!(again.get("feature-x"), Ok(Some("feature/x".to_string())));
    assert_eq!(again.get("fix-1"), Ok(Some("fix/1".to_string())));
    assert_eq!(RegistryFile::Absent.render(), None);
    assert_eq!(RegistryFile::Unreadable.render(), None);
}

#[test]
fn an_absent_file_holds_nothing_and_an_unreadable_one_fails() {
    assert_eq!(RegistryFile::Absent.get("x"), Ok(None));
    assert_eq!(RegistryFile::Unreadable.get("x"), Err(StorageError::IoFailure));
    let mut file = RegistryFile::Unreadable;
    assert_eq!(file.put("a", "b"), Err(StorageError::IoFailure));
    assert_eq!(file.remove_value("b"), Err(StorageError::IoFailure));
    assert_eq!(file.remove_key("a"), Err(StorageError::IoFailure));
    assert!(matches!(file, RegistryFile::Unreadable));
    let mut file = RegistryFile::Absent;
    assert_eq!(file.remove_value("b"), Ok(()));
    assert_eq!(file.remove_key("a"), Ok(()));
    assert!(matches!(file, RegistryFile::Absent));
}

#[test]
fn branch_mapping_scenario_demo() {
    let mut storage = WorktreeStorage::with_root("/s".to_string());
    storage.store_branch_mapping("demo", "feature/x", "feature-x").unwrap();
    assert_eq!(
        storage.get_original_branch_name("demo", "feature-x"),
        Ok(Some("feature/x".to_string()))
    );
    storage.remove_branch_mapping("demo", "feature/x").unwrap();
    assert_eq!(storage.get_original_branch_name("demo", "feature-x"), Ok(None));
}

#[test]
fn colliding_branches_leave_the_pair_written_last() {
    let mut storage = WorktreeStorage::with_root("/s".to_string());
    storage.store_branch_mapping("demo", "a/b", &sanitize("a/b")).unwrap();
    storage.store_branch_mapping("demo", "a-b", &sanitize("a-b")).unwrap();
    assert_eq!(storage.get_original_branch_name("demo", "a-b"), Ok(Some("a-b".to_string())));
    let repo = storage.repo("demo").unwrap();
    match &repo.branch_mapping {
        RegistryFile::Lines(lines) => assert_eq!(lines, &strings(&["a-b -> a-b"])),
        _ => unreachable!("the mapping was written"),
    }
}

#[test]
fn removing_a_mapping_leaves_other_branches_and_repositories_alone() {
    let mut storage = WorktreeStorage::with_root("/s".to_string());
    storage.store_branch_mapping("demo", "feature/x", "feature-x").unwrap();
    storage.store_branch_mapping("demo", "fix/1", "fix-1").unwrap();
    storage.store_branch_mapping("other", "feature/x", "feature-x").unwrap();
    storage.remove_branch_mapping("demo", "feature/x").unwrap();
    assert_eq!(storage.get_original_branch_name("demo", "feature-x"), Ok(None));
    assert_eq!(storage.get_original_branch_name("demo", "fix-1"), Ok(Some("fix/1".to_string())));
    assert_eq!(
        storage.get_original_branch_name("other", "feature-x"),
        Ok(Some("feature/x".to_string()))
    );
    storage.remove_branch_mapping("unknown", "feature/x").unwrap();
    assert!(storage.repo("unknown").is_none());
}

#[test]
fn an_unreadable_mapping_fails_reads_and_writes() {
    let mut storage = WorktreeStorage::with_root("/s".to_string());
    let mut repo = RepoRegistry::new("demo");
    repo.branch_mapping = RegistryFile::Unreadable;
    storage.load_repo(repo);
    assert_eq!(storage.get_original_branch_name("demo", "x"), Err(StorageError::IoFailure));
    assert_eq!(storage.store_branch_mapping("demo", "a/b", "a-b"), Err(StorageError::IoFailure));
    assert_eq!(storage.remove_branch_mapping("demo", "a/b"), Err(StorageError::IoFailure));
    assert_eq!(storage.get_original_branch_name("other", "x"), Ok(None));
}

#[test]
fn origins_are_stored_under_the_sanitized_name() {
    let mut storage = WorktreeStorage::with_root("/s".to_string());
    storage.store_worktree_origin("demo", "feature/x", "/home/me/demo").unwrap();
    assert_eq!(
        storage.get_worktree_origin("demo", "feature/x"),
        Ok(Some("/home/me/demo".to_string()))
    );
    assert_eq!(
        storage.get_worktree_origin("demo", "feature-x"),
        Ok(Some("/home/me/demo".to_string()))
    );
    match &storage.repo("demo").unwrap().origins {
        RegistryFile::Lines(lines) => assert_eq!(lines, &strings(&["feature-x -> /home/me/demo"])),
        _ => unreachable!("the origin was written"),
    }
    storage.remove_worktree_origin("demo", "feature/x").unwrap();
    assert_eq!(storage.get_worktree_origin("demo", "feature/x"), Ok(None));
    assert_eq!(storage.get_worktree_origin("nowhere", "feature/x"), Ok(None));
}

#[test]
fn managed_flags_are_set_and_cleared() {
    let mut storage = WorktreeStorage::with_root("/s".to_string());
    assert!(!storage.is_branch_managed("demo", "feature/x"));
    storage.mark_branch_managed("demo", "feature/x");
    assert!(storage.is_branch_managed("demo", "feature/x"));
    assert!(storage.is_branch_managed("demo", "feature-x"));
    assert!(!storage.is_branch_managed("demo", "other"));
    assert!(!storage.is_branch_managed("elsewhere", "feature/x"));
    storage.mark_branch_managed("demo", "feature/x");
    assert_eq!(storage.repo("demo").unwrap().managed, strings(&["feature-x"]));
    storage.unmark_branch_managed("demo", "feature/x");
    assert!(!storage.is_branch_managed("demo", "feature/x"));
    storage.unmark_branch_managed("demo", "feature/x");
    storage.unmark_branch_managed("nowhere", "feature/x");
    assert!(storage.repo("nowhere").is_none());
}

#[test]
fn listing_leaves_out_the_reserved_directory() {
    let mut storage = WorktreeStorage::with_root("/s".to_string());
    storage.add_worktree("demo", "feature/x");
    storage.mark_branch_managed("demo", "feature/x");
    storage.add_worktree("demo", "main");
    storage.add_worktree("demo", "main");
    storage.mark_branch_managed("empty", "b");
    assert_eq!(
        storage.repo("demo").unwrap().directories,
        strings(&["feature-x", ".managed-branches", "main"])
    );
    assert_eq!(storage.list_repo_worktrees("demo"), strings(&["feature-x", "main"]));
    assert_eq!(storage.list_repo_worktrees("none"), Vec::<String>::new());
    assert_eq!(
        storage.list_all_worktrees(),
        vec![
            ("demo".to_string(), strings(&["feature-x", "main"])),
            ("empty".to_string(), Vec::<String>::new()),
        ]
    );
    assert!(storage.worktree_exists("demo", "feature/x"));
    storage.remove_directory("demo", "feature-x");
    assert!(!storage.worktree_exists("demo", "feature/x"));
    assert_eq!(storage.list_repo_worktrees("demo"), strings(&["main"]));
}

#[test]
fn new_without_a_root_uses_the_home_directory() {
    match WorktreeStorage::new(None) {
        Ok(storage) => {
            assert!(storage.get_root_dir().ends_with(".worktrees"));
            assert!(storage.get_root_dir().len() > ".worktrees".len());
            assert!(storage.repos.is_empty());
        }
        Err(e) => assert_eq!(e, StorageError::NoHomeDirectory),
    }
}

fn names(path: &Path) -> Vec<String> {
    path.components()
        .filter(|c| !matches!(c, Component::RootDir))
        .map(|c| c.as_os_str().to_string_lossy().into_owned())
        .collect()
}

#[test]
fn paths_agree_with_the_platform() {
    let samples = [
        "", "/", ".", "..", "a", "/a", "a/", "./a", "a/.", "a/..", "/a/b/", "//a//b", "./",
        "././a", "a/./b", "/./a", "../a", "/a/../b", "a b/c", "/s/demo", "/s/demo/feature-x",
        "s", "./s", "/s/demolition",
    ];
    for p in samples {
        let path = Path::new(p);
        let file_name = path.file_name().map(|n| n.to_string_lossy().into_owned());
        assert_eq!(path_file_name(p), file_name, "file name of {:?}", p);
        assert_eq!(path_is_absolute(p), path.is_absolute(), "absoluteness of {:?}", p);
        assert_eq!(path_components(p), names(path), "components of {:?}", p);
        for q in samples {
            let rest = path.strip_prefix(q).ok().map(names);
            assert_eq!(path_below(p, q), rest, "{:?} below {:?}", p, q);
            assert_eq!(join(p, q), path.join(q).to_string_lossy(), "{:?} joined {:?}", p, q);
        }
    }
}

#[test]
fn a_key_that_the_separator_cuts_does_not_read_back() {
    let mut lines: Vec<String> = Vec::new();
    put_in(&mut lines, "a ->", " b");
    assert_eq!(lines, strings(&["a -> ->  b"]));
    assert_eq!(lookup_in(&lines, "a ->"), None);
    assert_eq!(lookup_in(&lines, "a"), Some("->  b".to_string()));

    let mut lines: Vec<String> = Vec::new();
    put_in(&mut lines, "a>b -", "x -> y");
    assert_eq!(lookup_in(&lines, "a>b -"), Some("x -> y".to_string()));
}

#[test]
fn what_was_stored_is_read_back_from_the_rendered_file() {
    let mut file = RegistryFile::parse("old -> one\nnot an entry\nkey -> stale\n");
    file.put("key", "fresh").unwrap();
    let content = file.render().unwrap();
    assert_eq!(content, "old -> one\nnot an entry\nkey -> fresh\n");
    let read = RegistryFile::parse(&content);
    assert_eq!(read.get("key"), Ok(Some("fresh".to_string())));
    assert_eq!(read.get("old"), Ok(Some("one".to_string())));
}
