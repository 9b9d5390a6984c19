use std::cell::RefCell;

use worktree::catalog::{ChooseError, WorktreeEntry};
use worktree::commands::create::{
    check_request, create_worktree_with_git, is_glob_pattern, pattern_excludes, record_creation,
    should_exclude_file, store_origin_info, CopyError, CreateError, CreateMode,
};
use worktree::commands::init::{generate_shell_integration, Shell};
use worktree::commands::remove::{
    format_selection, read_selection, removal_target, remove_worktree, resolved_branch_name,
    retire_branch, select_worktree_for_removal,
};
use worktree::commands::status::{show_status, StatusRow};
use worktree::commands::sync_config::{resolve_worktree_path, sync_config, Endpoint, SyncError};
use worktree::git::{
    classify_config_value, effective_entries, entries_to_inherit, should_inherit_config_key,
    ConfigEntry, ConfigValue,
};
use worktree::selection::{MockSelectionProvider, SelectionError};
use worktree::storage::files::{RegistryFile, StorageError};
use worktree::storage::repo::RepoRegistry;
use worktree::storage::WorktreeStorage;
use worktree::traits::{GitOperations, VcsError};

fn strings(items: &[&str]) -> Vec<String> {
    items.iter().map(|s| s.to_string()).collect()
}

struct FakeGit {
    repo_path: String,
    branches: Vec<String>,
    fail_create: bool,
    fail_prune: bool,
    fail_delete: bool,
    fail_config: bool,
    calls: RefCell<Vec<String>>,
}

impl FakeGit {
    fn with_branches(branches: &[&str]) -> Self {
        FakeGit {
            repo_path: "/home/me/demo".to_string(),
            branches: strings(branches),
            fail_create: false,
            fail_prune: false,
            fail_delete: false,
            fail_config: false,
            calls: RefCell::new(Vec::new()),
        }
    }

    fn failure() -> VcsError {
        VcsError { message: "refused".to_string() }
    }
}

impl GitOperations for FakeGit {
    fn open(path: &str) -> Result<Self, VcsError> {
        let mut git = FakeGit::with_branches(&[]);
        git.repo_path = path.to_string();
        Ok(git)
    }

    fn get_repo_path(&self) -> String {
        self.repo_path.clone()
    }

    fn branch_exists(&self, branch_name: &str) -> Result<bool, VcsError> {
        Ok(self.branches.iter().any(|b| b == branch_name))
    }

    fn create_worktree(&self, branch: &str, path: &str, create: bool) -> Result<(), VcsError> {
        self.calls.borrow_mut().push(format!("create {} {} {}", branch, path, create));
        if self.fail_create {
            Err(FakeGit::failure())
        } else {
            Ok(())
        }
    }

    fn remove_worktree(&self, worktree_name: &str) -> Result<(), VcsError> {
        self.calls.borrow_mut().push(format!("prune {}", worktree_name));
        if self.fail_prune {
            Err(FakeGit::failure())
        } else {
            Ok(())
        }
    }

    fn list_worktrees(&self) -> Result<Vec<String>, VcsError> {
        Ok(Vec::new())
    }

    fn delete_branch(&self, branch_name: &str) -> Result<(), VcsError> {
        self.calls.borrow_mut().push(format!("delete {}", branch_name));
        if self.fail_delete {
            Err(FakeGit::failure())
        } else {
            Ok(())
        }
    }

    fn inherit_config(&self, _worktree_path: &str) -> Result<(), VcsError> {
        if self.fail_config {
            Err(FakeGit::failure())
        } else {
            Ok(())
        }
    }
}

#[test]
fn check_request_holds_the_mode_against_the_branch() {
    assert_eq!(check_request(CreateMode::Smart, false, false), Ok(true));
    assert_eq!(check_request(CreateMode::Smart, false, true), Ok(false));
    assert_eq!(check_request(CreateMode::NewBranch, false, false), Ok(true));
    assert_eq!(check_request(CreateMode::NewBranch, false, true), Err(CreateError::BranchExists));
    assert_eq!(check_request(CreateMode::ExistingBranch, false, true), Ok(false));
    assert_eq!(
        check_request(CreateMode::ExistingBranch, false, false),
        Err(CreateError::BranchMissing)
    );
    assert_eq!(check_request(CreateMode::NewBranch, true, true), Err(CreateError::PathExists));
    assert_eq!(check_request(CreateMode::Smart, true, false), Err(CreateError::PathExists));
}

#[test]
fn creating_a_worktree_records_directory_and_mapping() {
    let git = FakeGit::with_branches(&["main"]);
    let mut storage = WorktreeStorage::with_root("/s".to_string());
    let made =
        create_worktree_with_git(&git, &mut storage, "feature/x", CreateMode::Smart).unwrap();
    assert_eq!(made.repo_name, "demo");
    assert_eq!(made.repo_path, "/home/me/demo");
    assert_eq!(made.path, "/s/demo/feature-x");
    assert_eq!(made.directory, "feature-x");
    assert!(made.created_branch);
    assert!(made.config_inherited);
    assert_eq!(*git.calls.borrow(), strings(&["create feature/x /s/demo/feature-x true"]));
    assert!(storage.worktree_exists("demo", "feature/x"));
    assert_eq!(
        storage.get_original_branch_name("demo", "feature-x"),
        Ok(Some("feature/x".to_string()))
    );
}

#[test]
fn creating_for_an_existing_branch_does_not_create_it() {
    let mut git = FakeGit::with_branches(&["main", "hotfix"]);
    git.fail_config = true;
    let mut storage = WorktreeStorage::with_root("/s".to_string());
    let made = create_worktree_with_git(&git, &mut storage, "hotfix", CreateMode::ExistingBranch)
        .unwrap();
    assert!(!made.created_branch);
    assert!(!made.config_inherited);
    assert_eq!(*git.calls.borrow(), strings(&["create hotfix /s/demo/hotfix false"]));
}

#[test]
fn creating_is_refused_before_anything_is_made() {
    let git = FakeGit::with_branches(&["main", "hotfix"]);
    let mut storage = WorktreeStorage::with_root("/s".to_string());
    assert_eq!(
        create_worktree_with_git(&git, &mut storage, "hotfix", CreateMode::NewBranch),
        Err(CreateError::BranchExists)
    );
    assert_eq!(
        create_worktree_with_git(&git, &mut storage, "fresh", CreateMode::ExistingBranch),
        Err(CreateError::BranchMissing)
    );
    storage.add_worktree("demo", "taken");
    assert_eq!(
        create_worktree_with_git(&git, &mut storage, "taken", CreateMode::Smart),
        Err(CreateError::PathExists)
    );
    assert!(git.calls.borrow().is_empty());
    assert_eq!(storage.list_repo_worktrees("demo"), strings(&["taken"]));

    let mut rootless = FakeGit::with_branches(&[]);
    rootless.repo_path = "/".to_string();
    assert_eq!(
        create_worktree_with_git(&rootless, &mut storage, "x", CreateMode::Smart),
        Err(CreateError::NoRepositoryName)
    );
}

#[test]
fn a_failed_creation_changes_nothing() {
    let mut git = FakeGit::with_branches(&[]);
    git.fail_create = true;
    let mut storage = WorktreeStorage::with_root("/s".to_string());
    let result = create_worktree_with_git(&git, &mut storage, "feature/x", CreateMode::Smart);
    assert_eq!(result, Err(CreateError::Vcs(VcsError { message: "refused".to_string() })));
    assert!(storage.repos.is_empty());
}

#[test]
fn an_unreadable_mapping_fails_the_creation_after_the_worktree_is_made() {
    let git = FakeGit::with_branches(&[]);
    let mut storage = WorktreeStorage::with_root("/s".to_string());
    let mut repo = RepoRegistry::new("demo");
    repo.branch_mapping = RegistryFile::Unreadable;
    storage.load_repo(repo);
    assert_eq!(
        create_worktree_with_git(&git, &mut storage, "feature/x", CreateMode::Smart),
        Err(CreateError::Storage)
    );
    assert!(storage.worktree_exists("demo", "feature/x"));
}

#[test]
fn record_creation_stores_origin_and_flags_new_branches() {
    let mut storage = WorktreeStorage::with_root("/s".to_string());
    record_creation(&mut storage, "demo", "feature/x", "/home/me/demo", true).unwrap();
    assert_eq!(
        storage.get_worktree_origin("demo", "feature/x"),
        Ok(Some("/home/me/demo".to_string()))
    );
    assert!(storage.is_branch_managed("demo", "feature/x"));
    record_creation(&mut storage, "demo", "existing", "/home/me/demo", false).unwrap();
    assert!(!storage.is_branch_managed("demo", "existing"));
    store_origin_info(&mut storage, "demo", "third", "/elsewhere").unwrap();
    assert_eq!(storage.get_worktree_origin("demo", "third"), Ok(Some("/elsewhere".to_string())));

    let mut broken = WorktreeStorage::with_root("/s".to_string());
    let mut repo = RepoRegistry::new("demo");
    repo.origins = RegistryFile::Unreadable;
    broken.load_repo(repo);
    assert_eq!(
        record_creation(&mut broken, "demo", "feature/x", "/home/me/demo", true),
        Err(StorageError::IoFailure)
    );
    assert!(!broken.is_branch_managed("demo", "feature/x"));
}

#[test]
fn plain_patterns_exclude_paths_that_hold_them() {
    let patterns = strings(&["node_modules/", "target/", ".git/"]);
    assert_eq!(should_exclude_file("/repo/node_modules/x.js", &patterns), Ok(true));
    assert_eq!(should_exclude_file("/repo/src/main.rs", &patterns), Ok(false));
    assert_eq!(should_exclude_file("/repo/.git/config", &patterns), Ok(true));
    assert_eq!(should_exclude_file("/repo/x", &strings(&[])), Ok(false));
}

#[test]
fn glob_patterns_exclude_paths_they_match() {
    let patterns = strings(&["*.log", "*.tmp"]);
    assert_eq!(should_exclude_file("/repo/app.log", &patterns), Ok(true));
    assert_eq!(should_exclude_file("/repo/app.tmp", &patterns), Ok(true));
    assert_eq!(should_exclude_file("/repo/app.txt", &patterns), Ok(false));
    assert_eq!(should_exclude_file("/repo/app.log.txt", &patterns), Ok(false));
    assert_eq!(should_exclude_file("*.log", &strings(&["/repo/app.log"])), Ok(false));
}

#[test]
fn an_ill_formed_glob_is_an_error_unless_an_earlier_pattern_matched() {
    let patterns = strings(&["target/", "a***b", "*.log"]);
    assert_eq!(should_exclude_file("/repo/target/x", &patterns), Ok(true));
    assert_eq!(
        should_exclude_file("/repo/app.log", &patterns),
        Err(CopyError::InvalidPattern(1))
    );
}

#[test]
fn one_pattern_decides_by_its_kind() {
    assert!(is_glob_pattern("*.log"));
    assert!(is_glob_pattern("a*"));
    assert!(!is_glob_pattern("target/"));
    assert!(!is_glob_pattern("what?"));
    assert_eq!(pattern_excludes("/repo/app.log", "*.log", Some(true)), Some(true));
    assert_eq!(pattern_excludes("/repo/app.log", "*.log", Some(false)), Some(false));
    assert_eq!(pattern_excludes("/repo/app.log", "*.log", None), None);
    assert_eq!(pattern_excludes("/repo/app.log", "app", None), Some(true));
    assert_eq!(pattern_excludes("/repo/app.log", "apps", Some(true)), Some(false));
    assert_eq!(pattern_excludes("/repo/app.log", "", None), Some(true));
}

#[test]
fn format_and_read_a_selection() {
    let entry = WorktreeEntry {
        repo: "demo".to_string(),
        branch: "hotfix".to_string(),
        path: "/s/demo/hotfix".to_string(),
    };
    let line = format_selection(&entry);
    assert_eq!(line, "demo/hotfix (/s/demo/hotfix)");
    assert_eq!(read_selection(&line), Ok(("/s/demo/hotfix".to_string(), "hotfix".to_string())));
    assert_eq!(read_selection("nothing"), Err(SelectionError::InvalidFormat));
    assert_eq!(read_selection("noslash (/p)"), Err(SelectionError::InvalidFormat));
}

#[test]
fn selecting_for_removal_reads_path_and_branch() {
    let mut storage = WorktreeStorage::with_root("/s".to_string());
    storage.add_worktree("demo", "hotfix");
    let provider = MockSelectionProvider::new("demo/hotfix (/s/demo/hotfix)");
    assert_eq!(
        select_worktree_for_removal(&storage, None, &provider),
        Ok(("/s/demo/hotfix".to_string(), "hotfix".to_string()))
    );
    let wrong = MockSelectionProvider::new("demo/other (/s/demo/other)");
    assert_eq!(
        select_worktree_for_removal(&storage, None, &wrong),
        Err(ChooseError::Selection(SelectionError::NotAnOption))
    );
    let empty = WorktreeStorage::with_root("/s".to_string());
    assert_eq!(
        select_worktree_for_removal(&empty, Some("demo"), &provider),
        Err(ChooseError::NoWorktrees)
    );
}

#[test]
fn the_branch_of_a_worktree_comes_from_head_then_mapping_then_the_request() {
    let mut storage = WorktreeStorage::with_root("/s".to_string());
    storage.store_branch_mapping("demo", "feature/x", "feature-x").unwrap();
    assert_eq!(
        resolved_branch_name(Some("real".to_string()), &storage, "demo", "/s/demo/feature-x", "asked"),
        "real"
    );
    assert_eq!(
        resolved_branch_name(None, &storage, "demo", "/s/demo/feature-x", "asked"),
        "feature/x"
    );
    assert_eq!(resolved_branch_name(None, &storage, "demo", "/s/demo/unmapped", "asked"), "asked");
    assert_eq!(resolved_branch_name(None, &storage, "demo", "/", "feature-x"), "feature/x");
}

fn managed_storage() -> WorktreeStorage {
    let mut storage = WorktreeStorage::with_root("/s".to_string());
    storage.add_worktree("demo", "feature/x");
    storage.store_branch_mapping("demo", "feature/x", "feature-x").unwrap();
    storage.store_worktree_origin("demo", "feature/x", "/home/me/demo").unwrap();
    storage.mark_branch_managed("demo", "feature/x");
    storage.add_worktree("demo", "keep");
    storage.store_branch_mapping("demo", "keep", "keep").unwrap();
    storage
}

#[test]
fn removing_a_worktree_retires_its_records() {
    let git = FakeGit::with_branches(&["feature/x"]);
    let mut storage = managed_storage();
    let report =
        remove_worktree(&git, &mut storage, "demo", "/s/demo/feature-x", "feature/x", false)
            .unwrap();
    assert_eq!(report.worktree_name, "feature-x");
    assert!(report.origin_cleared);
    assert_eq!(report.branch_deleted, Some(true));
    assert!(report.mapping_cleared);
    assert_eq!(*git.calls.borrow(), strings(&["prune feature-x", "delete feature/x"]));
    assert!(!storage.worktree_exists("demo", "feature/x"));
    assert_eq!(storage.get_worktree_origin("demo", "feature/x"), Ok(None));
    assert_eq!(storage.get_original_branch_name("demo", "feature-x"), Ok(None));
    assert!(!storage.is_branch_managed("demo", "feature/x"));
    assert!(storage.worktree_exists("demo", "keep"));
    assert_eq!(storage.get_original_branch_name("demo", "keep"), Ok(Some("keep".to_string())));
}

#[test]
fn removing_with_the_branch_kept_leaves_flag_and_mapping() {
    let git = FakeGit::with_branches(&["feature/x"]);
    let mut storage = managed_storage();
    let report =
        remove_worktree(&git, &mut storage, "demo", "/s/demo/feature-x", "feature/x", true)
            .unwrap();
    assert_eq!(report.branch_deleted, None);
    assert!(!report.mapping_cleared);
    assert_eq!(*git.calls.borrow(), strings(&["prune feature-x"]));
    assert_eq!(storage.get_worktree_origin("demo", "feature/x"), Ok(None));
    assert_eq!(
        storage.get_original_branch_name("demo", "feature-x"),
        Ok(Some("feature/x".to_string()))
    );
    assert!(storage.is_branch_managed("demo", "feature/x"));
}

#[test]
fn a_branch_that_cannot_be_deleted_keeps_flag_and_mapping() {
    let mut git = FakeGit::with_branches(&["feature/x"]);
    git.fail_delete = true;
    let mut storage = managed_storage();
    let report =
        remove_worktree(&git, &mut storage, "demo", "/s/demo/feature-x", "feature/x", false)
            .unwrap();
    assert_eq!(report.branch_deleted, Some(false));
    assert!(storage.is_branch_managed("demo", "feature/x"));
    assert_eq!(
        storage.get_original_branch_name("demo", "feature-x"),
        Ok(Some("feature/x".to_string()))
    );
}

#[test]
fn a_record_that_cannot_be_removed_stops_the_removal() {
    let mut git = FakeGit::with_branches(&["feature/x"]);
    git.fail_prune = true;
    let mut storage = managed_storage();
    let result =
        remove_worktree(&git, &mut storage, "demo", "/s/demo/feature-x", "feature/x", false);
    assert_eq!(result, Err(VcsError { message: "refused".to_string() }));
    assert!(!storage.worktree_exists("demo", "feature/x"));
    assert_eq!(
        storage.get_worktree_origin("demo", "feature/x"),
        Ok(Some("/home/me/demo".to_string()))
    );
    assert!(storage.is_branch_managed("demo", "feature/x"));
}

#[test]
fn status_pairs_git_worktrees_with_managed_ones() {
    let mut storage = WorktreeStorage::with_root("/s".to_string());
    storage.add_worktree("demo", "feature-x");
    storage.add_worktree("demo", "only-managed");
    let report = show_status(&storage, "demo", &strings(&["feature-x", "only-git"]));
    let row = |name: &str, paired: bool, exists: bool| StatusRow {
        name: name.to_string(),
        paired,
        exists,
        path: format!("/s/demo/{}", name),
    };
    assert_eq!(
        report.git_worktrees,
        vec![row("feature-x", true, true), row("only-git", false, false)]
    );
    assert_eq!(
        report.managed_worktrees,
        vec![row("feature-x", true, true), row("only-managed", false, true)]
    );
}

#[test]
fn sync_endpoints_are_paths_or_branch_names() {
    let mut storage = WorktreeStorage::with_root("/s".to_string());
    storage.add_worktree("demo", "feature/x");
    assert_eq!(
        resolve_worktree_path("/any/where/tree", true, &storage, "demo"),
        Ok(Endpoint { path: "/any/where/tree".to_string(), branch: "tree".to_string(), exists: true })
    );
    assert_eq!(
        resolve_worktree_path("/", true, &storage, "demo"),
        Err(SyncError::NoBranchName)
    );
    assert_eq!(
        resolve_worktree_path("feature/x", false, &storage, "demo"),
        Ok(Endpoint {
            path: "/s/demo/feature-x".to_string(),
            branch: "feature/x".to_string(),
            exists: true
        })
    );
    assert_eq!(
        resolve_worktree_path("/gone/path", false, &storage, "demo"),
        Ok(Endpoint {
            path: "/s/demo/-gone-path".to_string(),
            branch: "/gone/path".to_string(),
            exists: false
        })
    );
}

#[test]
fn sync_needs_both_worktrees() {
    let mut storage = WorktreeStorage::with_root("/s".to_string());
    storage.add_worktree("demo", "source");
    storage.add_worktree("demo", "target");
    assert_eq!(
        sync_config("source", false, "target", false, &storage, "demo"),
        Ok(("/s/demo/source".to_string(), "/s/demo/target".to_string()))
    );
    assert_eq!(
        sync_config("missing", false, "target", false, &storage, "demo"),
        Err(SyncError::SourceMissing)
    );
    assert_eq!(
        sync_config("source", false, "missing", false, &storage, "demo"),
        Err(SyncError::TargetMissing)
    );
    assert_eq!(
        sync_config("missing", false, "also-missing", false, &storage, "demo"),
        Err(SyncError::SourceMissing)
    );
    assert_eq!(
        sync_config("source", false, "/", true, &storage, "demo"),
        Err(SyncError::NoBranchName)
    );
}

#[test]
fn config_keys_are_inherited_by_their_beginning() {
    for key in ["user.name", "user.email", "commit.gpgsign", "core.editor", "core.pager",
        "core.autocrlf", "core.filemode", "init.defaultbranch", "color.ui", "push.default",
        "pull.rebase", "merge.tool", "diff.tool", "log.date", "gpg.program", "credential.helper",
        "core.editorconfig"]
    {
        assert!(should_inherit_config_key(key), "{} should be inherited", key);
    }
    for key in ["core.bare", "core.worktree", "core.repositoryformatversion",
        "extensions.worktreeconfig", "branch.main.remote", "remote.origin.url",
        "submodule.x.url", "core.ignorecase", "http.proxy", "", "user", "alias.co"]
    {
        assert!(!should_inherit_config_key(key), "{} should stay behind", key);
    }
}

#[test]
fn config_values_are_typed_in_order() {
    assert_eq!(classify_config_value(Some(true), Some(1), "1"), ConfigValue::Bool(true));
    assert_eq!(classify_config_value(None, Some(42), "42"), ConfigValue::Int(42));
    assert_eq!(
        classify_config_value(None, None, "vim"),
        ConfigValue::String("vim".to_string())
    );
}

#[test]
fn inherited_entries_keep_their_order() {
    let entry = |key: &str, value: ConfigValue| ConfigEntry { key: key.to_string(), value };
    let entries = vec![
        entry("user.name", ConfigValue::String("Me".to_string())),
        entry("core.bare", ConfigValue::Bool(false)),
        entry("commit.gpgsign", ConfigValue::Bool(true)),
        entry("remote.origin.url", ConfigValue::String("x".to_string())),
        entry("log.maxcount", ConfigValue::Int(7)),
    ];
    assert_eq!(
        entries_to_inherit(&entries),
        vec![
            entry("user.name", ConfigValue::String("Me".to_string())),
            entry("commit.gpgsign", ConfigValue::Bool(true)),
            entry("log.maxcount", ConfigValue::Int(7)),
        ]
    );
}

#[test]
fn each_shell_has_its_integration_script() {
    let bash = generate_shell_integration(Shell::Bash);
    let zsh = generate_shell_integration(Shell::Zsh);
    let fish = generate_shell_integration(Shell::Fish);
    assert!(bash.starts_with("# Worktree shell integration for Bash\n"));
    assert!(bash.ends_with("complete -F _worktree_complete worktree"));
    assert!(bash.contains("local cur=\"${COMP_WORDS[COMP_CWORD]}\""));
    assert!(zsh.starts_with("# Worktree shell integration for Zsh\n"));
    assert!(zsh.ends_with("    compdef _worktree worktree\nfi"));
    assert!(fish.starts_with("# Worktree shell integration for Fish\n"));
    assert!(fish.contains("function worktree\n    switch $argv[1]"));
}

#[test]
fn a_file_that_include_and_exclude_patterns_match_is_left_out() {
    let config = worktree::config::WorktreeConfig::default();
    let excludes = config.copy_patterns.exclude.unwrap();
    assert_eq!(should_exclude_file("/repo/.env.log", &excludes), Ok(true));
    assert_eq!(should_exclude_file("/repo/.env.local", &excludes), Ok(false));
    assert_eq!(should_exclude_file("/repo/target/.env", &excludes), Ok(true));
}

#[test]
fn selecting_for_removal_fails_where_the_mapping_cannot_be_read() {
    let mut storage = WorktreeStorage::with_root("/s".to_string());
    let mut repo = RepoRegistry::new("demo");
    repo.directories = strings(&["hotfix"]);
    repo.branch_mapping = RegistryFile::Unreadable;
    storage.load_repo(repo);
    let provider = MockSelectionProvider::new("demo/hotfix (/s/demo/hotfix)");
    assert_eq!(
        select_worktree_for_removal(&storage, None, &provider),
        Err(ChooseError::Resolve(worktree::resolve::ResolveError::IoFailure))
    );
}

#[test]
fn removal_reports_tables_that_cannot_be_read() {
    let git = FakeGit::with_branches(&["feature/x"]);
    let mut storage = WorktreeStorage::with_root("/s".to_string());
    let mut repo = RepoRegistry::new("demo");
    repo.directories = strings(&["feature-x"]);
    repo.branch_mapping = RegistryFile::Unreadable;
    repo.origins = RegistryFile::Unreadable;
    storage.load_repo(repo);
    let report =
        remove_worktree(&git, &mut storage, "demo", "/s/demo/feature-x", "feature/x", false)
            .unwrap();
    assert!(!report.origin_cleared);
    assert_eq!(report.branch_deleted, Some(true));
    assert!(!report.mapping_cleared);
    assert!(!storage.worktree_exists("demo", "feature/x"));
}

#[test]
fn the_worktree_to_remove_is_resolved_or_chosen() {
    let storage = managed_storage();
    let provider = MockSelectionProvider::new("demo/keep (/s/demo/keep)");
    let branches = strings(&["keep", "feature/x"]);
    assert_eq!(
        removal_target(Some("feature-x"), false, &storage, "demo", Some(&branches), None, &provider),
        Ok(("/s/demo/feature-x".to_string(), "feature/x".to_string()))
    );
    assert_eq!(
        removal_target(Some("feature-x"), true, &storage, "demo", Some(&branches), None, &provider),
        Ok(("/s/demo/keep".to_string(), "keep".to_string()))
    );
    assert_eq!(
        removal_target(None, false, &storage, "demo", Some(&branches), None, &provider),
        Ok(("/s/demo/keep".to_string(), "keep".to_string()))
    );
    assert_eq!(
        removal_target(Some("absent"), false, &storage, "demo", Some(&branches), None, &provider),
        Err(ChooseError::Resolve(worktree::resolve::ResolveError::NotFound))
    );
}

#[test]
fn the_last_entry_of_a_key_counts() {
    let entry = |key: &str, value: i64| ConfigEntry {
        key: key.to_string(),
        value: ConfigValue::Int(value),
    };
    let read = vec![entry("a", 1), entry("b", 2), entry("a", 3), entry("c", 4), entry("b", 5)];
    assert_eq!(effective_entries(&read), vec![entry("a", 3), entry("c", 4), entry("b", 5)]);
    assert_eq!(effective_entries(&vec![]), vec![]);
}

#[test]
fn a_created_worktree_resolves_by_its_branch_and_by_its_directory() {
    let git = FakeGit::with_branches(&["main"]);
    let mut storage = WorktreeStorage::with_root("/s".to_string());
    create_worktree_with_git(&git, &mut storage, "feature/x", CreateMode::Smart).unwrap();
    create_worktree_with_git(&git, &mut storage, "hotfix", CreateMode::Smart).unwrap();
    let resolve = |target: &str| worktree::resolve::resolve_target(target, &storage, "demo", None);
    assert_eq!(
        resolve("feature/x"),
        Ok(("/s/demo/feature-x".to_string(), "feature/x".to_string()))
    );
    assert_eq!(
        resolve("feature-x"),
        Ok(("/s/demo/feature-x".to_string(), "feature/x".to_string()))
    );
    assert_eq!(resolve("hotfix"), Ok(("/s/demo/hotfix".to_string(), "hotfix".to_string())));
    assert_eq!(
        resolve("/s/demo/feature-x"),
        Ok(("/s/demo/feature-x".to_string(), "feature/x".to_string()))
    );
}

#[test]
fn retiring_a_branch_follows_the_outcome_of_its_deletion() {
    let mut storage = managed_storage();
    assert!(!retire_branch(&mut storage, "demo", "feature/x", false));
    assert!(storage.is_branch_managed("demo", "feature/x"));
    assert_eq!(
        storage.get_original_branch_name("demo", "feature-x"),
        Ok(Some("feature/x".to_string()))
    );

    assert!(retire_branch(&mut storage, "demo", "feature/x", true));
    assert!(!storage.is_branch_managed("demo", "feature/x"));
    assert_eq!(storage.get_original_branch_name("demo", "feature-x"), Ok(None));
    assert_eq!(storage.get_original_branch_name("demo", "keep"), Ok(Some("keep".to_string())));
    assert_eq!(
        storage.get_worktree_origin("demo", "feature/x"),
        Ok(Some("/home/me/demo".to_string()))
    );

    let mut broken = WorktreeStorage::with_root("/s".to_string());
    let mut repo = RepoRegistry::new("demo");
    repo.branch_mapping = RegistryFile::Unreadable;
    repo.managed = strings(&["feature-x"]);
    broken.load_repo(repo);
    assert!(!retire_branch(&mut broken, "demo", "feature/x", true));
    assert!(!broken.is_branch_managed("demo", "feature/x"));
}
