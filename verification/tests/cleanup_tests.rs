use std::cell::RefCell;

use worktree::commands::cleanup::{
    cleanup_worktrees, default_protected_branches, forget_deleted_branch, orphaned_branches,
    orphaned_records, parse_worktree_list, Outcome, WorktreeRecord,
};
use worktree::storage::files::RegistryFile;
use worktree::storage::repo::RepoRegistry;
use worktree::storage::WorktreeStorage;
use worktree::traits::{GitOperations, VcsError};

fn strings(items: &[&str]) -> Vec<String> {
    items.iter().map(|s| s.to_string()).collect()
}

struct FakeGit {
    undeletable: Vec<String>,
    calls: RefCell<Vec<String>>,
}

impl FakeGit {
    fn new(undeletable: &[&str]) -> Self {
        FakeGit { undeletable: strings(undeletable), calls: RefCell::new(Vec::new()) }
    }
}

impl GitOperations for FakeGit {
    fn open(_path: &str) -> Result<Self, VcsError> {
        Ok(FakeGit::new(&[]))
    }

    fn get_repo_path(&self) -> String {
        "/home/me/demo".to_string()
    }

    fn branch_exists(&self, _branch_name: &str) -> Result<bool, VcsError> {
        Ok(false)
    }

    fn create_worktree(&self, _branch: &str, _path: &str, _create: bool) -> Result<(), VcsError> {
        Ok(())
    }

    fn remove_worktree(&self, worktree_name: &str) -> Result<(), VcsError> {
        self.calls.borrow_mut().push(format!("prune {}", worktree_name));
        Ok(())
    }

    fn list_worktrees(&self) -> Result<Vec<String>, VcsError> {
        Ok(Vec::new())
    }

    fn delete_branch(&self, branch_name: &str) -> Result<(), VcsError> {
        self.calls.borrow_mut().push(format!("delete {}", branch_name));
        if self.undeletable.iter().any(|b| b == branch_name) {
            Err(VcsError { message: "checked out elsewhere".to_string() })
        } else {
            Ok(())
        }
    }

    fn inherit_config(&self, _worktree_path: &str) -> Result<(), VcsError> {
        Ok(())
    }
}

fn drifted_storage() -> WorktreeStorage {
    let mut storage = WorktreeStorage::with_root("/s".to_string());
    let mut repo = RepoRegistry::new("demo");
    repo.directories = strings(&["feature-x", ".managed-branches"]);
    repo.managed = strings(&["feature-x", "old-one", "old-two"]);
    repo.branch_mapping = RegistryFile::Lines(strings(&[
        "feature-x -> feature/x",
        "gone-1 -> gone/1",
        "a comment line",
        "",
        "gone-2 -> gone/2",
    ]));
    storage.load_repo(repo);
    storage
}

#[test]
fn protected_branches_are_main_and_master() {
    assert_eq!(default_protected_branches(), strings(&["main", "master"]));
}

#[test]
fn orphaned_branches_have_no_directory_and_are_not_protected() {
    let storage = drifted_storage();
    let branches = strings(&["main", "feature/x", "old/one", "master", "old-two"]);
    assert_eq!(
        orphaned_branches(&storage, "demo", &branches, &default_protected_branches()),
        strings(&["old/one", "old-two"])
    );
    assert_eq!(
        orphaned_branches(&storage, "demo", &branches, &strings(&[])),
        strings(&["main", "old/one", "master", "old-two"])
    );
    assert_eq!(
        orphaned_branches(&storage, "unknown", &strings(&["feature/x"]), &strings(&[])),
        strings(&["feature/x"])
    );
}

#[test]
fn pruning_drops_entries_without_a_directory() {
    let mut storage = drifted_storage();
    let removed = storage.prune_stale_mappings("demo");
    assert_eq!(removed, strings(&["gone/1", "gone/2"]));
    match &storage.repo("demo").unwrap().branch_mapping {
        RegistryFile::Lines(lines) => {
            assert_eq!(lines, &strings(&["feature-x -> feature/x", "a comment line", ""]))
        }
        _ => unreachable!("the mapping stays a file"),
    }
    assert_eq!(storage.prune_stale_mappings("demo"), Vec::<String>::new());
    assert_eq!(storage.prune_stale_mappings("unknown"), Vec::<String>::new());
    assert!(storage.repo("unknown").is_none());
}

#[test]
fn the_worktree_listing_gives_the_paths_with_a_branch() {
    let listing = "worktree /home/me/demo\nHEAD abc\nbranch refs/heads/main\n\n\
                   worktree /s/demo/feature-x\nHEAD def\nbranch refs/heads/feature/x\n\n\
                   worktree /s/demo/detached\nHEAD 123\ndetached\n\n\
                   worktree /s/demo/gone\nHEAD 456\nbranch refs/heads/gone\n";
    assert_eq!(
        parse_worktree_list(listing),
        strings(&["/home/me/demo", "/s/demo/feature-x", "/s/demo/gone"])
    );
    assert_eq!(parse_worktree_list(""), Vec::<String>::new());
    assert_eq!(parse_worktree_list("branch refs/heads/x\n"), Vec::<String>::new());
    assert_eq!(parse_worktree_list("worktree /a\nworktree /b\nbranch x\nbranch y\n"), strings(&["/b"]));
}

#[test]
fn dangling_records_are_gone_and_not_the_current_directory() {
    let record = |path: &str, exists: bool| WorktreeRecord { path: path.to_string(), exists };
    let records = vec![
        record("/home/me/demo", true),
        record("/s/demo/gone", false),
        record("/s/demo/here", false),
        record("/s/demo/also-gone/", false),
        record("/", false),
    ];
    assert_eq!(orphaned_records(&records, "/s/demo/here"), strings(&["gone", "also-gone"]));
    assert_eq!(orphaned_records(&records, "/x"), strings(&["gone", "here", "also-gone"]));
    assert_eq!(orphaned_records(&vec![], "/x"), Vec::<String>::new());
}

#[test]
fn cleanup_repairs_all_three_kinds_of_drift() {
    let git = FakeGit::new(&["old-two"]);
    let mut storage = drifted_storage();
    let branches = strings(&["main", "feature/x", "old/one", "old-two"]);
    let records = vec![
        WorktreeRecord { path: "/s/demo/feature-x".to_string(), exists: true },
        WorktreeRecord { path: "/s/demo/gone".to_string(), exists: false },
    ];
    let report = cleanup_worktrees(
        &git,
        &mut storage,
        "demo",
        &branches,
        &default_protected_branches(),
        &records,
        "/home/me/demo",
    );
    assert_eq!(
        report.branches,
        vec![
            Outcome { name: "old/one".to_string(), done: true },
            Outcome { name: "old-two".to_string(), done: false },
        ]
    );
    assert_eq!(report.cleaned_mappings, strings(&["gone/1", "gone/2"]));
    assert!(!report.mapping_unreadable);
    assert_eq!(report.records, vec![Outcome { name: "gone".to_string(), done: true }]);
    assert_eq!(
        *git.calls.borrow(),
        strings(&["delete old/one", "delete old-two", "prune gone"])
    );
    assert_eq!(storage.repo("demo").unwrap().directories, strings(&["feature-x", ".managed-branches"]));
    assert_eq!(storage.repo("demo").unwrap().managed, strings(&["feature-x", "old-two"]));
}

#[test]
fn a_second_cleanup_finds_nothing_to_do() {
    let git = FakeGit::new(&[]);
    let mut storage = drifted_storage();
    let branches = strings(&["main", "feature/x", "old/one"]);
    let records = vec![
        WorktreeRecord { path: "/s/demo/feature-x".to_string(), exists: true },
        WorktreeRecord { path: "/s/demo/gone".to_string(), exists: false },
    ];
    let protected = default_protected_branches();
    let first =
        cleanup_worktrees(&git, &mut storage, "demo", &branches, &protected, &records, "/home/me");
    assert_eq!(first.branches.len(), 1);
    assert_eq!(first.cleaned_mappings.len(), 2);
    assert_eq!(first.records.len(), 1);

    let branches_left = strings(&["main", "feature/x"]);
    let records_left = vec![WorktreeRecord { path: "/s/demo/feature-x".to_string(), exists: true }];
    let mapping_before = storage.repo("demo").unwrap().branch_mapping.render();
    let second = cleanup_worktrees(
        &git,
        &mut storage,
        "demo",
        &branches_left,
        &protected,
        &records_left,
        "/home/me",
    );
    assert!(second.branches.is_empty());
    assert!(second.cleaned_mappings.is_empty());
    assert!(second.records.is_empty());
    assert_eq!(storage.repo("demo").unwrap().branch_mapping.render(), mapping_before);
}

#[test]
fn cleanup_reports_an_unreadable_mapping_and_goes_on() {
    let git = FakeGit::new(&[]);
    let mut storage = WorktreeStorage::with_root("/s".to_string());
    let mut repo = RepoRegistry::new("demo");
    repo.branch_mapping = RegistryFile::Unreadable;
    storage.load_repo(repo);
    let report = cleanup_worktrees(
        &git,
        &mut storage,
        "demo",
        &strings(&["old"]),
        &default_protected_branches(),
        &vec![WorktreeRecord { path: "/s/demo/gone".to_string(), exists: false }],
        "/x",
    );
    assert!(report.mapping_unreadable);
    assert!(report.cleaned_mappings.is_empty());
    assert_eq!(report.branches, vec![Outcome { name: "old".to_string(), done: true }]);
    assert_eq!(report.records, vec![Outcome { name: "gone".to_string(), done: true }]);
}

#[test]
fn a_branch_that_was_deleted_loses_its_flag_and_one_that_was_not_keeps_it() {
    let mut storage = drifted_storage();
    forget_deleted_branch(&mut storage, "demo", "old/one", false);
    assert!(storage.is_branch_managed("demo", "old/one"));
    forget_deleted_branch(&mut storage, "demo", "old/one", true);
    assert!(!storage.is_branch_managed("demo", "old/one"));
    assert!(storage.is_branch_managed("demo", "old-two"));
}
