use std::path::PathBuf;

use worktree::selection::groups::{decimal_chars, find_group, group_labels};
use worktree::selection::{
    extract_branch_from_selection, extract_path_from_selection, extract_reference_from_selection,
    group_options, reference_options, select_from_groups, select_git_reference_interactive,
    selectable_names, GitRefOption, MockSelectionProvider, SelectionError, SelectionProvider,
};

#[test]
fn test_mock_selection_provider_valid_response() {
    let options = vec!["option1".to_string(), "option2".to_string()];
    let provider = MockSelectionProvider::new("option1");

    let result = provider.select("Test prompt", options);
    assert!(matches!(result, Ok(ref s) if s == "option1"));
}

#[test]
fn test_mock_selection_provider_invalid_response() {
    let options = vec!["option1".to_string(), "option2".to_string()];
    let provider = MockSelectionProvider::new("invalid");

    let result = provider.select("Test prompt", options);
    assert!(result.is_err());
}

#[test]
fn test_extract_path_from_selection() {
    let selection = "repo/branch (/some/path)";
    let result = extract_path_from_selection(selection);
    assert!(matches!(result, Ok(ref p) if PathBuf::from(p) == PathBuf::from("/some/path")));
}

#[test]
fn test_extract_branch_from_selection() {
    let selection = "repo/feature-branch (/some/path)";
    let result = extract_branch_from_selection(selection);
    assert!(matches!(result, Ok(ref b) if b == "feature-branch"));
}

#[test]
fn test_extract_from_invalid_selection() {
    let invalid_selection = "invalid format";
    assert!(extract_path_from_selection(invalid_selection).is_err());
    assert!(extract_branch_from_selection(invalid_selection).is_err());
}

#[test]
fn test_extract_reference_from_selection() {
    let selection = "main (local branch)";
    let result = extract_reference_from_selection(selection);
    assert!(matches!(result, Ok(ref s) if s == "main"));

    let selection = "origin/feature (remote branch)";
    let result = extract_reference_from_selection(selection);
    assert!(matches!(result, Ok(ref s) if s == "origin/feature"));

    let selection = "v1.0.0 (tag)";
    let result = extract_reference_from_selection(selection);
    assert!(matches!(result, Ok(ref s) if s == "v1.0.0"));
}

#[test]
fn test_extract_reference_from_invalid_selection() {
    let invalid_selection = "invalid format";
    assert!(extract_reference_from_selection(invalid_selection).is_err());
}

#[test]
fn test_git_ref_option_formatting() {
    let local_ref = GitRefOption::Reference {
        name: "main".to_string(),
        display: "  main".to_string(),
    };
    let separator = GitRefOption::Separator("Local Branches".to_string());
    let empty_separator = GitRefOption::Separator(String::new());

    assert_eq!(local_ref.to_string(), "  main");
    assert_eq!(separator.to_string(), "─── Local Branches ───");
    assert_eq!(empty_separator.to_string(), "");

    if let GitRefOption::Reference { name, .. } = local_ref {
        assert_eq!(name, "main");
    } else {
        unreachable!("Expected Reference variant");
    }
}

#[test]
fn test_select_grouped_functionality() {
    let provider = MockSelectionProvider::new("main");

    let options = vec![
        GitRefOption::Separator("Local Branches".to_string()),
        GitRefOption::Reference {
            name: "main".to_string(),
            display: "  main".to_string(),
        },
        GitRefOption::Reference {
            name: "feature".to_string(),
            display: "  feature".to_string(),
        },
        GitRefOption::Separator(String::new()),
        GitRefOption::Separator("Remote Branches".to_string()),
        GitRefOption::Reference {
            name: "origin/develop".to_string(),
            display: "  origin/develop".to_string(),
        },
    ];

    let result = provider.select_grouped("Choose base for new branch:", options);

    if let Ok(selected) = result {
        assert_eq!(selected, "main");
    } else {
        unreachable!("Selection should succeed in test: {:?}", result);
    }
}

#[test]
fn test_git_ref_option_extraction() {
    let ref_option = GitRefOption::Reference {
        name: "origin/feature".to_string(),
        display: "  origin/feature".to_string(),
    };

    match ref_option {
        GitRefOption::Reference { name, .. } => {
            assert_eq!(name, "origin/feature");
        }
        GitRefOption::Separator(_) => {
            unreachable!("Expected Reference, got Separator");
        }
    }

    let separator = GitRefOption::Separator("Remote Branches".to_string());
    match separator {
        GitRefOption::Separator(label) => {
            assert_eq!(label, "Remote Branches");
        }
        GitRefOption::Reference { .. } => {
            unreachable!("Expected Separator, got Reference");
        }
    }
}

#[test]
fn mock_select_grouped_rejects_a_heading() {
    let provider = MockSelectionProvider::new("Local Branches");
    let options = vec![
        GitRefOption::Separator("Local Branches".to_string()),
        GitRefOption::Reference { name: "main".to_string(), display: "  main".to_string() },
    ];
    assert_eq!(
        provider.select_grouped("prompt", options),
        Err(SelectionError::NotAnOption)
    );
}

#[test]
fn mock_text_input_answers_the_response() {
    let provider = MockSelectionProvider::new("typed");
    assert_eq!(provider.get_text_input("Name:"), Ok("typed".to_string()));
}

#[test]
fn extract_path_uses_the_last_opener() {
    assert_eq!(
        extract_path_from_selection("repo/a (b) (/p/q)"),
        Ok("/p/q".to_string())
    );
    assert_eq!(extract_path_from_selection("repo/x ()"), Ok(String::new()));
}

#[test]
fn extract_path_rejects_a_selection_that_ends_with_the_opener() {
    assert_eq!(
        extract_path_from_selection("repo/x ("),
        Err(SelectionError::InvalidFormat)
    );
}

#[test]
fn extract_branch_takes_what_follows_the_last_slash() {
    assert_eq!(
        extract_branch_from_selection("demo/feature/auth (/s/demo/feature-auth)"),
        Ok("auth".to_string())
    );
    assert_eq!(
        extract_branch_from_selection("noslash (/tmp/x)"),
        Err(SelectionError::InvalidFormat)
    );
}

#[test]
fn extract_reference_uses_the_first_opener() {
    assert_eq!(
        extract_reference_from_selection("a (b) (c)"),
        Ok("a".to_string())
    );
}

#[test]
fn selectable_names_skip_headings() {
    let options = vec![
        GitRefOption::Separator("Tags".to_string()),
        GitRefOption::Reference { name: "v1".to_string(), display: "  v1".to_string() },
        GitRefOption::Separator(String::new()),
        GitRefOption::Reference { name: "v2".to_string(), display: "  v2".to_string() },
    ];
    assert_eq!(selectable_names(&options), vec!["v1".to_string(), "v2".to_string()]);
}

#[test]
fn reference_options_lists_sections_in_order() {
    let local = vec!["main".to_string()];
    let remote = vec!["origin/main".to_string()];
    let tags = vec!["v1".to_string()];
    let options = reference_options(&local, &remote, &tags);
    let expected = vec![
        GitRefOption::Separator("Local Branches".to_string()),
        GitRefOption::Reference { name: "main".to_string(), display: "  main".to_string() },
        GitRefOption::Separator(String::new()),
        GitRefOption::Separator("Remote Branches".to_string()),
        GitRefOption::Reference {
            name: "origin/main".to_string(),
            display: "  origin/main".to_string(),
        },
        GitRefOption::Separator(String::new()),
        GitRefOption::Separator("Tags".to_string()),
        GitRefOption::Reference { name: "v1".to_string(), display: "  v1".to_string() },
    ];
    assert_eq!(options, expected);
}

#[test]
fn reference_options_without_local_branches_starts_with_remote() {
    let options = reference_options(&vec![], &vec![], &vec!["v1".to_string()]);
    assert_eq!(
        options,
        vec![
            GitRefOption::Separator("Tags".to_string()),
            GitRefOption::Reference { name: "v1".to_string(), display: "  v1".to_string() },
        ]
    );
    assert!(reference_options(&vec![], &vec![], &vec![]).is_empty());
}

#[test]
fn select_git_reference_without_references_fails() {
    let provider = MockSelectionProvider::new("main");
    assert_eq!(
        select_git_reference_interactive(&vec![], &vec![], &vec![], &provider),
        Err(SelectionError::NothingToSelect)
    );
}

#[test]
fn select_git_reference_hands_back_the_choice() {
    let provider = MockSelectionProvider::new("v1");
    let result = select_git_reference_interactive(
        &vec!["main".to_string()],
        &vec![],
        &vec!["v1".to_string()],
        &provider,
    );
    assert_eq!(result, Ok("v1".to_string()));
}

#[test]
fn group_options_closes_groups_at_headings() {
    let options = vec![
        GitRefOption::Reference { name: "loose".to_string(), display: "loose".to_string() },
        GitRefOption::Separator("Local Branches".to_string()),
        GitRefOption::Reference { name: "main".to_string(), display: "  main".to_string() },
        GitRefOption::Reference { name: "dev".to_string(), display: "  dev".to_string() },
        GitRefOption::Separator(String::new()),
        GitRefOption::Reference { name: "late".to_string(), display: "  late".to_string() },
        GitRefOption::Separator("Tags".to_string()),
    ];
    let groups = group_options(&options);
    assert_eq!(groups.len(), 3);
    assert_eq!(groups[0].name, "");
    assert_eq!(groups[0].refs, vec!["loose".to_string()]);
    assert_eq!(groups[1].name, "Local Branches");
    assert_eq!(groups[1].refs, vec!["main".to_string(), "dev".to_string()]);
    assert_eq!(groups[2].name, "Local Branches");
    assert_eq!(groups[2].refs, vec!["late".to_string()]);
}

#[test]
fn group_labels_count_the_references() {
    let options = vec![
        GitRefOption::Separator("Tags".to_string()),
        GitRefOption::Reference { name: "a".to_string(), display: "a".to_string() },
        GitRefOption::Reference { name: "b".to_string(), display: "b".to_string() },
        GitRefOption::Reference { name: "c".to_string(), display: "c".to_string() },
    ];
    let groups = group_options(&options);
    assert_eq!(group_labels(&groups), vec!["Tags (3 items)".to_string()]);
    assert_eq!(groups[0].prompt(), "Choose from Tags:");
    assert_eq!(find_group(&groups, "Tags (3 items)"), Some(0));
    assert_eq!(find_group(&groups, "Tags (2 items)"), None);
}

#[test]
fn decimal_chars_writes_numbers() {
    let text = |n: usize| decimal_chars(n).into_iter().collect::<String>();
    assert_eq!(text(0), "0");
    assert_eq!(text(7), "7");
    assert_eq!(text(10), "10");
    assert_eq!(text(12345), "12345");
}

#[test]
fn select_from_groups_with_one_group_asks_once() {
    let provider = MockSelectionProvider::new("dev");
    let options = vec![
        GitRefOption::Separator("Local Branches".to_string()),
        GitRefOption::Reference { name: "main".to_string(), display: "  main".to_string() },
        GitRefOption::Reference { name: "dev".to_string(), display: "  dev".to_string() },
    ];
    assert_eq!(select_from_groups(&provider, "Pick:", &options), Ok("dev".to_string()));
}

#[test]
fn select_from_groups_with_two_groups_asks_for_the_category_first() {
    let provider = MockSelectionProvider::new("dev");
    let options = vec![
        GitRefOption::Separator("Local Branches".to_string()),
        GitRefOption::Reference { name: "dev".to_string(), display: "  dev".to_string() },
        GitRefOption::Separator("Tags".to_string()),
        GitRefOption::Reference { name: "v1".to_string(), display: "  v1".to_string() },
    ];
    assert_eq!(
        select_from_groups(&provider, "Pick:", &options),
        Err(SelectionError::NotAnOption)
    );
}

struct ScriptedProvider {
    answers: std::cell::RefCell<Vec<Result<String, SelectionError>>>,
    asked: std::cell::RefCell<Vec<(String, Vec<String>)>>,
}

impl ScriptedProvider {
    fn new(answers: Vec<Result<String, SelectionError>>) -> Self {
        ScriptedProvider {
            answers: std::cell::RefCell::new(answers),
            asked: std::cell::RefCell::new(Vec::new()),
        }
    }
}

impl SelectionProvider for ScriptedProvider {
    fn select(&self, prompt: &str, options: Vec<String>) -> Result<String, SelectionError> {
        self.asked.borrow_mut().push((prompt.to_string(), options));
        self.answers.borrow_mut().remove(0)
    }

    fn select_grouped(
        &self,
        prompt: &str,
        options: Vec<GitRefOption>,
    ) -> Result<String, SelectionError> {
        select_from_groups(self, prompt, &options)
    }

    fn get_text_input(&self, _prompt: &str) -> Result<String, SelectionError> {
        self.answers.borrow_mut().remove(0)
    }
}

fn two_groups() -> Vec<GitRefOption> {
    vec![
        GitRefOption::Separator("Local Branches".to_string()),
        GitRefOption::Reference { name: "main".to_string(), display: "  main".to_string() },
        GitRefOption::Reference { name: "dev".to_string(), display: "  dev".to_string() },
        GitRefOption::Separator(String::new()),
        GitRefOption::Separator("Tags".to_string()),
        GitRefOption::Reference { name: "v1".to_string(), display: "  v1".to_string() },
    ]
}

#[test]
fn choosing_from_groups_asks_for_the_category_and_then_the_reference() {
    let provider =
        ScriptedProvider::new(vec![Ok("Tags (1 items)".to_string()), Ok("v1".to_string())]);
    assert_eq!(select_from_groups(&provider, "Pick:", &two_groups()), Ok("v1".to_string()));
    assert_eq!(
        *provider.asked.borrow(),
        vec![
            (
                "Choose a category:".to_string(),
                vec!["Local Branches (2 items)".to_string(), "Tags (1 items)".to_string()]
            ),
            ("Choose from Tags:".to_string(), vec!["v1".to_string()]),
        ]
    );
}

#[test]
fn a_category_that_is_no_group_fails_the_selection() {
    let provider = ScriptedProvider::new(vec![Ok("Branches".to_string())]);
    assert_eq!(
        select_from_groups(&provider, "Pick:", &two_groups()),
        Err(SelectionError::GroupNotFound)
    );
}

#[test]
fn a_failure_of_the_provider_is_handed_back() {
    let provider =
        ScriptedProvider::new(vec![Err(SelectionError::Prompt("cancelled".to_string()))]);
    assert_eq!(
        select_from_groups(&provider, "Pick:", &two_groups()),
        Err(SelectionError::Prompt("cancelled".to_string()))
    );
    let provider =
        ScriptedProvider::new(vec![Err(SelectionError::Prompt("cancelled".to_string()))]);
    assert_eq!(
        select_git_reference_interactive(&vec!["main".to_string()], &vec![], &vec![], &provider),
        Err(SelectionError::Prompt("cancelled".to_string()))
    );
}
