use nimbus::completion::{complete_at, subcommands, Completion};

fn complete(line: &str, pos: usize) -> Vec<String> {
    let chars = line[..pos].chars().count();
    match complete_at(line, chars).1 {
        Completion::Commands(names) => names,
        Completion::CdArgument(_) => Vec::new(),
        Completion::Nothing => Vec::new(),
    }
}

#[test]
fn completes_empty_prefix_with_all_subcommands() {
    let mut candidates = complete("", 0);
    candidates.sort();
    let mut expected: Vec<String> = subcommands().iter().map(|s| s.to_string()).collect();
    expected.sort();
    assert_eq!(candidates, expected);
}

#[test]
fn completes_partial_prefix() {
    let mut candidates = complete("c", 1);
    candidates.sort();
    assert_eq!(candidates, vec!["cd".to_string(), "cp".to_string()]);
}

#[test]
fn completes_unambiguous_prefix_to_single_candidate() {
    let candidates = complete("se", 2);
    assert_eq!(candidates, vec!["select".to_string()]);
}

#[test]
fn no_candidates_for_unknown_prefix() {
    let candidates = complete("zz", 2);
    assert!(candidates.is_empty());
}

#[test]
fn does_not_complete_arguments_of_other_commands() {
    let candidates = complete("put doc", 7);
    assert!(candidates.is_empty());
}

#[test]
fn does_not_complete_the_second_cd_argument() {
    let candidates = complete("cd docs sub", 11);
    assert!(candidates.is_empty());
}

#[test]
fn completes_at_cursor_position_not_end_of_line() {
    let candidates = complete("cd docs", 2);
    assert_eq!(candidates, vec!["cd".to_string()]);
}

#[test]
fn the_first_cd_argument_is_handed_to_the_session() {
    assert_eq!(
        complete_at("cd v", 4),
        (3, Completion::CdArgument("v".to_string()))
    );
    assert_eq!(
        complete_at("  cd   docs/su", 14),
        (7, Completion::CdArgument("docs/su".to_string()))
    );
    assert_eq!(complete_at("put doc", 7), (4, Completion::Nothing));
    assert_eq!(
        complete_at("  p", 3),
        (
            2,
            Completion::Commands(vec!["put".to_string(), "push".to_string(), "pull".to_string()])
        )
    );
}

#[test]
fn subcommands_are_offered_in_their_listed_order() {
    assert_eq!(subcommands().len(), 13);
    assert_eq!(complete("", 0)[0], "ls");
    assert_eq!(complete("", 0)[12], "exit");
}
