use nimbus::grammar::{command_summaries, parse, AppEvent, Cli, Commands, ParseError};

fn parse_cli(args: &[&str]) -> Commands {
    let mut full = vec!["nimbus"];
    full.extend_from_slice(args);
    Cli::try_parse_from(full).unwrap().command
}

#[test]
fn parses_ls_and_vaults() {
    assert!(matches!(parse_cli(&["ls"]), Commands::Ls));
    assert!(matches!(parse_cli(&["vaults"]), Commands::Vaults));
}

#[test]
fn parses_select() {
    match parse_cli(&["select", "myvault"]) {
        Commands::Select { vault } => assert_eq!(vault, "myvault"),
        _ => panic!("expected Select"),
    }
}

#[test]
fn parses_new() {
    match parse_cli(&["new", "vault.toml"]) {
        Commands::New { path } => assert_eq!(path, Some("vault.toml".to_string())),
        _ => panic!("expected New"),
    }
}

#[test]
fn parses_new_with_no_path() {
    match parse_cli(&["new"]) {
        Commands::New { path } => assert_eq!(path, None),
        _ => panic!("expected New"),
    }
}

#[test]
fn parses_cd() {
    match parse_cli(&["cd", "docs"]) {
        Commands::Cd { path } => assert_eq!(path, Some("docs".to_string())),
        _ => panic!("expected Cd"),
    }
}

#[test]
fn parses_cd_with_no_path() {
    match parse_cli(&["cd"]) {
        Commands::Cd { path } => assert_eq!(path, None),
        _ => panic!("expected Cd"),
    }
}

#[test]
fn parses_put_with_optional_args_defaulting_to_none() {
    match parse_cli(&["put", "notes.txt"]) {
        Commands::Put { path, vault, dest } => {
            assert_eq!(path, "notes.txt");
            assert_eq!(vault, None);
            assert_eq!(dest, None);
        }
        _ => panic!("expected Put"),
    }
}

#[test]
fn parses_put_with_all_args() {
    match parse_cli(&["put", "notes.txt", "myvault", "docs"]) {
        Commands::Put { path, vault, dest } => {
            assert_eq!(path, "notes.txt");
            assert_eq!(vault, Some("myvault".to_string()));
            assert_eq!(dest, Some("docs".to_string()));
        }
        _ => panic!("expected Put"),
    }
}

#[test]
fn parses_get() {
    match parse_cli(&["get", "notes.txt", "myvault"]) {
        Commands::Get { path, vault, dest } => {
            assert_eq!(path, "notes.txt");
            assert_eq!(vault, Some("myvault".to_string()));
            assert_eq!(dest, None);
        }
        _ => panic!("expected Get"),
    }
}

#[test]
fn parses_delete_with_force_flag() {
    match parse_cli(&["delete", "notes.txt", "--force"]) {
        Commands::Delete { path, vault, force } => {
            assert_eq!(path, "notes.txt");
            assert_eq!(vault, None);
            assert!(force);
        }
        _ => panic!("expected Delete"),
    }
}

#[test]
fn parses_delete_without_force_flag_defaults_to_false() {
    match parse_cli(&["delete", "notes.txt"]) {
        Commands::Delete { force, .. } => assert!(!force),
        _ => panic!("expected Delete"),
    }
}

#[test]
fn parses_cp_and_mv() {
    match parse_cli(&["cp", "a.txt", "dir"]) {
        Commands::Cp { path, destination, .. } => {
            assert_eq!(path, "a.txt");
            assert_eq!(destination, "dir");
        }
        _ => panic!("expected Cp"),
    }
    match parse_cli(&["mv", "a.txt", "dir"]) {
        Commands::Mv { path, destination, .. } => {
            assert_eq!(path, "a.txt");
            assert_eq!(destination, "dir");
        }
        _ => panic!("expected Mv"),
    }
}

#[test]
fn parses_push_and_pull_with_optional_vault() {
    assert!(matches!(parse_cli(&["push"]), Commands::Push { vault: None }));
    match parse_cli(&["pull", "myvault"]) {
        Commands::Pull { vault } => assert_eq!(vault, Some("myvault".to_string())),
        _ => panic!("expected Pull"),
    }
}

#[test]
fn missing_required_argument_fails_to_parse() {
    let result = Cli::try_parse_from(vec!["nimbus", "select"]);
    assert!(result.is_err());
}

#[test]
fn unknown_subcommand_fails_to_parse() {
    let result = Cli::try_parse_from(vec!["nimbus", "not-a-command"]);
    assert!(result.is_err());
}

#[test]
fn grammar_errors_name_their_kind() {
    assert_eq!(Cli::try_parse_from(vec!["nimbus"]), Err(ParseError::MissingSubcommand));
    assert_eq!(
        Cli::try_parse_from(vec!["nimbus", "nope"]),
        Err(ParseError::UnknownSubcommand("nope".to_string()))
    );
    assert_eq!(
        Cli::try_parse_from(vec!["nimbus", "ls", "extra"]),
        Err(ParseError::UnexpectedArgument("extra".to_string()))
    );
    assert_eq!(
        Cli::try_parse_from(vec!["nimbus", "cd", "--bogus"]),
        Err(ParseError::UnexpectedArgument("--bogus".to_string()))
    );
    assert_eq!(
        Cli::try_parse_from(vec!["nimbus", "delete", "a", "-f", "--force"]),
        Err(ParseError::RepeatedFlag("--force".to_string()))
    );
    assert_eq!(Cli::try_parse_from(vec!["nimbus", "ls", "--help"]), Err(ParseError::Help));
    assert_eq!(Cli::try_parse_from(vec!["nimbus", "-V"]), Err(ParseError::Version));
    assert_eq!(Cli::try_parse_from(vec!["nimbus", "help"]), Err(ParseError::Help));
}

#[test]
fn double_dash_ends_the_options() {
    match parse_cli(&["delete", "--", "-f"]) {
        Commands::Delete { path, force, .. } => {
            assert_eq!(path, "-f");
            assert!(!force);
        }
        _ => panic!("expected Delete"),
    }
    match parse_cli(&["delete", "-f", "x", "v"]) {
        Commands::Delete { path, vault, force } => {
            assert_eq!(path, "x");
            assert_eq!(vault, Some("v".to_string()));
            assert!(force);
        }
        _ => panic!("expected Delete"),
    }
}

#[test]
fn the_command_line_parses_its_own_operations() {
    assert_eq!(
        parse("  rename a.txt  b.txt "),
        Ok(AppEvent::Rename { path: "a.txt".to_string(), new_name: "b.txt".to_string(), vault: None })
    );
    assert_eq!(parse("exit"), Ok(AppEvent::Quit));
    assert_eq!(parse("quit"), Ok(AppEvent::Quit));
    assert_eq!(
        parse("mkdir docs v1"),
        Ok(AppEvent::Mkdir { path: "docs".to_string(), vault: Some("v1".to_string()) })
    );
    assert_eq!(parse("forget v1"), Ok(AppEvent::Forget { vault: "v1".to_string() }));
    let error = parse("frobnicate").unwrap_err();
    assert!(error.contains("frobnicate"), "{error}");
    assert!(parse("").is_err());
    assert!(parse("touch").is_err());
    // The REPL's version flag does not exist on the `:` line.
    assert!(parse("-V").is_err());
}

#[test]
fn command_summaries_list_every_operation_once() {
    let summaries = command_summaries();
    assert_eq!(summaries.len(), 17);
    assert_eq!(summaries[0].0, "ls");
    assert_eq!(summaries[11].0, "delete [OPTIONS] <PATH> [VAULT]");
    assert_eq!(summaries[16], ("quit".to_string(), "Quit the application".to_string()));
}

#[test]
fn parse_error_messages_read_like_their_kind() {
    assert_eq!(
        ParseError::UnknownSubcommand("x".to_string()).message(),
        "error: unrecognized subcommand 'x'"
    );
    assert_eq!(
        ParseError::RepeatedFlag("-f".to_string()).message(),
        "error: the argument '-f' cannot be used multiple times"
    );
}
