use nimbus::daemon::{
    bearer_token, constant_time_eq, default_config_path, object_id, ApiError, AppState, Args, AuthConfig,
    AuthError, Config, FileConfig, Identity, DEFAULT_BIND,
};
use nimbus::error::VaultError;
use nimbus::object::ObjectId;

#[test]
fn ordinary_ids_are_accepted_unchanged() {
    assert_eq!(object_id("docs/2024/notes.txt").unwrap(), ObjectId::from_str("docs/2024/notes.txt"));
    assert_eq!(object_id("notes.txt").unwrap(), ObjectId::from_str("notes.txt"));
    assert_eq!(object_id("/docs").unwrap(), ObjectId::from_str("/docs"));
}

#[test]
fn ids_that_climb_out_of_the_vault_are_refused() {
    for raw in ["../etc/passwd", "docs/../../etc/passwd", "..", "docs/..", "..\\windows"] {
        assert!(matches!(object_id(raw), Err(ApiError::InvalidId(_))), "{raw} should have been refused");
    }
}

#[test]
fn repeated_leading_slashes_are_collapsed_into_one() {
    assert_eq!(object_id("//notes.txt").unwrap(), ObjectId::from_str("/notes.txt"));
    assert_eq!(object_id("///etc/passwd").unwrap(), ObjectId::from_str("/etc/passwd"));
}

#[test]
fn ids_with_a_null_byte_are_refused() {
    assert!(matches!(object_id("notes\0.txt"), Err(ApiError::InvalidId(_))));
}

#[test]
fn dotted_names_that_are_not_parent_segments_are_served() {
    assert_eq!(object_id("a..b/..c").unwrap(), ObjectId::from_str("a..b/..c"));
    assert_eq!(
        object_id("../x"),
        Err(ApiError::InvalidId("id '../x' escapes the vault".to_string()))
    );
}

fn bearer() -> AuthConfig {
    AuthConfig::Bearer { token: "s3cr3t".to_string() }
}

#[test]
fn no_auth_configured_lets_everything_through_as_anonymous() {
    let identity = AuthConfig::NoAuth.authenticate(None).unwrap();
    assert_eq!(identity, Identity::anonymous());
}

#[test]
fn bearer_accepts_the_configured_token() {
    assert!(bearer().authenticate(Some("Bearer s3cr3t")).is_ok());
}

#[test]
fn the_bearer_scheme_is_matched_case_insensitively() {
    assert!(bearer().authenticate(Some("bearer s3cr3t")).is_ok());
    assert!(bearer().authenticate(Some("BEARER s3cr3t")).is_ok());
}

#[test]
fn bearer_rejects_a_wrong_token() {
    assert_eq!(bearer().authenticate(Some("Bearer nope")), Err(AuthError::Invalid));
}

#[test]
fn bearer_rejects_a_prefix_of_the_token() {
    assert_eq!(bearer().authenticate(Some("Bearer s3cr")), Err(AuthError::Invalid));
}

#[test]
fn bearer_rejects_a_missing_header() {
    assert_eq!(bearer().authenticate(None), Err(AuthError::Missing));
}

#[test]
fn bearer_rejects_another_scheme() {
    assert_eq!(bearer().authenticate(Some("Basic s3cr3t")), Err(AuthError::Missing));
}

#[test]
fn constant_time_eq_still_answers_the_question() {
    assert!(constant_time_eq(b"abc", b"abc"));
    assert!(!constant_time_eq(b"abc", b"abd"));
    assert!(!constant_time_eq(b"abc", b"ab"));
    assert!(constant_time_eq(b"", b""));
}

#[test]
fn only_the_none_scheme_counts_as_open() {
    assert!(AuthConfig::NoAuth.is_open());
    assert!(!bearer().is_open());
}

#[test]
fn bearer_token_skips_leading_white_space_after_the_scheme() {
    assert_eq!(bearer_token("Bearer   tok"), Some("tok".to_string()));
    assert_eq!(bearer_token("Bearer"), None);
    assert_eq!(bearer_token("Token x"), None);
    assert_eq!(bearer_token("bEaReR x y"), Some("x y".to_string()));
}

#[test]
fn schemes_describe_themselves() {
    assert_eq!(AuthConfig::NoAuth.describe(), "none");
    assert_eq!(bearer().describe(), "bearer token");
    assert_eq!(Identity::new("bearer").name, "bearer");
}

#[test]
fn refusals_are_answered_with_their_status() {
    assert_eq!(AuthError::Missing.response(), (401, "missing credentials".to_string()));
    assert_eq!(AuthError::Invalid.response(), (401, "invalid credentials".to_string()));
    assert_eq!(ApiError::UnknownVault("v".to_string()).response(), (404, "no vault named 'v'".to_string()));
    assert_eq!(ApiError::InvalidId("bad".to_string()).response(), (400, "bad".to_string()));
    assert_eq!(ApiError::ReadOnly.response(), (403, "this daemon is serving read-only".to_string()));
    assert_eq!(ApiError::Vault(VaultError::NotFound("a".to_string())).response(), (404, "a".to_string()));
    let (status, message) = ApiError::Vault(VaultError::OriginError("/secret/path".to_string())).response();
    assert_eq!(status, 500);
    assert!(!message.contains("/secret/path"));
}

fn config_path() -> &'static str {
    "/nonexistent/daemon_config.toml"
}

#[test]
fn flags_win_over_the_file() {
    let file = FileConfig {
        vaults_path: Some("/from/file".to_string()),
        bind: Some("127.0.0.1:1111".to_string()),
        read_only: Some(false),
        auth: None,
    };
    let args = Args {
        vaults: Some("/from/flag".to_string()),
        bind: Some("127.0.0.1:2222".to_string()),
        ..Args::default()
    };
    let config = Config::merge(file, &args, config_path()).unwrap();
    assert_eq!(config.vaults_path, "/from/flag");
    assert_eq!(config.bind, "127.0.0.1:2222");
}

#[test]
fn the_file_wins_over_the_defaults() {
    let file = FileConfig {
        vaults_path: Some("/vaults".to_string()),
        bind: Some("0.0.0.0:9000".to_string()),
        ..FileConfig::default()
    };
    let config = Config::merge(file, &Args::default(), config_path()).unwrap();
    assert_eq!(config.bind, "0.0.0.0:9000");
}

#[test]
fn the_default_bind_is_loopback() {
    let file = FileConfig { vaults_path: Some("/vaults".to_string()), ..FileConfig::default() };
    let config = Config::merge(file, &Args::default(), config_path()).unwrap();
    assert_eq!(config.bind, DEFAULT_BIND);
    assert!(config.bind.starts_with("127."));
}

#[test]
fn a_missing_vaults_path_names_the_config_file_to_edit() {
    let message = Config::merge(FileConfig::default(), &Args::default(), config_path()).unwrap_err();
    assert!(message.contains("/nonexistent/daemon_config.toml"), "{message}");
    assert!(message.contains("--vaults"), "{message}");
}

#[test]
fn read_only_is_a_one_way_switch() {
    let locked = FileConfig { vaults_path: Some("/vaults".to_string()), read_only: Some(true), ..FileConfig::default() };
    assert!(Config::merge(locked, &Args::default(), config_path()).unwrap().read_only);

    let open = FileConfig { vaults_path: Some("/vaults".to_string()), read_only: Some(false), ..FileConfig::default() };
    let args = Args { read_only: true, ..Args::default() };
    assert!(Config::merge(open, &args, config_path()).unwrap().read_only);
}

#[test]
fn the_token_flag_replaces_the_configured_auth() {
    let file = FileConfig {
        vaults_path: Some("/vaults".to_string()),
        auth: Some(AuthConfig::NoAuth),
        ..FileConfig::default()
    };
    let args = Args { token: Some("from-flag".to_string()), ..Args::default() };
    let config = Config::merge(file, &args, config_path()).unwrap();
    match config.auth {
        AuthConfig::Bearer { token } => assert_eq!(token, "from-flag"),
        other => panic!("expected a bearer token, got {other:?}"),
    }
}

#[test]
fn auth_defaults_to_none_when_the_file_omits_it() {
    let file = FileConfig { vaults_path: Some("/vaults".to_string()), ..FileConfig::default() };
    let config = Config::merge(file, &Args::default(), config_path()).unwrap();
    assert!(config.auth.is_open());
}

#[test]
fn the_initial_file_holds_the_built_in_defaults() {
    let initial = FileConfig::initial();
    assert_eq!(initial.bind.as_deref(), Some(DEFAULT_BIND));
    assert_eq!(initial.read_only, Some(false));
    assert_eq!(initial.auth, Some(AuthConfig::NoAuth));
    assert!(initial.vaults_path.unwrap().ends_with("vaults"));
    assert!(default_config_path().ends_with("daemon_config.toml"));
}

#[test]
fn writes_are_refused_only_when_read_only() {
    let open = AppState::from_parts(Vec::new(), false, AuthConfig::NoAuth);
    assert!(open.ensure_writable().is_ok());
    let locked = AppState::from_parts(Vec::new(), true, AuthConfig::NoAuth);
    assert!(matches!(locked.ensure_writable(), Err(ApiError::ReadOnly)));
}

#[test]
fn an_unknown_vault_name_is_reported_with_the_name() {
    let state = AppState::from_parts(Vec::new(), false, AuthConfig::NoAuth);
    match state.vault("nope") {
        Err(ApiError::UnknownVault(name)) => assert_eq!(name, "nope"),
        other => panic!("expected UnknownVault, got {other:?}"),
    }
}

#[test]
fn vaults_are_found_by_name_and_listed_sorted() {
    let state = AppState::from_parts(vec!["zeta".to_string(), "alpha".to_string()], false, AuthConfig::NoAuth);
    assert_eq!(state.vault("alpha"), Ok(1));
    assert_eq!(state.vault_names(), vec!["alpha".to_string(), "zeta".to_string()]);
}

// --- locating and resolving the config file ---

#[test]
fn an_explicit_config_that_does_not_exist_is_an_error() {
    let args = Args {
        config: Some("/nonexistent/nimbus-daemon.toml".to_string()),
        vaults: Some("/vaults".to_string()),
        ..Args::default()
    };
    let (path, explicit) = Config::config_path(&args);
    assert_eq!(path, "/nonexistent/nimbus-daemon.toml");
    assert!(explicit);

    let error = Config::resolve(&args, &path, explicit, None).unwrap_err();

    assert!(error.contains("no config file at"), "{error}");
    assert_eq!(error, "no config file at /nonexistent/nimbus-daemon.toml");
}

#[test]
fn the_config_written_on_first_run_parses_back_into_the_built_in_defaults() {
    let args = Args::default();
    let (path, explicit) = Config::config_path(&args);
    assert!(!explicit);
    assert_eq!(path, default_config_path());

    let (config, write_initial) = Config::resolve(&args, &path, explicit, None).unwrap();

    assert!(write_initial);
    assert_eq!(config.bind, DEFAULT_BIND);
    assert!(!config.read_only);
    assert!(config.auth.is_open());
    assert_eq!(config.vaults_path, nimbus::config::VaultConfig::default_dir());
}

#[test]
fn a_config_read_from_disk_is_merged_under_the_flags() {
    let args = Args { read_only: true, ..Args::default() };
    let file = FileConfig {
        vaults_path: Some("/srv/v".to_string()),
        bind: None,
        read_only: Some(false),
        auth: None,
    };
    let (config, write_initial) =
        Config::resolve(&args, "/etc/d.toml", true, Some(Ok(file))).unwrap();
    assert!(!write_initial);
    assert_eq!(config.vaults_path, "/srv/v");
    assert!(config.read_only);

    let empty = FileConfig { vaults_path: None, bind: None, read_only: None, auth: None };
    assert_eq!(
        Config::resolve(&args, "/etc/d.toml", true, Some(Ok(empty))).unwrap_err(),
        "no vaults directory configured: set `vaults_path` in /etc/d.toml or pass --vaults"
    );
    assert_eq!(
        Config::resolve(&args, "/etc/d.toml", true, Some(Err("parsing /etc/d.toml: bad".to_string())))
            .unwrap_err(),
        "parsing /etc/d.toml: bad"
    );
}

// --- loading the vaults directory ---

use nimbus::daemon::{is_vault_config, VaultSources};

#[test]
fn vaults_are_keyed_by_the_name_inside_the_config_not_the_file_name() {
    let mut sources = VaultSources::new();
    sources.claim("photos".to_string(), "/vaults/some-file.toml".to_string()).unwrap();

    let names = sources.names();

    assert!(names.contains(&"photos".to_string()));
    assert!(!names.contains(&"some-file".to_string()));
}

#[test]
fn two_configs_claiming_one_name_is_fatal() {
    let mut sources = VaultSources::new();
    sources.claim("photos".to_string(), "/vaults/first.toml".to_string()).unwrap();

    let error = sources
        .claim("photos".to_string(), "/vaults/second.toml".to_string())
        .unwrap_err();

    assert!(error.contains("photos"), "{error}");
    assert_eq!(
        error,
        "two vault configs claim the name 'photos': /vaults/first.toml and /vaults/second.toml"
    );
    assert_eq!(sources.names(), vec!["photos".to_string()]);
}

#[test]
fn an_empty_directory_serves_no_vaults() {
    assert!(VaultSources::new().names().is_empty());
}

#[test]
fn only_files_with_a_toml_extension_are_vault_configs() {
    assert!(is_vault_config("photos.toml"));
    assert!(is_vault_config("a.b.toml"));
    assert!(!is_vault_config("README.md"));
    assert!(!is_vault_config("notes"));
    assert!(!is_vault_config(".toml"));
    assert!(!is_vault_config("toml"));
    assert!(!is_vault_config("x.tomlx"));
    assert!(!is_vault_config("x.TOML"));
    assert!(is_vault_config("..toml"));
}

#[test]
fn a_request_targets_a_served_vault_and_an_object_in_it() {
    let state = AppState::from_parts(vec!["photos".to_string(), "docs".to_string()], false, AuthConfig::NoAuth);
    assert_eq!(state.target(Some("docs"), None), Ok((1, None)));
    assert_eq!(state.target(Some("docs"), Some("")), Ok((1, None)));
    assert_eq!(state.target(Some("docs"), Some("/")), Ok((1, None)));
    assert_eq!(
        state.target(Some("photos"), Some("2024/a.jpg")),
        Ok((0, Some(ObjectId::from_str("2024/a.jpg"))))
    );
    assert!(matches!(state.target(Some("photos"), Some("../x")), Err(ApiError::InvalidId(_))));
    assert_eq!(
        state.target(Some("nope"), None),
        Err(ApiError::UnknownVault("nope".to_string()))
    );
    assert_eq!(
        state.target(None, Some("a")),
        Err(ApiError::InvalidId("no vault in the request path".to_string()))
    );
}

#[test]
fn a_served_id_is_served_as_itself() {
    for raw in ["//docs/a.txt", "docs/a.txt", "/", "///x"] {
        let id = object_id(raw).unwrap();
        let again = object_id(id.as_str()).unwrap();
        assert_eq!(again.as_str(), id.as_str());
        assert!(!id.as_str().starts_with("//"));
    }
}
