use nimbus::cli_config::CliConfig;
use nimbus::object::ObjectId;
use nimbus::session::{App, AppError, LOCAL_VAULT_NAME};

fn app_with(names: &[&str]) -> App {
    let mut app = App::new();
    for n in names {
        app.add_vault(n.to_string(), ObjectId::from_str(""));
    }
    app
}

// --- resolve_relative ---

#[test]
fn app_resolve_relative_absolute_input_ignores_current() {
    assert_eq!(App::resolve_relative("/some/where", "/other/place"), "/other/place");
}

#[test]
fn app_resolve_relative_relative_input_appends_to_current() {
    assert_eq!(App::resolve_relative("/docs", "notes"), "/docs/notes");
}

#[test]
fn app_resolve_relative_handles_parent_dir() {
    assert_eq!(App::resolve_relative("/docs/2024", ".."), "/docs");
}

#[test]
fn app_resolve_relative_parent_dir_at_root_stays_at_root() {
    assert_eq!(App::resolve_relative("/", ".."), "/");
}

#[test]
fn app_resolve_relative_handles_current_dir_component() {
    assert_eq!(App::resolve_relative("/docs", "./notes"), "/docs/notes");
}

#[test]
fn state_resolve_relative_absolute_input_ignores_current() {
    assert_eq!(App::resolve_relative("/some/where", "/other/place"), "/other/place");
}

#[test]
fn state_resolve_relative_relative_input_appends_to_current() {
    assert_eq!(App::resolve_relative("/docs", "notes"), "/docs/notes");
}

#[test]
fn state_resolve_relative_handles_parent_dir() {
    assert_eq!(App::resolve_relative("/docs/2024", ".."), "/docs");
}

#[test]
fn state_resolve_relative_parent_dir_at_root_stays_at_root() {
    assert_eq!(App::resolve_relative("/", ".."), "/");
}

#[test]
fn state_resolve_relative_handles_current_dir_component() {
    assert_eq!(App::resolve_relative("/docs", "./notes"), "/docs/notes");
}

#[test]
fn resolve_relative_collapses_repeated_slashes_and_dots() {
    assert_eq!(App::resolve_relative("/a//b/", "./c/../d/"), "/a/b/d");
    assert_eq!(App::resolve_relative("/a", "../../.."), "/");
}

// --- resolve_local_path ---

#[test]
fn app_resolve_local_path_nonexistent_path_errors() {
    let mut app = App::new();
    app.set_local_root(Some("/home/user".to_string()));
    let result = app.resolve_local_path(
        "/home/user/missing.txt",
        Err("No such file or directory (os error 2)".to_string()),
    );
    assert!(result.is_err());
}

#[test]
fn app_resolve_local_path_errors_when_no_local_vault_configured() {
    let app = App::new();
    let result = app.resolve_local_path("/tmp", Ok("/tmp".to_string()));
    assert!(result.is_err());
}

#[test]
fn state_resolve_local_path_nonexistent_path_errors() {
    let mut app = App::new();
    app.set_local_root(Some("/home/user".to_string()));
    let result = app.resolve_local_path(
        "/home/user/missing.txt",
        Err("No such file or directory (os error 2)".to_string()),
    );
    assert!(result.is_err());
}

#[test]
fn state_resolve_local_path_errors_when_no_local_vault_configured() {
    let app = App::new();
    let result = app.resolve_local_path("/tmp", Ok("/tmp".to_string()));
    assert!(result.is_err());
}

#[test]
fn resolve_local_path_within_root_gives_the_vault_path() {
    let mut app = App::new();
    app.set_local_root(Some("/home/user".to_string()));
    assert!(app.has_local_root());
    assert_eq!(
        app.resolve_local_path("notes.txt", Ok("/home/user/notes.txt".to_string())),
        Ok("/notes.txt".to_string())
    );
    assert_eq!(
        app.resolve_local_path(".", Ok("/home/user".to_string())),
        Ok("/".to_string())
    );
    assert_eq!(
        app.resolve_local_path("a/b", Ok("/home/user/a/b".to_string())),
        Ok("/a/b".to_string())
    );
}

#[test]
fn resolve_local_path_outside_the_root_is_refused_with_both_paths() {
    let mut app = App::new();
    app.set_local_root(Some("/home/user".to_string()));
    let err = app
        .resolve_local_path("../other/secret.txt", Ok("/home/other/secret.txt".to_string()))
        .unwrap_err();
    assert_eq!(
        err,
        AppError::OutsideLocalVault("../other/secret.txt".to_string(), "/home/user".to_string())
    );
    assert_eq!(
        err.message(),
        "path '../other/secret.txt' is outside the local vault (root: /home/user)"
    );
    // a sibling whose name merely starts with the root's name is outside too
    assert!(app
        .resolve_local_path("x", Ok("/home/username/x".to_string()))
        .is_err());
}

#[test]
fn resolve_local_path_reports_no_local_vault_and_inaccessible_paths() {
    let app = App::new();
    assert!(!app.has_local_root());
    let err = app.resolve_local_path("/tmp", Ok("/tmp".to_string())).unwrap_err();
    assert_eq!(err, AppError::LocalRootUnset);
    assert_eq!(
        err.message(),
        "no local vault configured (default_local_vault is disabled)"
    );
    let mut app = App::new();
    app.set_local_root(Some("/r".to_string()));
    let err = app.resolve_local_path("/r/x", Err("gone".to_string())).unwrap_err();
    assert_eq!(err.message(), "PATH DOESN'T EXIST OR IT IS INACCESSIBLE: gone");
}

// --- select ---

#[test]
fn app_select_sets_current_vault_and_resets_cwd() {
    let mut app = app_with(&["v1"]);
    app.select("v1".to_string()).unwrap();
    assert_eq!(app.current_vault().as_deref(), Some("v1"));
    assert_eq!(app.pwd(), "/");
    assert_eq!(app.cwd().as_str(), "");
}

#[test]
fn app_select_unknown_vault_errors() {
    let mut app = App::new();
    assert!(app.select("missing".to_string()).is_err());
}

#[test]
fn state_select_sets_current_vault_and_resets_cwd() {
    let mut app = app_with(&["v1"]);
    app.select("v1".to_string()).unwrap();
    assert_eq!(app.current_vault().as_deref(), Some("v1"));
    assert_eq!(app.pwd(), "/");
    assert_eq!(app.cwd().as_str(), "");
}

#[test]
fn state_select_unknown_vault_errors() {
    let mut app = App::new();
    assert!(app.select("missing".to_string()).is_err());
}

#[test]
fn select_unknown_vault_names_it_and_keeps_the_state() {
    let mut app = app_with(&["v1"]);
    app.select("v1".to_string()).unwrap();
    app.enter(ObjectId::from_str("docs"), "/docs".to_string());
    let err = app.select("nope".to_string()).unwrap_err();
    assert_eq!(err, AppError::UnknownVault("nope".to_string()));
    assert_eq!(err.message(), "VAULT 'nope' DOESN'T EXITS");
    assert_eq!(app.current_vault().as_deref(), Some("v1"));
    assert_eq!(app.pwd(), "/docs");
}

// --- new_vault / forget_vault ---

#[test]
fn new_vault_refuses_a_name_already_taken_by_a_different_config() {
    let mut app = App::new();
    let first = "/cfg/first.toml".to_string();
    let second = "/cfg/second.toml".to_string();
    app.new_vault("shared-name".to_string(), ObjectId::from_str(""), first.clone())
        .unwrap();
    assert!(app
        .new_vault("shared-name".to_string(), ObjectId::from_str(""), second)
        .is_err());
    assert_eq!(app.vault_config(&"shared-name".to_string()), Some(first));
}

#[test]
fn new_vault_re_registering_the_same_config_is_allowed() {
    let mut app = App::new();
    let path = "/cfg/v.toml".to_string();
    app.new_vault("reloadable".to_string(), ObjectId::from_str(""), path.clone())
        .unwrap();
    app.new_vault("reloadable".to_string(), ObjectId::from_str(""), path.clone())
        .unwrap();
    assert_eq!(app.vault_config(&"reloadable".to_string()), Some(path));
}

#[test]
fn forget_vault_frees_the_name_for_a_different_config() {
    let mut app = App::new();
    let first = "/cfg/first.toml".to_string();
    let second = "/cfg/second.toml".to_string();
    app.new_vault("shared-name".to_string(), ObjectId::from_str(""), first)
        .unwrap();
    app.forget_vault("shared-name".to_string()).unwrap();
    app.new_vault("shared-name".to_string(), ObjectId::from_str(""), second.clone())
        .unwrap();
    assert_eq!(app.vault_config(&"shared-name".to_string()), Some(second));
}

#[test]
fn new_vault_refusal_names_the_existing_config() {
    let mut app = App::new();
    app.new_vault("n".to_string(), ObjectId::from_str("r"), "/a.toml".to_string())
        .unwrap();
    let err = app
        .new_vault("n".to_string(), ObjectId::from_str("r"), "/b.toml".to_string())
        .unwrap_err();
    assert_eq!(
        err,
        AppError::AlreadyRegistered("n".to_string(), "/a.toml".to_string())
    );
    assert_eq!(app.registered_names(), vec!["n".to_string()]);
    assert!(app.has_vault(&"n".to_string()));
    assert_eq!(app.vault_root(&"n".to_string()).unwrap().as_str(), "r");
}

#[test]
fn forget_vault_clears_the_cwd_when_it_was_the_current_vault() {
    let mut app = app_with(&["v1"]);
    app.select("v1".to_string()).unwrap();
    app.forget_vault("v1".to_string()).unwrap();
    assert_eq!(app.current_vault(), None);
    assert_eq!(app.pwd(), "/");
}

#[test]
fn forget_vault_refuses_the_local_vault_and_unknown_names() {
    let mut app = app_with(&[LOCAL_VAULT_NAME]);
    assert!(app.forget_vault(LOCAL_VAULT_NAME.to_string()).is_err());
    assert!(app.has_vault(&LOCAL_VAULT_NAME.to_string()));
    assert!(app.forget_vault("nope".to_string()).is_err());
}

#[test]
fn forgetting_another_vault_keeps_the_current_one() {
    let mut app = app_with(&["v1", "v2"]);
    app.select("v1".to_string()).unwrap();
    app.forget_vault("v2".to_string()).unwrap();
    assert_eq!(app.current_vault().as_deref(), Some("v1"));
    assert_eq!(app.vault_names(), vec!["v1".to_string()]);
    assert_eq!(
        app.forget_vault(LOCAL_VAULT_NAME.to_string()),
        Err(AppError::LocalVaultManaged)
    );
}

#[test]
fn vault_names_are_sorted() {
    let app = app_with(&["zeta", "alpha", "Mid"]);
    assert_eq!(
        app.vault_names(),
        vec!["Mid".to_string(), "alpha".to_string(), "zeta".to_string()]
    );
}

// --- vault:path specs ---

#[test]
fn split_vault_spec_recognises_a_known_vault_prefix() {
    let app = app_with(&["v1"]);
    assert_eq!(
        app.split_vault_spec("v1:/docs"),
        (Some("v1".to_string()), "/docs".to_string())
    );
    assert_eq!(app.split_vault_spec("v1:"), (Some("v1".to_string()), String::new()));
}

#[test]
fn split_vault_spec_leaves_unqualified_and_unknown_prefixes_as_paths() {
    let app = app_with(&["v1"]);
    assert_eq!(
        app.split_vault_spec("docs/notes.txt"),
        (None, "docs/notes.txt".to_string())
    );
    assert_eq!(
        app.split_vault_spec("weird:name.txt"),
        (None, "weird:name.txt".to_string())
    );
}

#[test]
fn resolve_spec_qualified_resolves_from_that_vaults_root_not_the_current_cwd() {
    let mut app = app_with(&["v1", "v2"]);
    app.select("v1".to_string()).unwrap();
    app.enter(ObjectId::from_str("deep/nested"), "/deep/nested".to_string());

    let (vault, path) = app.resolve_spec("v2:/inbox", None).unwrap();
    assert_eq!(vault, "v2");
    assert_eq!(path, "/inbox");

    let (vault, path) = app.resolve_spec("sub", None).unwrap();
    assert_eq!(vault, "v1");
    assert_eq!(path, "/deep/nested/sub");
}

#[test]
fn resolve_spec_needs_a_vault_when_none_is_selected() {
    let app = app_with(&["v1"]);
    assert_eq!(app.resolve_spec("docs", None), Err(AppError::NoVaultSelected));
    assert_eq!(
        app.resolve_spec("docs", Some("v1")),
        Ok(("v1".to_string(), "/docs".to_string()))
    );
}

// --- the CLI config ---

#[test]
fn config_local_path_returns_configured_path_when_set() {
    let cfg = CliConfig {
        default_local_vault: true,
        local_vault_path: Some("/srv/data".to_string()),
    };
    assert_eq!(cfg.local_path(), "/srv/data");
}

#[test]
fn config_local_path_falls_back_to_home_dir_when_unset() {
    let cfg = CliConfig {
        default_local_vault: true,
        local_vault_path: None,
    };
    let expected = dirs::home_dir()
        .map(|p| p.to_string_lossy().into_owned())
        .unwrap_or_else(|| "/".to_string());
    assert_eq!(cfg.local_path(), expected);
}

#[test]
fn local_path_with_prefers_the_configured_path_then_home_then_root() {
    let set = CliConfig {
        default_local_vault: false,
        local_vault_path: Some("/srv".to_string()),
    };
    assert_eq!(set.local_path_with(Some("/home/u")), "/srv");
    let unset = CliConfig::default();
    assert!(unset.default_local_vault);
    assert_eq!(unset.local_path_with(Some("/home/u")), "/home/u");
    assert_eq!(unset.local_path_with(None), "/");
    assert_eq!(
        CliConfig::path_under("/home/u/.config"),
        "/home/u/.config/.nimbus/cli_config.toml"
    );
}

// --- cd completion ---

use nimbus::object::{Metadata, Object};
use nimbus::session::{branch_completions, CdCompletion};

fn dir(name: &str) -> Object {
    Object::branch(name.to_string(), ObjectId::from_str(name), Metadata::new(), Vec::new())
}

fn file(name: &str) -> Object {
    Object::leaf(name.to_string(), ObjectId::from_str(name), Metadata::new())
}

#[test]
fn cd_completions_at_the_top_level_offer_matching_vault_names_sorted() {
    let app = app_with(&["work", "web", "home"]);
    assert_eq!(
        app.cd_completions("w"),
        CdCompletion::Names(vec!["web".to_string(), "work".to_string()])
    );
    assert_eq!(app.cd_completions("x"), CdCompletion::Names(Vec::new()));
}

#[test]
fn cd_completions_past_a_vault_name_list_that_vault_from_its_root() {
    let app = app_with(&["work"]);
    assert_eq!(
        app.cd_completions("work/docs/re"),
        CdCompletion::Branches {
            vault: "work".to_string(),
            dir: "/docs".to_string(),
            prefix: "re".to_string(),
            shown: "work/docs/".to_string(),
        }
    );
    assert_eq!(
        app.cd_completions("work/"),
        CdCompletion::Branches {
            vault: "work".to_string(),
            dir: "/".to_string(),
            prefix: String::new(),
            shown: "work/".to_string(),
        }
    );
    assert_eq!(app.cd_completions("nope/x"), CdCompletion::Names(Vec::new()));
}

#[test]
fn cd_completions_inside_a_vault_list_from_the_working_directory() {
    let mut app = app_with(&["work"]);
    app.select("work".to_string()).unwrap();
    app.enter(ObjectId::from_str("a"), "/a".to_string());
    assert_eq!(
        app.cd_completions("b/c"),
        CdCompletion::Branches {
            vault: "work".to_string(),
            dir: "/a/b".to_string(),
            prefix: "c".to_string(),
            shown: "b/".to_string(),
        }
    );
    assert_eq!(
        app.cd_completions("x"),
        CdCompletion::Branches {
            vault: "work".to_string(),
            dir: "/a".to_string(),
            prefix: "x".to_string(),
            shown: String::new(),
        }
    );
}

#[test]
fn branch_completions_keep_matching_directories_sorted_behind_the_shown_prefix() {
    let children = vec![dir("reports"), file("readme.md"), dir("recipes"), dir("archive")];
    assert_eq!(
        branch_completions(&children, "re", "docs/"),
        vec!["docs/recipes".to_string(), "docs/reports".to_string()]
    );
    assert_eq!(
        branch_completions(&children, "", ""),
        vec!["archive".to_string(), "recipes".to_string(), "reports".to_string()]
    );
    assert!(branch_completions(&children, "zz", "").is_empty());
}

#[test]
fn put_lands_in_the_working_directory_unless_told_otherwise() {
    let mut app = app_with(&["v1"]);
    app.select("v1".to_string()).unwrap();
    app.enter(ObjectId::from_str("docs"), "/docs".to_string());
    assert_eq!(app.put_destination(None), "/docs");
    assert_eq!(app.put_destination(Some("sub")), "/docs/sub");
    assert_eq!(app.put_destination(Some("/other")), "/other");
}

#[test]
fn the_local_vault_must_be_open_for_transfers_with_it() {
    let app = app_with(&["v1"]);
    let err = app.local_vault_root().unwrap_err();
    assert_eq!(err, AppError::NoLocalVault);
    assert_eq!(err.message(), "NO LOCAL VAULT CONFIGURED");
    let mut app = App::new();
    app.add_vault(LOCAL_VAULT_NAME.to_string(), ObjectId::from_str("/"));
    assert_eq!(app.local_vault_root().unwrap().as_str(), "/");
}

// --- copy destinations and deletes ---

use nimbus::session::{check_empty, delete_needs_listing, destination_parts, existing_destination, new_destination, Destination};

#[test]
fn an_existing_directory_destination_is_copied_into() {
    let dir = Object::branch("inbox".to_string(), ObjectId::from_str("inbox"), Metadata::new(), Vec::new());
    let r = existing_destination("/inbox", ObjectId::from_str("inbox-id"), &dir);
    assert!(matches!(r, Ok(Destination::Into(id)) if id.as_str() == "inbox-id"));
    let r = existing_destination("/", ObjectId::from_str("/"), &Object::root());
    assert!(matches!(r, Ok(Destination::Into(_))));
}

#[test]
fn an_existing_file_destination_is_refused() {
    let file = Object::leaf("a.txt".to_string(), ObjectId::from_str("a.txt"), Metadata::new());
    let r = existing_destination("/a.txt", ObjectId::from_str("a.txt"), &file);
    match r {
        Err(e) => {
            assert_eq!(e, AppError::AlreadyExists("/a.txt".to_string()));
            assert_eq!(e.message(), "'/a.txt' already exists");
        }
        Ok(_) => panic!("an existing file must not be overwritten"),
    }
}

#[test]
fn a_new_destination_lands_in_its_parent_under_its_name() {
    let (parent, name) = destination_parts("/inbox/copy.txt").unwrap();
    assert_eq!((parent.as_str(), name.as_str()), ("/inbox", "copy.txt"));
    let dir = Object::branch("inbox".to_string(), ObjectId::from_str("inbox"), Metadata::new(), Vec::new());
    let r = new_destination(parent, name, Some((ObjectId::from_str("inbox-id"), dir)));
    assert!(matches!(r, Ok(Destination::As(id, n)) if id.as_str() == "inbox-id" && n == "copy.txt"));
}

#[test]
fn a_new_destination_needs_an_existing_directory_parent() {
    let r = new_destination("/nowhere".to_string(), "x".to_string(), None);
    assert!(matches!(r, Err(AppError::NoSuchDirectory(p)) if p == "/nowhere"));
    let file = Object::leaf("a.txt".to_string(), ObjectId::from_str("a.txt"), Metadata::new());
    let r = new_destination("/a.txt".to_string(), "x".to_string(), Some((ObjectId::from_str("a.txt"), file)));
    match r {
        Err(e) => assert_eq!(e.message(), "'/a.txt' is not a directory"),
        Ok(_) => panic!("a file cannot hold a copy"),
    }
}

#[test]
fn only_a_directory_deleted_without_force_is_checked_for_contents() {
    let dir = Object::branch("d".to_string(), ObjectId::from_str("d"), Metadata::new(), Vec::new());
    let file = Object::leaf("f".to_string(), ObjectId::from_str("f"), Metadata::new());
    assert!(delete_needs_listing(false, &dir));
    assert!(!delete_needs_listing(true, &dir));
    assert!(!delete_needs_listing(false, &file));
    assert!(check_empty("/d", 0).is_ok());
    match check_empty("/d", 2) {
        Err(e) => assert_eq!(e.message(), "'/d' is not empty — use --force to delete recursively"),
        Ok(()) => panic!("a full directory must not be deleted without force"),
    }
}
