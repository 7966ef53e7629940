use nimbus::config::{config_home, config_home_from, OriginConfig, VaultConfig};
use nimbus::error::VaultError;
use nimbus::object::{Metadata, Object, ObjectId, ObjectType, Timestamp, ROOT_NAME};
use nimbus::origin_command::{command_failed, CmdType, OriginCommand};
use nimbus::origin_fs::OriginFileSystem;
use nimbus::origin_http::{classify_status, put_id, HttpAuth, HttpOp, OriginHTTP, SecretSource};
use nimbus::strmap::StrMap;

// --- ids ---

#[test]
fn object_id_from_string_and_str() {
    let a = ObjectId::from(String::from("abc"));
    let b = ObjectId::from_str("abc");
    assert_eq!(a.as_str(), "abc");
    assert_eq!(b.as_str(), "abc");
    assert_eq!(a.to_string(), "abc");
    let s: String = a.into_string();
    assert_eq!(s, "abc");
}

#[test]
fn object_id_default_and_is_root() {
    let default_id = ObjectId::default();
    assert_eq!(default_id.as_str(), nimbus::ROOT_ID);
    assert!(default_id.is_root());
    assert!(!ObjectId::from_str("child").is_root());
}

// --- metadata and objects ---

#[test]
fn metadata_builder_sets_fields() {
    let mut meta = Metadata::new();
    meta.set_size(42).set_content_type("text/plain".to_string()).add_extra("k".to_string(), "v".to_string());
    assert_eq!(meta.size, Some(42));
    assert_eq!(meta.content_type.as_deref(), Some("text/plain"));
    assert_eq!(meta.extra.get(&"k".to_string()), Some("v".to_string()));
    assert!(meta.modified.is_none());
}

#[test]
fn metadata_default_is_empty() {
    let meta = Metadata::new();
    assert!(meta.size.is_none());
    assert!(meta.content_type.is_none());
    assert!(meta.modified.is_none());
    assert!(meta.extra.is_empty());
}

#[test]
fn root_object_has_slash_id_and_no_children() {
    let root = Object::root();
    assert_eq!(root.get_id().as_str(), nimbus::ROOT_ID);
    assert_eq!(root.get_name(), ROOT_NAME);
    assert!(root.get_meta().is_none());
}

#[test]
fn leaf_and_branch_accessors() {
    let leaf = Object::leaf("file".to_string(), ObjectId::from_str("f1"), Metadata::new());
    assert_eq!(leaf.get_id().as_str(), "f1");
    assert_eq!(leaf.get_name(), "file");
    assert!(leaf.get_meta().is_some());
    let branch = Object::branch("dir".to_string(), ObjectId::from_str("d1"), Metadata::new(), vec![ObjectId::from_str("f1")]);
    assert_eq!(branch.get_id().as_str(), "d1");
    assert_eq!(branch.get_name(), "dir");
    match branch {
        Object::Branch { children, .. } => assert_eq!(children.unwrap().len(), 1),
        _ => panic!("expected branch"),
    }
}

#[test]
fn push_leaf_onto_root_appends_child() {
    let mut root = Object::root();
    root.push(ObjectType::Leaf, "file".to_string(), ObjectId::from_str("f1"), Metadata::new(), None).unwrap();
    match &root {
        Object::Root { children, .. } => {
            let children = children.as_ref().unwrap();
            assert_eq!(children.len(), 1);
            assert_eq!(children[0].as_str(), "f1");
        }
        _ => panic!("expected root"),
    }
}

#[test]
fn push_multiple_children_appends_in_order() {
    let mut branch = Object::branch("dir".to_string(), ObjectId::from_str("d1"), Metadata::new(), vec![]);
    branch.push(ObjectType::Leaf, "a".to_string(), ObjectId::from_str("a"), Metadata::new(), None).unwrap();
    branch
        .push(ObjectType::Branch, "b".to_string(), ObjectId::from_str("b"), Metadata::new(), Some(vec![ObjectId::from_str("nested")]))
        .unwrap();
    match branch {
        Object::Branch { children, .. } => {
            let children = children.unwrap();
            assert_eq!(children.len(), 2);
            assert_eq!(children[0].as_str(), "a");
            assert_eq!(children[1].as_str(), "b");
        }
        _ => panic!("expected branch"),
    }
}

#[test]
fn push_onto_leaf_is_invalid() {
    let mut leaf = Object::leaf("file".to_string(), ObjectId::from_str("f1"), Metadata::new());
    let result = leaf.push(ObjectType::Leaf, "child".to_string(), ObjectId::from_str("c1"), Metadata::new(), None);
    assert!(matches!(result, Err(VaultError::InvalidMethodCall)));
}

#[test]
fn changed_is_false_for_identical_metadata() {
    let a = Object::leaf("file".to_string(), ObjectId::from_str("f1"), Metadata::new());
    let b = Object::leaf("file".to_string(), ObjectId::from_str("f1"), Metadata::new());
    assert!(!a.changed(&b));
}

#[test]
fn changed_is_true_for_diverging_metadata() {
    let mut remote_meta = Metadata::new();
    remote_meta.set_size(42);
    let a = Object::leaf("file".to_string(), ObjectId::from_str("f1"), Metadata::new());
    let b = Object::leaf("file".to_string(), ObjectId::from_str("f1"), remote_meta);
    assert!(a.changed(&b));
}

#[test]
fn changed_is_false_when_either_side_has_no_metadata() {
    let root = Object::root();
    let leaf = Object::leaf("file".to_string(), ObjectId::from_str("f1"), Metadata::new());
    assert!(!root.changed(&leaf));
    assert!(!leaf.changed(&root));
}

#[test]
fn pushing_root_object_type_is_invalid() {
    let mut root = Object::root();
    let result = root.push(ObjectType::Root, "x".to_string(), ObjectId::from_str("x"), Metadata::new(), None);
    assert!(matches!(result, Err(VaultError::InvalidMethodCall)));
}

#[test]
fn the_order_extra_entries_were_added_in_does_not_change_the_hash() {
    let mut a = Metadata::new();
    a.add_extra("x".to_string(), "1".to_string()).add_extra("y".to_string(), "2".to_string());
    let mut b = Metadata::new();
    b.add_extra("y".to_string(), "2".to_string()).add_extra("x".to_string(), "1".to_string());
    assert_eq!(a.hash_value(), b.hash_value());
    b.add_extra("x".to_string(), "3".to_string());
    assert_ne!(a.hash_value(), b.hash_value());
    let mut c = Metadata::new();
    c.set_modified(Timestamp { secs: 1_700_000_000, nanos: 0 });
    assert_ne!(c.hash_value(), Metadata::new().hash_value());
}

#[test]
fn vault_errors_read_as_before() {
    assert_eq!(VaultError::NotFound("notes.txt".to_string()).message(), "Object not found: notes.txt");
    assert_eq!(
        VaultError::FetchToVaultWithNoOrigin("v".to_string()).message(),
        "Called fetch on vault v, but v has no Origin defined"
    );
    assert!(VaultError::NotFound(String::new()).is_not_found());
    assert!(!VaultError::Locked.is_not_found());
}

// --- command origin ---

fn commands(put: &str, send: &str, extra: Option<StrMap>) -> OriginCommand {
    OriginCommand::new(
        "echo fetch {id}".to_string(),
        "echo list {id}".to_string(),
        "echo get {id}".to_string(),
        put.to_string(),
        send.to_string(),
        "echo delete {id}".to_string(),
        extra,
    )
}

#[test]
fn cmd_type_as_str_maps_variants() {
    assert_eq!(CmdType::Fetch.as_str(), "fetch_cmd");
    assert_eq!(CmdType::List.as_str(), "list_cmd");
    assert_eq!(CmdType::Get.as_str(), "get_cmd");
    assert_eq!(CmdType::Put.as_str(), "put_cmd");
    assert_eq!(CmdType::Send.as_str(), "send_cmd");
    assert_eq!(CmdType::Delete.as_str(), "delete_cmd");
    assert_eq!(CmdType::Fetch.to_string(), "fetch_cmd");
}

#[test]
fn interpolate_one_replaces_placeholder() {
    let mut template = "hello {name}!".to_string();
    OriginCommand::interpolate_one(&mut template, "name", "world");
    assert_eq!(template, "hello world!");
}

#[test]
fn interpolate_replaces_all_vars() {
    let mut template = "{a} and {b}".to_string();
    let mut vars = StrMap::new();
    vars.insert("a".to_string(), "1".to_string());
    vars.insert("b".to_string(), "2".to_string());
    OriginCommand::interpolate(&mut template, &vars);
    assert_eq!(template, "1 and 2");
}

#[test]
fn bootstrap_cmd_id_substitutes_id_and_extra_vars() {
    let mut extra = StrMap::new();
    extra.insert("token".to_string(), "secret".to_string());
    let cmd = OriginCommand::new(
        "fetch --id {id} --token {token}".to_string(),
        "l".to_string(),
        "g".to_string(),
        "p".to_string(),
        "s".to_string(),
        "d".to_string(),
        Some(extra),
    );
    assert_eq!(cmd.bootstrap_cmd_id(&CmdType::Fetch, &ObjectId::from_str("obj1")), "fetch --id obj1 --token secret");
}

#[test]
fn bootstrap_cmd_object_substitutes_metadata_fields() {
    let cmd = commands("put {id} {name} {size} {content_type}", "echo send {id}", None);
    let mut meta = Metadata::new();
    meta.set_size(10).set_content_type("text/plain".to_string());
    let object = Object::leaf("file.txt".to_string(), ObjectId::from_str("f1"), meta);
    assert_eq!(cmd.bootstrap_cmd_object(&CmdType::Put, &object).unwrap(), "put f1 file.txt 10 text/plain");
}

#[test]
fn bootstrap_cmd_object_defaults_missing_metadata_fields() {
    let cmd = commands("put {size} {content_type} {modified}", "echo send {id}", None);
    let object = Object::leaf("file.txt".to_string(), ObjectId::from_str("f1"), Metadata::new());
    assert_eq!(cmd.bootstrap_cmd_object(&CmdType::Put, &object).unwrap(), "put 0 unknown ");
}

#[test]
fn bootstrap_cmd_object_uses_send_cmd_template_for_send() {
    let cmd = commands("put {id}", "send {id}", None);
    let object = Object::leaf("file.txt".to_string(), ObjectId::from_str("f1"), Metadata::new());
    assert_eq!(cmd.bootstrap_cmd_object(&CmdType::Send, &object).unwrap(), "send f1");
}

#[test]
fn bootstrap_cmd_object_rejects_non_put_send_types() {
    let cmd = commands("put {id}", "send {id}", None);
    let object = Object::leaf("file.txt".to_string(), ObjectId::from_str("f1"), Metadata::new());
    assert!(matches!(cmd.bootstrap_cmd_object(&CmdType::Get, &object), Err(VaultError::InvalidMethodCall)));
}

#[test]
fn bootstrap_cmd_object_errors_on_root_object() {
    let cmd = commands("put {id}", "send {id}", None);
    assert!(matches!(cmd.bootstrap_cmd_object(&CmdType::Put, &Object::root()), Err(VaultError::Unreachable)));
}

#[test]
fn the_modified_time_is_written_in_utc() {
    let cmd = commands("put {modified}", "send", None);
    let mut meta = Metadata::new();
    meta.set_modified(Timestamp { secs: 0, nanos: 0 });
    let object = Object::leaf("f".to_string(), ObjectId::from_str("f"), meta);
    assert_eq!(cmd.bootstrap_cmd_object(&CmdType::Put, &object).unwrap(), "put 1970-01-01 00:00:00 UTC");
}

#[test]
fn the_put_destination_is_refreshed_on_every_put() {
    let mut cmd = commands("put {destination}", "send", None);
    cmd.remember_destination(&ObjectId::from_str("first"));
    cmd.remember_destination(&ObjectId::from_str("second"));
    assert_eq!(cmd.bootstrap_cmd_id(&CmdType::Put, &ObjectId::from_str("x")), "put second");
    let object = Object::leaf("f.txt".to_string(), ObjectId::from_str("f1"), Metadata::new());
    assert_eq!(cmd.bootstrap_cmd_object(&CmdType::Put, &object).unwrap(), "put second");
}

#[test]
fn an_upload_command_gets_the_configured_extras_and_the_kind() {
    let mut extras = StrMap::new();
    extras.insert("root".to_string(), "/srv".to_string());
    extras.insert("destination".to_string(), "dir".to_string());
    let cmd = commands("put {root} {destination} {name} {kind}", "send {root}/{id} {kind}", Some(extras));
    let leaf = Object::leaf("f.txt".to_string(), ObjectId::from_str("f1"), Metadata::new());
    assert_eq!(cmd.bootstrap_cmd_object(&CmdType::Put, &leaf).unwrap(), "put /srv dir f.txt leaf");
    let dir = Object::branch("d".to_string(), ObjectId::from_str("d1"), Metadata::new(), Vec::new());
    assert_eq!(cmd.bootstrap_cmd_object(&CmdType::Send, &dir).unwrap(), "send /srv/d1 branch");
}

#[test]
fn a_failed_command_reports_its_trimmed_error_output() {
    match command_failed(&CmdType::List, &ObjectId::from_str("dir"), "  boom \n") {
        VaultError::Generic(m) => assert_eq!(m, "list_cmd failed for dir: boom"),
        other => panic!("unexpected {other:?}"),
    }
}

// --- http origin ---

fn bearer(token: &str) -> HttpAuth {
    HttpAuth::Bearer { token: Some(token.to_string()), token_env: None, token_file: None }
}

/// Stands in for the environment and the filesystem: one variable and one file exist.
fn read(source: &SecretSource) -> Result<String, String> {
    match source {
        SecretSource::Literal(t) => Ok(t.clone()),
        SecretSource::Env(name) if name == "NIMBUS_TEST_TOKEN_FROM_ENV" => Ok("s3cr3t".to_string()),
        SecretSource::Env(_) => Err("environment variable not found".to_string()),
        SecretSource::File(path) if path == "/secrets/token" => Ok("s3cr3t\r\n".to_string()),
        SecretSource::File(_) => Err("No such file or directory (os error 2)".to_string()),
    }
}

fn message(e: VaultError) -> String {
    e.message()
}

#[test]
fn no_credentials_means_no_header_value() {
    assert_eq!(HttpAuth::NoAuth.header_value(read).unwrap(), None);
}

#[test]
fn a_literal_token_becomes_a_bearer_header() {
    assert_eq!(bearer("s3cr3t").header_value(read).unwrap(), Some("Bearer s3cr3t".to_string()));
}

#[test]
fn a_token_can_come_from_a_file_without_its_trailing_newline() {
    let auth = HttpAuth::Bearer { token: None, token_env: None, token_file: Some("/secrets/token".to_string()) };
    assert_eq!(auth.header_value(read).unwrap(), Some("Bearer s3cr3t".to_string()));
}

#[test]
fn a_missing_token_file_is_reported_with_its_path() {
    let auth = HttpAuth::Bearer { token: None, token_env: None, token_file: Some("/nonexistent/token".to_string()) };
    let error = message(auth.header_value(read).unwrap_err());
    assert!(error.contains("/nonexistent/token"), "{error}");
}

#[test]
fn a_token_can_come_from_the_environment() {
    let auth = HttpAuth::Bearer { token: None, token_env: Some("NIMBUS_TEST_TOKEN_FROM_ENV".to_string()), token_file: None };
    assert_eq!(auth.header_value(read).unwrap(), Some("Bearer s3cr3t".to_string()));
}

#[test]
fn an_unset_environment_variable_is_reported_by_name() {
    let auth = HttpAuth::Bearer { token: None, token_env: Some("NIMBUS_TEST_TOKEN_NEVER_SET".to_string()), token_file: None };
    let error = message(auth.header_value(read).unwrap_err());
    assert!(error.contains("NIMBUS_TEST_TOKEN_NEVER_SET"), "{error}");
}

#[test]
fn a_bearer_with_no_source_at_all_is_an_error() {
    let auth = HttpAuth::Bearer { token: None, token_env: None, token_file: None };
    let error = message(auth.header_value(read).unwrap_err());
    assert!(error.contains("set one of"), "{error}");
}

#[test]
fn two_token_sources_at_once_are_refused_rather_than_ranked() {
    let auth = HttpAuth::Bearer {
        token: Some("from-config".to_string()),
        token_env: Some("NIMBUS_TEST_TOKEN_UNUSED".to_string()),
        token_file: None,
    };
    let error = message(auth.header_value(read).unwrap_err());
    assert!(error.contains("only one"), "{error}");
}

#[test]
fn an_empty_token_is_an_error_rather_than_an_empty_header() {
    let error = message(bearer("").header_value(read).unwrap_err());
    assert!(error.contains("empty"), "{error}");
}

fn origin(base: &str) -> OriginHTTP {
    OriginHTTP::new(
        base.to_string(),
        "/fetch/{id}".to_string(),
        "/list/{id}".to_string(),
        "/get/{id}".to_string(),
        "/put/{id}".to_string(),
        "/send/{id}".to_string(),
        "/delete/{id}".to_string(),
    )
}

#[test]
fn a_token_that_cannot_be_a_header_is_refused_when_the_origin_is_built() {
    let header = bearer("line\nbreak").header_value(read).unwrap();
    assert!(origin("http://x").with_auth(header).is_err());
    let header = bearer("fine").header_value(read).unwrap();
    let built = origin("http://x").with_auth(header).unwrap();
    assert_eq!(built.authorization(), Some("Bearer fine".to_string()));
}

#[test]
fn url_substitutes_id_into_template() {
    assert_eq!(origin("http://x").url(HttpOp::Fetch, &ObjectId::from_str("obj1")), "http://x/fetch/obj1");
}

#[test]
fn url_trims_trailing_slash_on_base() {
    assert_eq!(origin("http://x/").url(HttpOp::Fetch, &ObjectId::from_str("obj1")), "http://x/fetch/obj1");
}

#[test]
fn statuses_map_to_outcomes() {
    assert!(classify_status(204, "u", Some("No Content")).is_ok());
    assert_eq!(classify_status(404, "http://x/get/a", None), Err(VaultError::NotFound("http://x/get/a".to_string())));
    match classify_status(401, "u", Some("Unauthorized")) {
        Err(VaultError::OriginError(m)) => {
            assert!(m.contains("401 Unauthorized"), "{m}");
            assert!(m.contains("origin_config.auth"), "{m}");
        }
        other => panic!("unexpected {other:?}"),
    }
    match nimbus::origin_http::status_error(500, "u") {
        Err(VaultError::OriginError(m)) => assert_eq!(m, "request to u failed with status 500 Internal Server Error"),
        other => panic!("unexpected {other:?}"),
    }
    assert_eq!(put_id(&ObjectId::from_str("dir"), "file.txt").as_str(), "dir/file.txt");
}

// --- filesystem origin ---

#[test]
fn filesystem_ids_are_paths_under_the_root() {
    assert_eq!(OriginFileSystem::relative(&ObjectId::from_str("/docs/")), "docs");
    assert_eq!(OriginFileSystem::relative(&ObjectId::from_str("/")), "");
    let fs = OriginFileSystem::new("/srv/data".to_string());
    assert_eq!(fs.path(&ObjectId::from_str("/")), "/srv/data");
    assert_eq!(fs.path(&ObjectId::from_str("docs/a.txt")), "/srv/data/docs/a.txt");
    assert_eq!(OriginFileSystem::child_id(&ObjectId::from_str("/"), "a"), ObjectId::from_str("a"));
    assert_eq!(OriginFileSystem::child_id(&ObjectId::from_str("docs/"), "a"), ObjectId::from_str("docs/a"));
}

// --- configs ---

#[test]
fn default_path_is_a_named_file_in_the_default_dir() {
    let path = VaultConfig::default_path("backup");
    let path = std::path::Path::new(&path);
    let dir = VaultConfig::default_dir();
    assert_eq!(path.parent(), Some(std::path::Path::new(&dir)));
    assert_eq!(path.file_name().unwrap(), "backup.toml");
}

#[test]
fn default_dir_lives_under_the_nimbus_config_home() {
    assert!(std::path::Path::new(&VaultConfig::default_dir()).starts_with(config_home()));
}

#[test]
fn a_vault_config_keeps_its_parts() {
    let config = VaultConfig::new("v".to_string(), ObjectId::default(), OriginConfig::Fs { root: "/data".to_string() });
    assert_eq!(config.name(), "v");
    assert!(config.root_id().is_root());
    assert!(matches!(config.origin_config(), OriginConfig::Fs { root } if root == "/data"));
}

#[test]
fn the_config_home_is_dot_nimbus_in_the_user_config_dir_or_here() {
    assert_eq!(config_home_from(Some("/home/u/.config".to_string())), "/home/u/.config/.nimbus");
    assert_eq!(config_home_from(Some("/home/u/.config/".to_string())), "/home/u/.config/.nimbus");
    assert_eq!(config_home_from(None), "./.nimbus");
}
