use nimbus::config::OriginConfig;
use nimbus::creator::{
    completion_query, expand_tilde_with, longest_common_prefix, suggestions_from, App, OriginKind, Step,
    WizardAction,
};
use nimbus::frontend::Key;

fn type_str(app: &mut App, s: &str) {
    for c in s.chars() {
        app.handle_key_event(Key::Char(c));
    }
}

/// What the caller does for a `Complete`: list the directory the input points into and hand
/// the matches back.
fn complete_from(app: &mut App, entries: &[(&str, bool)]) {
    let (dir, dot, prefix) = completion_query(&app.input);
    let listed: Vec<(String, bool)> = entries.iter().map(|(n, d)| (n.to_string(), *d)).collect();
    let matches = suggestions_from(&dir, dot, &prefix, &listed);
    app.apply_completion(matches);
}

#[test]
fn tab_with_no_matches_reports_an_error_instead_of_doing_nothing_silently() {
    let mut app = App::new();
    app.step = Step::Field(0);
    app.fields = OriginKind::Fs.fields();
    app.origin_kind = Some(OriginKind::Fs);

    let prefix = "/tmp/scratch/does-not-exist";
    type_str(&mut app, prefix);
    assert!(matches!(app.handle_key_event(Key::Tab), WizardAction::Complete));
    complete_from(&mut app, &[("other", true)]);

    assert_eq!(app.input, prefix);
    assert!(app.error.is_some());
    assert_eq!(app.error.as_deref(), Some("no matches for '/tmp/scratch/does-not-exist'"));
}

#[test]
fn tab_completes_a_unique_fs_path_match() {
    let mut app = App::new();
    app.step = Step::Field(0);
    app.fields = OriginKind::Fs.fields();
    app.origin_kind = Some(OriginKind::Fs);
    type_str(&mut app, "/d/uniq");
    app.handle_key_event(Key::Tab);
    complete_from(&mut app, &[("uniquedir", true), ("zz", true)]);
    assert_eq!(app.input, "/d/uniquedir/");
}

#[test]
fn tab_completes_ambiguous_fs_path_to_common_prefix_and_lists_suggestions() {
    let mut app = App::new();
    app.step = Step::Field(0);
    app.fields = OriginKind::Fs.fields();
    app.origin_kind = Some(OriginKind::Fs);
    type_str(&mut app, "/d/al");
    app.handle_key_event(Key::Tab);
    complete_from(&mut app, &[("alphabet", true), ("alpha", true), ("beta", true)]);
    assert_eq!(app.input, "/d/alpha");
    assert_eq!(app.suggestions, vec!["/d/alpha/".to_string(), "/d/alphabet/".to_string()]);
}

#[test]
fn wizard_builds_and_saves_an_fs_vault() {
    let mut app = App::new();
    type_str(&mut app, "test-vault");
    app.handle_key_event(Key::Enter);
    assert_eq!(app.step, Step::RootId);
    app.handle_key_event(Key::Enter);
    assert_eq!(app.step, Step::SelectOrigin);
    app.handle_key_event(Key::Enter);
    assert_eq!(app.step, Step::Field(0));
    assert_eq!(app.origin_kind, Some(OriginKind::Fs));
    type_str(&mut app, "/srv/data");
    app.handle_key_event(Key::Enter);
    assert_eq!(app.step, Step::SavePath);
    assert_eq!(app.input, "test-vault.toml");
    for _ in 0..app.input.chars().count() {
        app.handle_key_event(Key::Backspace);
    }
    assert_eq!(app.input, "");
    type_str(&mut app, "/cfg/vault.toml");
    app.handle_key_event(Key::Enter);
    assert_eq!(app.step, Step::Confirm);
    assert_eq!(
        app.summary_lines(),
        vec![
            "name: test-vault".to_string(),
            "origin: fs — a directory on disk".to_string(),
            "  root: /srv/data".to_string(),
            "save to: /cfg/vault.toml".to_string(),
        ]
    );
    match app.handle_key_event(Key::Enter) {
        WizardAction::Save(config, path) => {
            assert_eq!(path, "/cfg/vault.toml");
            assert_eq!(config.name(), "test-vault");
            assert_eq!(config.root_id().as_str(), "/");
            match config.origin_config() {
                OriginConfig::Fs { root } => assert_eq!(root, "/srv/data"),
                _ => panic!("expected an fs origin"),
            }
            app.finish_save(path, Ok(()));
        }
        _ => panic!("expected a save"),
    }
    assert!(!app.is_running());
    assert_eq!(app.outcome.as_deref(), Some("/cfg/vault.toml"));
}

#[test]
fn a_blank_required_answer_is_refused() {
    let mut app = App::new();
    app.handle_key_event(Key::Enter);
    assert_eq!(app.step, Step::Name);
    assert_eq!(app.error.as_deref(), Some("this field is required"));
    type_str(&mut app, " x ");
    assert_eq!(app.error, None);
    app.handle_key_event(Key::Enter);
    assert_eq!(app.name, "x");
}

#[test]
fn esc_closes_the_wizard_without_a_result() {
    let mut app = App::new();
    type_str(&mut app, "v");
    app.handle_key_event(Key::Esc);
    assert!(!app.is_running());
    assert_eq!(app.outcome, None);
}

#[test]
fn the_kind_list_stops_at_both_ends() {
    let mut app = App::new();
    app.step = Step::SelectOrigin;
    app.handle_key_event(Key::Up);
    assert_eq!(app.origin_idx, 0);
    for _ in 0..10 {
        app.handle_key_event(Key::Down);
    }
    assert_eq!(app.origin_idx, 3);
    app.handle_key_event(Key::Enter);
    assert_eq!(app.origin_kind, Some(OriginKind::Vault));
    assert_eq!(app.prompt(), Some("inner vault config path"));
    assert_eq!(app.step_area_height(), 3);
    app.step = Step::SelectOrigin;
    assert_eq!(app.step_area_height(), 6);
    assert_eq!(app.prompt(), None);
}

#[test]
fn the_wizard_footer_prefers_the_error_then_the_suggestions() {
    let mut app = App::new();
    assert_eq!(app.footer(), ("enter confirm · esc cancel".to_string(), false));
    app.step = Step::Field(0);
    app.fields = OriginKind::Fs.fields();
    assert_eq!(
        app.footer(),
        ("enter confirm · esc cancel · tab complete path".to_string(), false)
    );
    app.suggestions = vec!["a/".to_string(), "ab/".to_string()];
    assert_eq!(app.footer(), ("tab: a/  ab/".to_string(), false));
    app.error = Some("boom".to_string());
    assert_eq!(app.footer(), ("error: boom".to_string(), true));
}

#[test]
fn completion_helpers_split_and_expand_paths() {
    assert_eq!(completion_query(""), (".".to_string(), true, String::new()));
    assert_eq!(completion_query("ab"), (".".to_string(), true, "ab".to_string()));
    assert_eq!(completion_query("/a/b"), ("/a".to_string(), false, "b".to_string()));
    assert_eq!(completion_query("/a/"), ("/a/".to_string(), false, String::new()));
    assert_eq!(completion_query("/x"), ("/".to_string(), false, "x".to_string()));
    assert_eq!(expand_tilde_with("~/docs", Some("/home/u")), "/home/u/docs");
    assert_eq!(expand_tilde_with("~", Some("/home/u")), "/home/u");
    assert_eq!(expand_tilde_with("~x", Some("/home/u")), "/home/u/x");
    assert_eq!(expand_tilde_with("a~", Some("/home/u")), "a~");
    assert_eq!(expand_tilde_with("~/docs", None), "~/docs");
    assert_eq!(
        longest_common_prefix(&vec!["alpha".to_string(), "alphabet".to_string(), "alps".to_string()]),
        "alp"
    );
    assert_eq!(longest_common_prefix(&Vec::new()), "");
}

#[test]
fn extras_parse_key_value_pairs() {
    let extras = OriginKind::parse_extras("a=1, b = 2,bad,,c=x=y");
    assert_eq!(extras.get(&"a".to_string()), Some("1".to_string()));
    assert_eq!(extras.get(&"b".to_string()), Some("2".to_string()));
    assert_eq!(extras.get(&"c".to_string()), Some("x=y".to_string()));
    assert_eq!(extras.get(&"bad".to_string()), None);
}

#[test]
fn a_refused_blank_answer_keeps_every_earlier_answer() {
    let mut app = App::new();
    type_str(&mut app, "photos");
    app.handle_key_event(Key::Enter);
    app.handle_key_event(Key::Enter);
    assert_eq!(app.step, Step::SelectOrigin);
    app.step = Step::SavePath;
    app.input = "   ".to_string();
    app.handle_key_event(Key::Enter);
    assert_eq!(app.step, Step::SavePath);
    assert_eq!(app.error.as_deref(), Some("this field is required"));
    assert_eq!(app.name, "photos");
    assert_eq!(app.root_id, "");
    assert_eq!(app.save_path, "");
}

#[test]
fn a_key_press_clears_the_last_error() {
    let mut app = App::new();
    app.handle_key_event(Key::Enter);
    assert_eq!(app.error.as_deref(), Some("this field is required"));
    app.handle_key_event(Key::Char('x'));
    assert!(app.error.is_none());
}
