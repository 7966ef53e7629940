use nimbus::browser::Entry;
use nimbus::frontend::{App, AppMode, EventStep};
use nimbus::grammar::AppEvent;
use nimbus::object::{Metadata, Object, ObjectId};

fn names(v: &[&str]) -> Vec<String> {
    v.iter().map(|s| s.to_string()).collect()
}

fn entry(name: &str) -> Entry {
    Entry::of(&Object::leaf(name.to_string(), ObjectId::from_str(name), Metadata::new()))
}

#[test]
fn begin_event_handles_quit_vaults_and_the_wizard_in_place() {
    let mut app = App::new(names(&["a"]));
    assert_eq!(app.begin_event(AppEvent::Vaults), EventStep::ListVaults);
    assert_eq!(app.mode, AppMode::Root);
    assert_eq!(app.begin_event(AppEvent::New { path: None }), EventStep::Done);
    assert!(app.creator_open);
    assert_eq!(app.begin_event(AppEvent::Quit), EventStep::Done);
    assert_eq!(app.mode, AppMode::Quit);
    assert!(!app.running());
}

#[test]
fn begin_event_hands_back_what_needs_the_session() {
    let mut app = App::new(names(&["a"]));
    assert_eq!(app.begin_event(AppEvent::Ls), EventStep::ListVaults);
    app.mode = AppMode::Vault("a".to_string());
    assert_eq!(app.begin_event(AppEvent::Ls), EventStep::ListObjects);
    assert_eq!(
        app.begin_event(AppEvent::Select { vault: "a".to_string() }),
        EventStep::EnterVault("a".to_string())
    );
    assert_eq!(
        app.begin_event(AppEvent::New { path: Some("/c.toml".to_string()) }),
        EventStep::Register("/c.toml".to_string())
    );
    assert_eq!(
        app.begin_event(AppEvent::Cd { path: None }),
        EventStep::Cd(None)
    );
    assert_eq!(
        app.begin_event(AppEvent::Forget { vault: "a".to_string() }),
        EventStep::Forget("a".to_string())
    );
    let del = AppEvent::Delete { path: "x".to_string(), vault: None, force: true };
    assert_eq!(
        app.begin_event(del.clone()),
        EventStep::Run(del, "deleted".to_string())
    );
    let push = AppEvent::Push { vault: None };
    assert_eq!(
        app.begin_event(push.clone()),
        EventStep::Run(push, "pushed".to_string())
    );
    assert_eq!(app.mode, AppMode::Vault("a".to_string()));
}

#[test]
fn after_cd_browses_the_vault_or_returns_to_the_list() {
    let mut app = App::new(names(&["a"]));
    app.browser.filter = Some("x".to_string());
    app.browser.marked = names(&["m"]);
    assert!(app.after_cd(Some("a".to_string())));
    assert_eq!(app.mode, AppMode::Vault("a".to_string()));
    assert!(app.browser.marked.is_empty());
    assert_eq!(app.browser.filter, None);
    app.objects_listed(Ok(vec![entry("f")]));
    assert!(!app.after_cd(None));
    assert_eq!(app.mode, AppMode::Root);
    assert!(app.browser.objects.is_empty());
    assert!(app.browser.visible.is_empty());
    assert_eq!(app.browser.selected, None);
}

#[test]
fn forgotten_and_registered_set_the_status() {
    let mut app = App::new(names(&["a"]));
    app.mode = AppMode::Vault("a".to_string());
    app.forgotten(false);
    assert_eq!(app.mode, AppMode::Vault("a".to_string()));
    assert_eq!(app.status.as_deref(), Some("vault forgotten"));
    app.forgotten(true);
    assert_eq!(app.mode, AppMode::Root);
    assert!(app.registered(Ok(()), false));
    assert_eq!(app.status.as_deref(), Some("vault registered"));
    assert!(app.registered(Ok(()), true));
    assert_eq!(app.status.as_deref(), Some("vault created"));
    assert!(!app.registered(Err("boom".to_string()), true));
    assert_eq!(app.status.as_deref(), Some("boom"));
}

#[test]
fn set_vaults_keeps_a_cursor_that_still_fits() {
    let mut app = App::new(names(&["a", "b", "c"]));
    app.vault_selected = Some(2);
    app.set_vaults(names(&["a", "b", "c", "d"]));
    assert_eq!(app.vault_selected, Some(2));
    app.set_vaults(names(&["a"]));
    assert_eq!(app.vault_selected, Some(0));
    app.set_vaults(Vec::new());
    assert_eq!(app.vault_selected, None);
    app.set_vaults(names(&["z"]));
    assert_eq!(app.vault_selected, Some(0));
}

#[test]
fn objects_listed_drops_marks_on_names_that_are_gone() {
    let mut app = App::new(names(&["a"]));
    app.mode = AppMode::Vault("a".to_string());
    app.objects_listed(Ok(vec![entry("one"), entry("two")]));
    app.browser.marked = names(&["one", "two"]);
    app.status = Some("old".to_string());
    app.objects_listed(Ok(vec![entry("two"), entry("three")]));
    assert_eq!(app.browser.marked, names(&["two"]));
    assert_eq!(app.browser.visible.len(), 2);
    assert_eq!(app.status, None);
    app.objects_listed(Err("offline".to_string()));
    assert_eq!(app.status.as_deref(), Some("offline"));
    assert_eq!(app.browser.objects.len(), 2);
}

#[test]
fn entered_vault_switches_mode_and_drops_marks() {
    let mut app = App::new(names(&["a"]));
    app.browser.marked = names(&["x"]);
    app.browser.filtering = true;
    app.entered_vault("a".to_string());
    assert_eq!(app.mode, AppMode::Vault("a".to_string()));
    assert!(app.browser.marked.is_empty());
    assert!(!app.browser.filtering);
}
