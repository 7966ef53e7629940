use nimbus::browser::Entry;
use nimbus::frontend::{select_next, select_previous, Action, App, AppMode, Key};
use nimbus::grammar::AppEvent;
use nimbus::object::{Metadata, Object, ObjectId};

fn names(v: &[&str]) -> Vec<String> {
    v.iter().map(|s| s.to_string()).collect()
}

fn file(name: &str) -> Entry {
    Entry::of(&Object::leaf(name.to_string(), ObjectId::from_str(name), Metadata::new()))
}

fn dir(name: &str) -> Entry {
    Entry::of(&Object::branch(name.to_string(), ObjectId::from_str(name), Metadata::new(), Vec::new()))
}

fn browsing(entries: Vec<Entry>) -> App {
    let mut app = App::new(names(&["work"]));
    app.mode = AppMode::Vault("work".to_string());
    app.objects_listed(Ok(entries));
    app
}

#[test]
fn cursors_wrap_at_both_ends() {
    assert_eq!(select_next(Some(2), 3), Some(0));
    assert_eq!(select_next(Some(0), 3), Some(1));
    assert_eq!(select_next(None, 3), Some(0));
    assert_eq!(select_next(None, 0), None);
    assert_eq!(select_previous(Some(0), 3), Some(2));
    assert_eq!(select_previous(None, 3), Some(2));
    assert_eq!(select_previous(Some(1), 0), Some(1));
}

#[test]
fn directories_list_before_files_and_the_cursor_starts_on_the_first() {
    let app = browsing(vec![file("b.txt"), dir("zdir"), file("a.txt")]);
    let shown: Vec<String> = app.browser.visible.iter().map(|&i| app.browser.objects[i].name.clone()).collect();
    assert_eq!(shown, names(&["zdir", "a.txt", "b.txt"]));
    assert_eq!(app.browser.selected, Some(0));
}

#[test]
fn enter_descends_into_a_directory_and_opens_a_file() {
    let mut app = browsing(vec![dir("docs"), file("a.txt")]);
    assert_eq!(
        app.handle_key_event(Key::Enter, false, Some("work"), "/"),
        Action::Descend("docs".to_string())
    );
    app.handle_key_event(Key::Down, false, Some("work"), "/");
    assert_eq!(
        app.handle_key_event(Key::Char('l'), false, Some("work"), "/"),
        Action::Open("a.txt".to_string(), ObjectId::from_str("a.txt"))
    );
    assert_eq!(app.handle_key_event(Key::Left, false, Some("work"), "/"), Action::Ascend);
}

#[test]
fn deleting_asks_first_and_names_what_goes() {
    let mut app = browsing(vec![dir("docs"), file("a.txt")]);
    app.handle_key_event(Key::Char('x'), false, Some("work"), "/d");
    let confirm = app.confirm.clone().unwrap();
    assert_eq!(confirm.prompt, "delete docs/ and everything in it? (y/N)");
    assert_eq!(
        confirm.events,
        vec![AppEvent::Delete { path: "work:/d/docs".to_string(), vault: None, force: true }]
    );
    assert_eq!(
        app.handle_key_event(Key::Char('y'), false, Some("work"), "/d"),
        Action::ApplyAll(confirm.events.clone())
    );
    assert!(app.confirm.is_none());

    // several marked objects are counted, directories called out
    let mut app = browsing(vec![dir("docs"), file("a.txt"), file("b.txt")]);
    app.handle_key_event(Key::Char(' '), false, Some("work"), "/");
    app.handle_key_event(Key::Char(' '), false, Some("work"), "/");
    app.handle_key_event(Key::Char('x'), false, Some("work"), "/");
    assert_eq!(
        app.confirm.as_ref().unwrap().prompt,
        "delete 2 objects (1 directory — contents included)? (y/N)"
    );
    // anything but y leaves everything alone
    assert_eq!(app.handle_key_event(Key::Char('n'), false, Some("work"), "/"), Action::Nothing);
    assert!(app.confirm.is_none());
}

#[test]
fn yank_then_paste_copies_into_the_directory_being_browsed() {
    let mut app = browsing(vec![file("a.txt")]);
    app.handle_key_event(Key::Char('y'), false, Some("work"), "/src");
    let clip = app.clipboard.clone().unwrap();
    assert!(!clip.cut);
    assert_eq!(clip.label(), "a.txt");
    assert_eq!(app.status.as_deref(), Some("yanked a.txt — press p to paste"));
    assert_eq!(
        app.handle_key_event(Key::Char('p'), false, Some("backup"), "/inbox"),
        Action::Paste(
            vec![AppEvent::Cp {
                path: "work:/src/a.txt".to_string(),
                destination: "backup:/inbox".to_string(),
                vault: None
            }],
            false
        )
    );

    let mut app = browsing(vec![file("a.txt")]);
    app.handle_key_event(Key::Char('d'), false, Some("work"), "/");
    assert!(app.clipboard.as_ref().unwrap().cut);
    match app.handle_key_event(Key::Char('p'), false, Some("work"), "/x") {
        Action::Paste(events, true) => assert!(matches!(&events[0], AppEvent::Mv { .. })),
        other => panic!("expected a move, got {other:?}"),
    }
}

#[test]
fn paste_with_an_empty_clipboard_says_so() {
    let mut app = browsing(vec![file("a.txt")]);
    assert_eq!(app.handle_key_event(Key::Char('p'), false, Some("work"), "/"), Action::Nothing);
    assert_eq!(app.status.as_deref(), Some("nothing to paste"));
}

#[test]
fn renaming_edits_the_current_name_in_place() {
    let mut app = browsing(vec![file("a.txt")]);
    app.handle_key_event(Key::Char('c'), false, Some("work"), "/");
    assert_eq!(app.rename.as_ref().unwrap().input, "a.txt");
    app.handle_key_event(Key::Backspace, false, Some("work"), "/");
    app.handle_key_event(Key::Backspace, false, Some("work"), "/");
    app.handle_key_event(Key::Backspace, false, Some("work"), "/");
    app.handle_key_event(Key::Char('m'), false, Some("work"), "/");
    app.handle_key_event(Key::Char('d'), false, Some("work"), "/");
    assert_eq!(
        app.handle_key_event(Key::Enter, false, Some("work"), "/"),
        Action::Apply(AppEvent::Rename {
            path: "work:/a.txt".to_string(),
            new_name: "a.md".to_string(),
            vault: None
        })
    );
    assert!(app.rename.is_none());

    // an unchanged name does nothing
    app.handle_key_event(Key::Char('c'), false, Some("work"), "/");
    assert_eq!(app.handle_key_event(Key::Enter, false, Some("work"), "/"), Action::Nothing);
}

#[test]
fn the_command_line_parses_what_is_typed() {
    let mut app = App::new(names(&["work"]));
    app.handle_key_event(Key::Char(':'), false, None, "/");
    for c in "select work".chars() {
        app.handle_key_event(Key::Char(c), false, None, "/");
    }
    assert_eq!(
        app.handle_key_event(Key::Enter, false, None, "/"),
        Action::Apply(AppEvent::Select { vault: "work".to_string() })
    );
    assert!(app.command.is_none());
}

#[test]
fn the_vault_list_quits_and_enters() {
    let mut app = App::new(names(&["one", "two"]));
    app.handle_key_event(Key::Down, false, None, "/");
    assert_eq!(
        app.handle_key_event(Key::Enter, false, None, "/"),
        Action::EnterVault("two".to_string())
    );
    assert_eq!(app.handle_key_event(Key::Char('q'), false, None, "/"), Action::Apply(AppEvent::Quit));
    assert_eq!(app.handle_key_event(Key::Char('c'), true, None, "/"), Action::Apply(AppEvent::Quit));
}

#[test]
fn sorting_and_hidden_files_report_what_changed() {
    let mut app = browsing(vec![file(".hidden"), file("shown")]);
    assert_eq!(app.browser.visible.len(), 1);
    app.handle_key_event(Key::Char('.'), false, Some("work"), "/");
    assert_eq!(app.browser.visible.len(), 2);
    assert_eq!(app.status.as_deref(), Some("showing hidden objects"));
    app.handle_key_event(Key::Char('s'), false, Some("work"), "/");
    assert_eq!(app.status.as_deref(), Some("sort: size asc"));
    app.handle_key_event(Key::Char('S'), false, Some("work"), "/");
    assert_eq!(app.status.as_deref(), Some("sort: size desc"));
    assert_eq!(app.sort_description(), "sort: size desc");
}

#[test]
fn filtering_narrows_the_listing_as_you_type() {
    let mut app = browsing(vec![file("Report.pdf"), file("notes.txt"), file("report-2.pdf")]);
    app.handle_key_event(Key::Char('/'), false, Some("work"), "/");
    for c in "REP".chars() {
        app.handle_key_event(Key::Char(c), false, Some("work"), "/");
    }
    assert_eq!(app.browser.visible.len(), 2);
    app.handle_key_event(Key::Enter, false, Some("work"), "/");
    assert!(!app.browser.filtering);
    assert_eq!(app.browser.filter.as_deref(), Some("REP"));
    app.handle_key_event(Key::Esc, false, Some("work"), "/");
    assert_eq!(app.browser.filter, None);
    assert_eq!(app.browser.visible.len(), 3);
}

#[test]
fn the_outcome_of_an_operation_is_reported() {
    let mut app = App::new(Vec::new());
    app.report("copied", Ok(()));
    assert_eq!(app.status.as_deref(), Some("copied ok"));
    app.report("copied", Err("disk full".to_string()));
    assert_eq!(app.status.as_deref(), Some("disk full"));
}

#[test]
fn f2_also_opens_the_rename_prompt() {
    let mut app = browsing(vec![file("a.txt")]);
    assert_eq!(app.handle_key_event(Key::F2, false, Some("work"), "/"), Action::Nothing);
    let prompt = app.rename.as_ref().unwrap();
    assert_eq!((prompt.original.as_str(), prompt.input.as_str()), ("a.txt", "a.txt"));
}

#[test]
fn e_edits_and_r_runs_the_file_under_the_cursor() {
    let mut app = browsing(vec![dir("docs"), file("a.sh")]);
    assert_eq!(app.handle_key_event(Key::Char('e'), false, Some("work"), "/"), Action::Nothing);
    assert_eq!(app.handle_key_event(Key::Char('r'), false, Some("work"), "/"), Action::Nothing);
    assert!(app.rename.is_none());
    app.handle_key_event(Key::Down, false, Some("work"), "/");
    assert_eq!(
        app.handle_key_event(Key::Char('e'), false, Some("work"), "/"),
        Action::Edit("a.sh".to_string(), ObjectId::from_str("a.sh"))
    );
    assert_eq!(
        app.handle_key_event(Key::Char('r'), false, Some("work"), "/"),
        Action::Run("a.sh".to_string(), ObjectId::from_str("a.sh"))
    );
}

#[test]
fn a_confirmation_runs_on_y_and_is_cancelled_by_anything_else() {
    let mut app = browsing(vec![file("a.txt")]);
    app.handle_key_event(Key::Char('x'), false, Some("work"), "/");
    assert!(app.confirm.is_some());
    match app.handle_key_event(Key::Char('y'), false, Some("work"), "/") {
        Action::ApplyAll(events) => assert_eq!(events.len(), 1),
        other => panic!("expected the delete to run, got {other:?}"),
    }
    assert!(app.confirm.is_none());
    app.handle_key_event(Key::Char('x'), false, Some("work"), "/");
    assert_eq!(app.handle_key_event(Key::Char('n'), false, Some("work"), "/"), Action::Nothing);
    assert_eq!(app.status.as_deref(), Some("cancelled"));
    assert!(app.confirm.is_none());
}

#[test]
fn going_up_from_a_vault_root_leaves_the_vault() {
    assert_eq!(nimbus::frontend::ascend_target("/"), None);
    assert_eq!(nimbus::frontend::ascend_target("/docs"), Some("..".to_string()));
}

#[test]
fn an_unbound_key_changes_nothing() {
    let mut app = browsing(vec![file("a.txt"), file("b.txt")]);
    app.handle_key_event(Key::Down, false, Some("work"), "/");
    assert_eq!(app.handle_key_event(Key::Char('z'), false, Some("work"), "/"), Action::Nothing);
    assert_eq!(app.handle_key_event(Key::Tab, false, Some("work"), "/"), Action::Nothing);
    assert_eq!(app.browser.selected, Some(1));
    assert!(app.status.is_none());
}

#[test]
fn typing_into_the_filter_narrows_the_listing_at_once() {
    let mut app = browsing(vec![file("apple"), file("banana"), file("cherry")]);
    app.handle_key_event(Key::Char('/'), false, Some("work"), "/");
    app.handle_key_event(Key::Char('a'), false, Some("work"), "/");
    app.handle_key_event(Key::Char('n'), false, Some("work"), "/");
    let shown: Vec<String> = app.browser.visible.iter().map(|&i| app.browser.objects[i].name.clone()).collect();
    assert_eq!(shown, names(&["banana"]));
    app.handle_key_event(Key::Esc, false, Some("work"), "/");
    assert_eq!(app.browser.visible.len(), 3);
}

#[test]
fn a_refresh_keeps_the_cursor_on_its_object() {
    let mut app = browsing(vec![file("a"), file("b"), file("c")]);
    app.handle_key_event(Key::Down, false, Some("work"), "/");
    app.objects_listed(Ok(vec![file("z"), file("b"), file("a")]));
    let shown: Vec<String> = app.browser.visible.iter().map(|&i| app.browser.objects[i].name.clone()).collect();
    assert_eq!(shown, names(&["a", "b", "z"]));
    let k = app.browser.selected.unwrap();
    assert_eq!(app.browser.objects[app.browser.visible[k]].name, "b");
}
