use nimbus::frontend::{App, AppMode, Clipboard, ClipboardEntry, Confirm, RenamePrompt};
use nimbus::ui::{footer_lines, help_lines, help_popup_width, Segment, Tone};

fn texts(line: &[Segment]) -> Vec<(Tone, String)> {
    line.iter().map(|s| (s.tone, s.text.clone())).collect()
}

fn app() -> App {
    App::new(vec!["a".to_string()])
}

#[test]
fn the_footer_shows_key_hints_when_nothing_else_is_going_on() {
    let a = app();
    let lines = footer_lines(&a, 80);
    assert_eq!(lines.len(), 1);
    assert_eq!(
        texts(&lines[0]),
        vec![(
            Tone::Faint,
            "↑/↓ move  →/enter open  n new vault  x forget  : command  ? help  q quit".to_string()
        )]
    );
}

#[test]
fn a_pending_confirmation_outranks_everything_and_wraps() {
    let mut a = app();
    a.command = Some("ls".to_string());
    a.status = Some("old".to_string());
    a.confirm = Some(Confirm { prompt: "delete 3 objects? y/n".to_string(), events: Vec::new() });
    let lines = footer_lines(&a, 10);
    assert_eq!(lines.len(), 3);
    assert_eq!(texts(&lines[0]), vec![(Tone::Alert, "delete 3".to_string())]);
    assert_eq!(texts(&lines[1]), vec![(Tone::Alert, "objects?".to_string())]);
    assert_eq!(texts(&lines[2]), vec![(Tone::Alert, "y/n".to_string())]);
}

#[test]
fn inputs_show_what_is_being_typed() {
    let mut a = app();
    a.command = Some("cd do".to_string());
    assert_eq!(texts(&footer_lines(&a, 80)[0]), vec![(Tone::Input, ":cd do".to_string())]);
    a.command = None;
    a.browser.filtering = true;
    assert_eq!(texts(&footer_lines(&a, 80)[0]), vec![(Tone::Input, "/".to_string())]);
    a.browser.filter = Some("rep".to_string());
    assert_eq!(texts(&footer_lines(&a, 80)[0]), vec![(Tone::Input, "/rep".to_string())]);
    a.browser.filtering = false;
    a.rename = Some(RenamePrompt { original: "a.txt".to_string(), input: "b.tx".to_string() });
    assert_eq!(
        texts(&footer_lines(&a, 80)[0]),
        vec![
            (Tone::Faint, "rename a.txt to: ".to_string()),
            (Tone::Input, "b.tx_".to_string())
        ]
    );
}

#[test]
fn the_clipboard_shows_in_front_of_the_hints_and_a_short_status() {
    let mut a = app();
    a.mode = AppMode::Vault("a".to_string());
    a.clipboard = Some(Clipboard {
        entries: vec![ClipboardEntry { spec: "a:/x".to_string(), name: "x".to_string() }],
        cut: true,
    });
    let lines = footer_lines(&a, 200);
    assert_eq!(texts(&lines[0])[0], (Tone::Pending, "[cut: x] ".to_string()));
    assert_eq!(texts(&lines[0])[1].0, Tone::Faint);

    a.status = Some("copied ok".to_string());
    let lines = footer_lines(&a, 200);
    assert_eq!(
        texts(&lines[0]),
        vec![(Tone::Pending, "[cut: x] ".to_string()), (Tone::Status, "copied ok".to_string())]
    );

    // a status that wraps drops the clipboard indicator
    a.status = Some("one two three".to_string());
    let lines = footer_lines(&a, 5);
    assert_eq!(lines.len(), 3);
    assert_eq!(texts(&lines[0]), vec![(Tone::Status, "one".to_string())]);
}

#[test]
fn the_help_overlay_lays_out_sections_commands_and_paths() {
    let lines = help_lines(60);
    assert_eq!(texts(&lines[0]), vec![(Tone::Heading, "NAVIGATION".to_string())]);
    assert_eq!(
        texts(&lines[1]),
        vec![
            (Tone::Key, "  ↑/↓  or  k/j          ".to_string()),
            (Tone::Description, "move the selection".to_string())
        ]
    );
    assert_eq!(lines[1][0].text.chars().count(), 24);
    assert!(lines[5].is_empty());
    assert_eq!(texts(&lines[6]), vec![(Tone::Heading, "OPENING FILES".to_string())]);
    let commands = lines
        .iter()
        .position(|l| texts(l) == vec![(Tone::Heading, "COMMANDS  (press : first)".to_string())])
        .unwrap();
    assert!(lines[commands - 1].is_empty());
    assert_eq!(texts(&lines[commands + 1]), vec![(Tone::Key, "  ls".to_string())]);
    assert_eq!(lines[commands + 2][0].tone, Tone::Description);
    assert!(lines[commands + 2][0].text.starts_with("      list"));
    let last = lines.last().unwrap();
    assert_eq!(last[0].tone, Tone::Note);
    assert!(lines.iter().any(|l| texts(l) == vec![(Tone::Heading, "PATHS".to_string())]));
    for l in &lines {
        for s in l {
            if s.tone == Tone::Note {
                assert!(s.text.chars().count() <= 60);
                assert!(s.text.starts_with("  "));
            }
        }
    }
}

#[test]
fn the_help_overlay_takes_nine_tenths_of_the_screen_up_to_96_columns() {
    assert_eq!(help_popup_width(100), 90);
    assert_eq!(help_popup_width(80), 72);
    assert_eq!(help_popup_width(200), 96);
    assert_eq!(help_popup_width(u16::MAX), 96);
    assert_eq!(help_popup_width(0), 0);
}

use nimbus::object::{Metadata, Object, ObjectId};
use nimbus::ui::{entry_line, footer_height, header_title, name_column, object_list_title, vault_row};

#[test]
fn object_rows_mark_and_align_their_columns() {
    let mut meta = Metadata::new();
    meta.set_size(2048);
    let file = Object::leaf("notes.txt".to_string(), ObjectId::from_str("notes.txt"), meta);
    let row = entry_line(&file, false, true, 12, Some("2024-05-01 10:00".to_string()));
    assert_eq!(
        texts(&row),
        vec![
            (Tone::Marked, " ".to_string()),
            (Tone::Plain, "notes.txt   ".to_string()),
            (Tone::Description, "    2.0K  ".to_string()),
            (Tone::Faint, "2024-05-01 10:00".to_string()),
        ]
    );

    let dir = Object::branch("docs".to_string(), ObjectId::from_str("docs"), Metadata::new(), Vec::new());
    let row = entry_line(&dir, true, true, 6, None);
    assert_eq!(
        texts(&row),
        vec![
            (Tone::Marked, "*".to_string()),
            (Tone::Marked, "docs/ ".to_string()),
            (Tone::Description, "       —  ".to_string()),
            (Tone::Faint, "               —".to_string()),
        ]
    );

    let no_size = Object::leaf("x".to_string(), ObjectId::from_str("x"), Metadata::new());
    assert_eq!(entry_line(&no_size, false, true, 1, None)[2].text, "       ?  ");
    assert_eq!(
        texts(&entry_line(&dir, false, false, 0, None)),
        vec![(Tone::Marked, " ".to_string()), (Tone::Directory, "docs/".to_string())]
    );
    assert_eq!(entry_line(&Object::root(), false, false, 0, None)[1].text, "/");
}

#[test]
fn names_get_what_the_columns_leave() {
    assert_eq!(name_column(80), (51, true));
    assert_eq!(name_column(45), (16, true));
    assert_eq!(name_column(44), (15, false));
    assert_eq!(name_column(10), (0, false));
}

#[test]
fn titles_and_rows_read_as_on_screen() {
    assert_eq!(object_list_title(&None, 0), "objects");
    assert_eq!(object_list_title(&None, 3), "objects — 3 marked");
    assert_eq!(object_list_title(&Some("rep".to_string()), 0), "objects — filter: rep");
    assert_eq!(object_list_title(&Some("rep".to_string()), 2), "objects — filter: rep · 2 marked");
    assert_eq!(header_title(&AppMode::Root, "/"), "nimbus — vaults");
    assert_eq!(header_title(&AppMode::Vault("w".to_string()), "/docs"), "nimbus — w:/docs");
    assert_eq!(header_title(&AppMode::Quit, "/"), "nimbus");
    assert_eq!(vault_row("work"), "  work");
    assert_eq!(footer_height(0), 1);
    assert_eq!(footer_height(3), 3);
    assert_eq!(footer_height(9), 4);
}
