//! What the terminal frontend shows, as toned text: the status bar at the foot of the screen
//! and the help overlay. Drawing it (colours, layout, borders) is left to the caller, which
//! gives each tone its style.

use vstd::prelude::*;
use crate::frontend::{App, AppMode, Clipboard};
use crate::object::Object;
use crate::widgets::{fitted, human_size, human_size_text, pad_or_truncate, push_repeated, repeated};
use crate::grammar::{command_summaries, summaries};
use crate::text::{cat, cat3, chars_of, string_of};
use crate::wrap::{wrap_indented, wrapped};

verus! {

/// How a piece of text is styled.
#[derive(Debug, Clone, Copy, PartialEq, Eq, Structural)]
pub enum Tone {
    /// A question about to destroy something.
    Alert,
    /// Text being typed.
    Input,
    /// Key hints and the label before an input.
    Faint,
    /// What the clipboard holds.
    Pending,
    /// The last message.
    Status,
    /// A heading of the help overlay.
    Heading,
    /// A key, or a command's usage, in the help overlay.
    Key,
    /// What a key or a command does.
    Description,
    /// A remark under a section of the help overlay.
    Note,
    /// A marked object, and the mark itself.
    Marked,
    /// A directory's name.
    Directory,
    /// A file's name.
    Plain,
}

/// A run of text in one tone.
#[derive(Debug, Clone, PartialEq, Eq)]
pub struct Segment {
    /// The tone.
    pub tone: Tone,
    /// The text.
    pub text: String,
}

/// Lines of segments, as plain values.
pub open spec fn lines_view(lines: Seq<Vec<Segment>>) -> Seq<Seq<(Tone, Seq<char>)>> {
    lines.map_values(|l: Vec<Segment>| l@.map_values(|s: Segment| (s.tone, s.text@)))
}

/// Each of `lines` as a line of one segment in the tone `t`.
pub open spec fn toned(lines: Seq<Seq<char>>, t: Tone) -> Seq<Seq<(Tone, Seq<char>)>> {
    lines.map_values(|l: Seq<char>| seq![(t, l)])
}

/// The key hints of each screen.
pub open spec fn hints_for(mode: AppMode) -> Seq<char> {
    match mode {
        AppMode::Root => "↑/↓ move  →/enter open  n new vault  x forget  : command  ? help  q quit"@,
        AppMode::Vault(_) => "↑/↓ move  →/enter open  e edit  r run  ←/esc back  space mark  y copy  d cut  p paste  c rename  x delete  / filter  ? help"@,
        _ => Seq::empty(),
    }
}

/// How a pending paste shows in the status bar: `[copy: name] ` or `[cut: name] `.
pub open spec fn pending_text(c: Option<Clipboard>) -> Seq<char> {
    match c {
        Some(cb) => "["@ + (if cb.cut { "cut"@ } else { "copy"@ }) + ": "@ + cb.label_spec() + "] "@,
        None => Seq::empty(),
    }
}

/// The status bar of `app`, `width` columns wide. A pending confirmation outranks
/// everything (wrapped, in the alert tone); then the `:` line, the filter being typed and the
/// rename prompt. Otherwise the last message, wrapped (with what the clipboard holds in front
/// while it fits on one line), or, with no message, the key hints of the screen after what
/// the clipboard holds.
pub open spec fn footer(app: &App, width: nat) -> Seq<Seq<(Tone, Seq<char>)>> {
    if app.confirm is Some {
        toned(wrapped(app.confirm->Some_0.prompt@, 0, width), Tone::Alert)
    } else if app.command is Some {
        seq![seq![(Tone::Input, ":"@ + app.command->Some_0@)]]
    } else if app.browser.filtering {
        seq![seq![(Tone::Input, "/"@ + match app.browser.filter {
            Some(f) => f@,
            None => Seq::<char>::empty(),
        })]]
    } else if app.rename is Some {
        seq![seq![
            (Tone::Faint, "rename "@ + app.rename->Some_0.original@ + " to: "@),
            (Tone::Input, app.rename->Some_0.input@ + "_"@),
        ]]
    } else {
        let pending = pending_text(app.clipboard);
        match app.status {
            None => seq![
                (if pending.len() > 0 { seq![(Tone::Pending, pending)] } else { Seq::empty() })
                    + seq![(Tone::Faint, hints_for(app.mode))],
            ],
            Some(s) => {
                let ls = toned(wrapped(s@, 0, width), Tone::Status);
                if pending.len() > 0 && ls.len() == 1 {
                    seq![seq![(Tone::Pending, pending)] + ls[0]]
                } else {
                    ls
                }
            },
        }
    }
}

/// A segment.
fn seg(tone: Tone, text: String) -> (r: Segment)
    ensures
        r.tone == tone,
        r.text@ == text@,
{
    Segment { tone, text }
}

/// One line of one segment.
fn single(tone: Tone, text: String) -> (r: Vec<Segment>)
    ensures
        r@.map_values(|s: Segment| (s.tone, s.text@)) == seq![(tone, text@)],
{
    let v = vec![seg(tone, text)];
    assert(v@.map_values(|s: Segment| (s.tone, s.text@)) =~= seq![(tone, text@)]);
    v
}

/// Each of `lines` as a line of one segment in the tone `t`.
fn tone_lines(lines: Vec<String>, t: Tone) -> (r: Vec<Vec<Segment>>)
    ensures
        lines_view(r@) == toned(lines@.map_values(|s: String| s@), t),
{
    let mut out: Vec<Vec<Segment>> = Vec::new();
    let mut i: usize = 0;
    let ghost lv = lines@.map_values(|s: String| s@);
    while i < lines.len()
        invariant
            i <= lines@.len(),
            lv == lines@.map_values(|s: String| s@),
            lines_view(out@) == toned(lv.subrange(0, i as int), t),
        decreases lines.len() - i,
    {
        let ghost before = lines_view(out@);
        let line = single(t, lines[i].clone());
        out.push(line);
        assert(lines_view(out@) =~= before.push(seq![(t, lv[i as int])]));
        assert(toned(lv.subrange(0, i + 1), t) =~= toned(lv.subrange(0, i as int), t).push(seq![(t, lv[i as int])]));
        i = i + 1;
    }
    assert(lv.subrange(0, lv.len() as int) =~= lv);
    out
}

/// The key hints of the screen `mode`.
fn hints(mode: &AppMode) -> (r: &'static str)
    ensures
        r@ == hints_for(*mode),
{
    match mode {
        AppMode::Root => "↑/↓ move  →/enter open  n new vault  x forget  : command  ? help  q quit",
        AppMode::Vault(_) => "↑/↓ move  →/enter open  e edit  r run  ←/esc back  space mark  y copy  d cut  p paste  c rename  x delete  / filter  ? help",
        _ => {
            proof {
                reveal_strlit("");
            }
            ""
        },
    }
}

/// What a pending paste shows in the status bar.
fn pending(c: &Option<Clipboard>) -> (r: String)
    ensures
        r@ == pending_text(*c),
{
    match c {
        Some(cb) => {
            let kind = if cb.cut { "cut" } else { "copy" };
            cat3("[", kind, ": ").concat(cb.label().as_str()).concat("] ")
        },
        None => String::new(),
    }
}

/// The status bar of `app`, `width` columns wide (see `footer`).
pub fn footer_lines(app: &App, width: usize) -> (r: Vec<Vec<Segment>>)
    ensures
        lines_view(r@) == footer(app, width as nat),
{
    if let Some(confirm) = &app.confirm {
        return tone_lines(wrap_indented(confirm.prompt.as_str(), 0, width), Tone::Alert);
    }
    if let Some(buffer) = &app.command {
        let l = single(Tone::Input, cat(":", buffer.as_str()));
        let r = vec![l];
        assert(lines_view(r@) =~= footer(app, width as nat));
        return r;
    }
    if app.browser.filtering {
        let f = match &app.browser.filter {
            Some(f) => f.clone(),
            None => String::new(),
        };
        let l = single(Tone::Input, cat("/", f.as_str()));
        let r = vec![l];
        assert(lines_view(r@) =~= footer(app, width as nat));
        return r;
    }
    if let Some(prompt) = &app.rename {
        let a = seg(Tone::Faint, cat3("rename ", prompt.original.as_str(), " to: "));
        let b = seg(Tone::Input, cat(prompt.input.as_str(), "_"));
        let l = vec![a, b];
        assert(l@.map_values(|s: Segment| (s.tone, s.text@)) =~= footer(app, width as nat)[0]);
        let r = vec![l];
        assert(lines_view(r@) =~= footer(app, width as nat));
        return r;
    }
    let p = pending(&app.clipboard);
    let has_pending = app.clipboard.is_some();
    proof {
        reveal_strlit("[");
    }
    assert(has_pending == (pending_text(app.clipboard).len() > 0));
    match &app.status {
        None => {
            let mut spans: Vec<Segment> = Vec::new();
            let ghost pv = pending_text(app.clipboard);
            if has_pending {
                spans.push(seg(Tone::Pending, p));
                assert(spans@.map_values(|s: Segment| (s.tone, s.text@)) =~= seq![(Tone::Pending, pv)]);
            } else {
                assert(spans@.map_values(|s: Segment| (s.tone, s.text@)) =~= Seq::<(Tone, Seq<char>)>::empty());
            }
            let ghost before = spans@.map_values(|s: Segment| (s.tone, s.text@));
            spans.push(seg(Tone::Faint, String::from_str(hints(&app.mode))));
            assert(spans@.map_values(|s: Segment| (s.tone, s.text@)) =~= before.push((Tone::Faint, hints_for(app.mode))));
            assert(spans@.map_values(|s: Segment| (s.tone, s.text@)) =~= footer(app, width as nat)[0]);
            let r = vec![spans];
            assert(lines_view(r@) =~= footer(app, width as nat));
            r
        },
        Some(status) => {
            let mut lines = tone_lines(wrap_indented(status.as_str(), 0, width), Tone::Status);
            if has_pending && lines.len() == 1 {
                let ghost first = lines_view(lines@)[0];
                let mut line = lines.pop().unwrap();
                let mut merged: Vec<Segment> = vec![seg(Tone::Pending, p)];
                let ghost head = merged@.map_values(|s: Segment| (s.tone, s.text@));
                assert(head =~= seq![(Tone::Pending, pending_text(app.clipboard))]);
                crate::ui::append_segments(&mut merged, line);
                lines.push(merged);
                assert(lines_view(lines@) =~= footer(app, width as nat));
            }
            lines
        },
    }
}

/// Moves the segments of `more` onto the end of `line`.
fn append_segments(line: &mut Vec<Segment>, more: Vec<Segment>)
    ensures
        final(line)@.map_values(|s: Segment| (s.tone, s.text@))
            == old(line)@.map_values(|s: Segment| (s.tone, s.text@)) + more@.map_values(|s: Segment| (s.tone, s.text@)),
{
    let ghost start = line@.map_values(|s: Segment| (s.tone, s.text@));
    let ghost mv = more@.map_values(|s: Segment| (s.tone, s.text@));
    let mut i: usize = 0;
    while i < more.len()
        invariant
            i <= more@.len(),
            mv == more@.map_values(|s: Segment| (s.tone, s.text@)),
            line@.map_values(|s: Segment| (s.tone, s.text@)) == start + mv.subrange(0, i as int),
        decreases more.len() - i,
    {
        let ghost before = line@.map_values(|s: Segment| (s.tone, s.text@));
        let s = seg(more[i].tone, more[i].text.clone());
        line.push(s);
        assert(line@.map_values(|s: Segment| (s.tone, s.text@)) =~= before.push(mv[i as int]));
        assert(start + mv.subrange(0, i + 1) =~= (start + mv.subrange(0, i as int)).push(mv[i as int]));
        i = i + 1;
    }
    assert(mv.subrange(0, mv.len() as int) =~= mv);
}


/// A section of the help overlay: its heading, its key bindings (key, what it does), and the
/// remarks under them.
pub struct HelpSection {
    /// The heading.
    pub heading: &'static str,
    /// The bindings: each key with what it does.
    pub entries: Vec<(&'static str, &'static str)>,
    /// Remarks under the bindings.
    pub notes: Vec<&'static str>,
}

/// A section as plain values.
pub open spec fn section_view(s: HelpSection) -> (Seq<char>, Seq<(Seq<char>, Seq<char>)>, Seq<Seq<char>>) {
    (
        s.heading@,
        s.entries@.map_values(|e: (&'static str, &'static str)| (e.0@, e.1@)),
        s.notes@.map_values(|n: &'static str| n@),
    )
}

/// The sections on the keys, in order.
pub open spec fn key_sections() -> Seq<(Seq<char>, Seq<(Seq<char>, Seq<char>)>, Seq<Seq<char>>)> {
    seq![
        ("NAVIGATION"@, seq![("↑/↓  or  k/j"@, "move the selection"@), ("→/enter  or  l"@, "enter a vault or directory, or open a file"@), ("←/esc  or  h"@, "go up a directory, or back to the vault list"@), ("q  /  ctrl-c"@, "quit"@)], Seq::<Seq<char>>::empty()),
        ("OPENING FILES"@, seq![("→/enter  or  l"@, "open with the OS's default application"@), ("e"@, "open in $EDITOR, whatever the OS would have picked"@), ("r"@, "run the file as a program"@)], seq!["Enter and `e` save your edits back to the vault when the program you edited in exits."@, "`r` runs a shebang script or a binary this machine can execute, holding its output on screen until you press a key. Running a program changes nothing in the vault."@]),
        ("SELECTING"@, seq![("space"@, "mark/unmark, and step down"@), ("/"@, "filter this listing as you type"@), ("esc"@, "clear the filter (then: go up a directory)"@)], seq!["Copy, cut and delete act on every marked object at once, or on the cursor when nothing is marked. Marks and filters are dropped when you leave the directory."@]),
        ("COPY & MOVE"@, seq![("y"@, "yank (copy) the marked objects, or the cursor"@), ("d"@, "cut the marked objects, or the cursor"@), ("p"@, "paste into the directory you're browsing"@)], seq!["Navigate to another vault before pasting to copy/move across vaults."@]),
        ("VIEW"@, seq![("s  /  S"@, "cycle sort key / reverse the order"@), ("."@, "show or hide dot-prefixed names"@), ("R"@, "reload the listing from the origin"@)], seq!["Directories always sort before files, whichever key and direction you pick."@]),
        ("CREATE, RENAME & DELETE"@, seq![("a"@, "add a directory here"@), ("t"@, "add an empty file here"@), ("c  /  F2"@, "rename the selected object, in place"@), ("x  or  del"@, "delete marked objects, or the cursor — asks first"@)], seq!["`c` opens a prompt pre-filled with the current name, so you edit it rather than retype it. Enter renames, esc abandons."@, "Deleting a directory takes everything inside it, and nothing here is undoable — there is no trash."@, "Opening a file and editing it saves your changes back to the vault on exit."@]),
        ("OTHER"@, seq![("n"@, "create a vault with the setup wizard"@), ("x"@, "on the vault list: stop tracking a vault"@), (":"@, "open the command line"@), ("?"@, "toggle this help"@)], seq!["Forgetting a vault only unregisters it — its config file and everything in its origin are left where they are."@]),
    ]
}

/// The section on how paths are written.
pub open spec fn paths_section() -> (Seq<char>, Seq<(Seq<char>, Seq<char>)>, Seq<Seq<char>>) {
    ("PATHS"@, seq![("notes.txt"@, "relative to the directory you're in"@), ("/docs/notes.txt"@, "absolute within the current vault"@), ("backup:/inbox"@, "the vault named `backup`, from its root"@)], seq!["A `vault:` prefix is what tells a vault apart from a directory of the same name."@, "cp/mv take either an existing directory or a new path — `cp a.txt backup:/inbox` keeps the name, `cp a.txt backup:/inbox/copy.txt` renames as it copies."@])
}

/// The heading of the commands section.
pub open spec fn commands_heading() -> Seq<char> {
    "COMMANDS  (press : first)"@
}

/// `s` padded with spaces to `n` characters (left as it is when already that long).
pub open spec fn padded(s: Seq<char>, n: nat) -> Seq<char> {
    if s.len() >= n {
        s
    } else {
        s + crate::widgets::repeated(' ', (n - s.len()) as nat)
    }
}

/// The line of a key binding: the key in a column of 22 after two spaces, then what it does.
pub open spec fn binding_line(key: Seq<char>, desc: Seq<char>) -> Seq<(Tone, Seq<char>)> {
    seq![(Tone::Key, "  "@ + padded(key, 22)), (Tone::Description, desc)]
}

/// The lines of the remarks `notes`: each wrapped to `w` columns, indented by two.
pub open spec fn note_lines(notes: Seq<Seq<char>>, w: nat) -> Seq<Seq<(Tone, Seq<char>)>>
    decreases notes.len(),
{
    if notes.len() == 0 {
        Seq::empty()
    } else {
        note_lines(notes.drop_last(), w) + toned(wrapped(notes.last(), 2, w), Tone::Note)
    }
}

/// The lines of a section: its heading, one line per binding, then its remarks.
pub open spec fn section_lines(s: (Seq<char>, Seq<(Seq<char>, Seq<char>)>, Seq<Seq<char>>), w: nat) -> Seq<Seq<(Tone, Seq<char>)>> {
    seq![seq![(Tone::Heading, s.0)]]
        + s.1.map_values(|e: (Seq<char>, Seq<char>)| binding_line(e.0, e.1))
        + note_lines(s.2, w)
}

/// The lines of `sections`, an empty line between each two.
pub open spec fn sections_lines(sections: Seq<(Seq<char>, Seq<(Seq<char>, Seq<char>)>, Seq<Seq<char>>)>, w: nat) -> Seq<Seq<(Tone, Seq<char>)>>
    decreases sections.len(),
{
    if sections.len() == 0 {
        Seq::empty()
    } else if sections.len() == 1 {
        section_lines(sections[0], w)
    } else {
        sections_lines(sections.drop_last(), w).push(Seq::empty()) + section_lines(sections.last(), w)
    }
}

/// The lines of the commands section: each command's usage on a line of its own, then what
/// it does, wrapped to `w` columns and indented by six.
pub open spec fn command_lines(sums: Seq<(Seq<char>, Seq<char>)>, w: nat) -> Seq<Seq<(Tone, Seq<char>)>>
    decreases sums.len(),
{
    if sums.len() == 0 {
        Seq::empty()
    } else {
        command_lines(sums.drop_last(), w).push(seq![(Tone::Key, "  "@ + sums.last().0)])
            + toned(wrapped(sums.last().1, 6, w), Tone::Description)
    }
}

/// The help overlay, its text `w` columns wide: the sections on the keys, then the commands,
/// then how paths are written, an empty line between each two.
pub open spec fn help(w: nat) -> Seq<Seq<(Tone, Seq<char>)>> {
    sections_lines(key_sections(), w)
        + seq![Seq::empty(), seq![(Tone::Heading, commands_heading())]]
        + command_lines(summaries(), w)
        + seq![Seq::empty()]
        + section_lines(paths_section(), w)
}

/// The sections on the keys.
fn key_help_sections() -> (r: Vec<HelpSection>)
    ensures
        r@.map_values(|s: HelpSection| section_view(s)) == key_sections(),
{
    let r = vec![
        HelpSection { heading: "NAVIGATION", entries: vec![("↑/↓  or  k/j", "move the selection"), ("→/enter  or  l", "enter a vault or directory, or open a file"), ("←/esc  or  h", "go up a directory, or back to the vault list"), ("q  /  ctrl-c", "quit")], notes: vec![] },
        HelpSection { heading: "OPENING FILES", entries: vec![("→/enter  or  l", "open with the OS's default application"), ("e", "open in $EDITOR, whatever the OS would have picked"), ("r", "run the file as a program")], notes: vec!["Enter and `e` save your edits back to the vault when the program you edited in exits.", "`r` runs a shebang script or a binary this machine can execute, holding its output on screen until you press a key. Running a program changes nothing in the vault."] },
        HelpSection { heading: "SELECTING", entries: vec![("space", "mark/unmark, and step down"), ("/", "filter this listing as you type"), ("esc", "clear the filter (then: go up a directory)")], notes: vec!["Copy, cut and delete act on every marked object at once, or on the cursor when nothing is marked. Marks and filters are dropped when you leave the directory."] },
        HelpSection { heading: "COPY & MOVE", entries: vec![("y", "yank (copy) the marked objects, or the cursor"), ("d", "cut the marked objects, or the cursor"), ("p", "paste into the directory you're browsing")], notes: vec!["Navigate to another vault before pasting to copy/move across vaults."] },
        HelpSection { heading: "VIEW", entries: vec![("s  /  S", "cycle sort key / reverse the order"), (".", "show or hide dot-prefixed names"), ("R", "reload the listing from the origin")], notes: vec!["Directories always sort before files, whichever key and direction you pick."] },
        HelpSection { heading: "CREATE, RENAME & DELETE", entries: vec![("a", "add a directory here"), ("t", "add an empty file here"), ("c  /  F2", "rename the selected object, in place"), ("x  or  del", "delete marked objects, or the cursor — asks first")], notes: vec!["`c` opens a prompt pre-filled with the current name, so you edit it rather than retype it. Enter renames, esc abandons.", "Deleting a directory takes everything inside it, and nothing here is undoable — there is no trash.", "Opening a file and editing it saves your changes back to the vault on exit."] },
        HelpSection { heading: "OTHER", entries: vec![("n", "create a vault with the setup wizard"), ("x", "on the vault list: stop tracking a vault"), (":", "open the command line"), ("?", "toggle this help")], notes: vec!["Forgetting a vault only unregisters it — its config file and everything in its origin are left where they are."] },
    ];
    assert(r@.map_values(|s: HelpSection| section_view(s)) =~~= key_sections());
    r
}

/// The section on paths.
fn paths_help_section() -> (r: HelpSection)
    ensures
        section_view(r) == paths_section(),
{
    let r = HelpSection { heading: "PATHS", entries: vec![("notes.txt", "relative to the directory you're in"), ("/docs/notes.txt", "absolute within the current vault"), ("backup:/inbox", "the vault named `backup`, from its root")], notes: vec!["A `vault:` prefix is what tells a vault apart from a directory of the same name.", "cp/mv take either an existing directory or a new path — `cp a.txt backup:/inbox` keeps the name, `cp a.txt backup:/inbox/copy.txt` renames as it copies."] };
    assert(section_view(r) =~~= paths_section());
    r
}

/// `s` padded with spaces to `n` characters.
fn pad_to(s: &str, n: usize) -> (r: String)
    ensures
        r@ == padded(s@, n as nat),
{
    let mut v = chars_of(s);
    if v.len() < n {
        let k = n - v.len();
        crate::widgets::push_repeated(&mut v, ' ', k);
    }
    string_of(&v)
}

/// An empty line.
fn blank_line() -> (r: Vec<Segment>)
    ensures
        r@.map_values(|s: Segment| (s.tone, s.text@)) == Seq::<(Tone, Seq<char>)>::empty(),
{
    let r: Vec<Segment> = Vec::new();
    assert(r@.map_values(|s: Segment| (s.tone, s.text@)) =~= Seq::<(Tone, Seq<char>)>::empty());
    r
}

/// Appends `more` to `out`.
fn append_lines(out: &mut Vec<Vec<Segment>>, more: Vec<Vec<Segment>>)
    ensures
        lines_view(final(out)@) == lines_view(old(out)@) + lines_view(more@),
{
    let ghost start = lines_view(out@);
    let ghost mv = lines_view(more@);
    let mut more = more;
    let mut taken: Vec<Vec<Segment>> = Vec::new();
    // reversed so lines can be moved out in order
    while more.len() > 0
        invariant
            lines_view(taken@) + lines_view(more@).reverse() == mv.reverse(),
        decreases more.len(),
    {
        let ghost before_t = lines_view(taken@);
        let ghost before_m = lines_view(more@);
        let l = more.pop().unwrap();
        taken.push(l);
        assert(lines_view(taken@) =~= before_t.push(before_m.last()));
        assert(before_m =~= lines_view(more@).push(before_m.last()));
        assert(before_m.reverse() =~= seq![before_m.last()] + lines_view(more@).reverse());
        assert(lines_view(taken@) + lines_view(more@).reverse() =~= before_t + before_m.reverse());
    }
    assert(lines_view(more@).reverse() =~= Seq::<Seq<(Tone, Seq<char>)>>::empty());
    assert(lines_view(taken@) =~= mv.reverse());
    while taken.len() > 0
        invariant
            lines_view(out@) + lines_view(taken@).reverse() == start + mv,
        decreases taken.len(),
    {
        let ghost before_o = lines_view(out@);
        let ghost before_t = lines_view(taken@);
        let l = taken.pop().unwrap();
        out.push(l);
        assert(lines_view(out@) =~= before_o.push(before_t.last()));
        assert(before_t =~= lines_view(taken@).push(before_t.last()));
        assert(before_t.reverse() =~= seq![before_t.last()] + lines_view(taken@).reverse());
        assert(lines_view(out@) + lines_view(taken@).reverse() =~= before_o + before_t.reverse());
    }
    assert(lines_view(taken@).reverse() =~= Seq::<Seq<(Tone, Seq<char>)>>::empty());
    assert(lines_view(out@) =~= start + mv);
}

/// The lines of a section, `w` columns wide (see `section_lines`).
fn section_help_lines(s: &HelpSection, w: usize) -> (r: Vec<Vec<Segment>>)
    ensures
        lines_view(r@) == section_lines(section_view(*s), w as nat),
{
    let ghost sv = section_view(*s);
    let mut out: Vec<Vec<Segment>> = Vec::new();
    out.push(single(Tone::Heading, String::from_str(s.heading)));
    assert(lines_view(out@) =~= seq![seq![(Tone::Heading, sv.0)]]);
    let mut i: usize = 0;
    while i < s.entries.len()
        invariant
            i <= s.entries@.len(),
            sv == section_view(*s),
            lines_view(out@) == seq![seq![(Tone::Heading, sv.0)]]
                + sv.1.subrange(0, i as int).map_values(|e: (Seq<char>, Seq<char>)| binding_line(e.0, e.1)),
        decreases s.entries.len() - i,
    {
        let (k, d) = s.entries[i];
        let a = seg(Tone::Key, cat("  ", pad_to(k, 22).as_str()));
        let b = seg(Tone::Description, String::from_str(d));
        let l = vec![a, b];
        assert(l@.map_values(|x: Segment| (x.tone, x.text@)) =~= binding_line(sv.1[i as int].0, sv.1[i as int].1));
        let ghost before = lines_view(out@);
        out.push(l);
        assert(lines_view(out@) =~= before.push(binding_line(sv.1[i as int].0, sv.1[i as int].1)));
        assert(sv.1.subrange(0, i + 1).map_values(|e: (Seq<char>, Seq<char>)| binding_line(e.0, e.1))
            =~= sv.1.subrange(0, i as int).map_values(|e: (Seq<char>, Seq<char>)| binding_line(e.0, e.1)).push(binding_line(sv.1[i as int].0, sv.1[i as int].1)));
        i = i + 1;
    }
    assert(sv.1.subrange(0, sv.1.len() as int) =~= sv.1);
    let ghost head = lines_view(out@);
    let mut notes: Vec<Vec<Segment>> = Vec::new();
    let mut j: usize = 0;
    assert(sv.2.subrange(0, 0) =~= Seq::<Seq<char>>::empty());
    while j < s.notes.len()
        invariant
            j <= s.notes@.len(),
            sv == section_view(*s),
            lines_view(notes@) == note_lines(sv.2.subrange(0, j as int), w as nat),
        decreases s.notes.len() - j,
    {
        assert(sv.2.subrange(0, j + 1).drop_last() =~= sv.2.subrange(0, j as int));
        let more = tone_lines(wrap_indented(s.notes[j], 2, w), Tone::Note);
        append_lines(&mut notes, more);
        j = j + 1;
    }
    assert(sv.2.subrange(0, sv.2.len() as int) =~= sv.2);
    append_lines(&mut out, notes);
    out
}

/// The help overlay, its text `text_width` columns wide (see `help`).
pub fn help_lines(text_width: usize) -> (r: Vec<Vec<Segment>>)
    ensures
        lines_view(r@) == help(text_width as nat),
{
    let w = text_width;
    let sections = key_help_sections();
    let ghost ks = key_sections();
    let mut out: Vec<Vec<Segment>> = Vec::new();
    let mut i: usize = 0;
    assert(ks.subrange(0, 0) =~= Seq::<(Seq<char>, Seq<(Seq<char>, Seq<char>)>, Seq<Seq<char>>)>::empty());
    while i < sections.len()
        invariant
            i <= sections@.len(),
            sections@.map_values(|s: HelpSection| section_view(s)) == ks,
            lines_view(out@) == sections_lines(ks.subrange(0, i as int), w as nat),
        decreases sections.len() - i,
    {
        assert(ks.subrange(0, i + 1).drop_last() =~= ks.subrange(0, i as int));
        assert(ks.subrange(0, i + 1).last() == ks[i as int]);
        if i > 0 {
            let ghost before = lines_view(out@);
            out.push(blank_line());
            assert(lines_view(out@) =~= before.push(Seq::empty()));
        } else {
            assert(lines_view(out@) =~= Seq::<Seq<(Tone, Seq<char>)>>::empty());
            assert(ks.subrange(0, 1)[0] == ks[0]);
        }
        let more = section_help_lines(&sections[i], w);
        append_lines(&mut out, more);
        i = i + 1;
    }
    assert(ks.subrange(0, ks.len() as int) =~= ks);
    let ghost before = lines_view(out@);
    out.push(blank_line());
    out.push(single(Tone::Heading, String::from_str("COMMANDS  (press : first)")));
    assert(lines_view(out@) =~= before + seq![Seq::empty(), seq![(Tone::Heading, commands_heading())]]);
    let sums = command_summaries();
    let ghost sv = summaries();
    let ghost base = lines_view(out@);
    let mut cmds: Vec<Vec<Segment>> = Vec::new();
    let mut j: usize = 0;
    assert(sv.subrange(0, 0) =~= Seq::<(Seq<char>, Seq<char>)>::empty());
    while j < sums.len()
        invariant
            j <= sums@.len(),
            sums@.map_values(|p: (String, String)| (p.0@, p.1@)) == sv,
            lines_view(cmds@) == command_lines(sv.subrange(0, j as int), w as nat),
        decreases sums.len() - j,
    {
        assert(sv.subrange(0, j + 1).drop_last() =~= sv.subrange(0, j as int));
        assert(sv[j as int] == (sums@[j as int].0@, sums@[j as int].1@));
        let ghost b = lines_view(cmds@);
        cmds.push(single(Tone::Key, cat("  ", sums[j].0.as_str())));
        assert(lines_view(cmds@) =~= b.push(seq![(Tone::Key, "  "@ + sv[j as int].0)]));
        let more = tone_lines(wrap_indented(sums[j].1.as_str(), 6, w), Tone::Description);
        append_lines(&mut cmds, more);
        j = j + 1;
    }
    assert(sv.subrange(0, sv.len() as int) =~= sv);
    append_lines(&mut out, cmds);
    let ghost b2 = lines_view(out@);
    out.push(blank_line());
    assert(lines_view(out@) =~= b2 + seq![Seq::<(Tone, Seq<char>)>::empty()]);
    let paths = paths_help_section();
    let tail = section_help_lines(&paths, w);
    append_lines(&mut out, tail);
    out
}

/// How wide the help overlay is on a screen `area_width` columns wide: nine tenths of it, at
/// most 96 columns.
pub fn help_popup_width(area_width: u16) -> (r: u16)
    ensures
        r as int == if area_width as int * 9 / 10 <= 96 { area_width as int * 9 / 10 } else { 96 },
{
    let w: u32 = (area_width as u32) * 9 / 10;
    if w <= 96 {
        w as u16
    } else {
        96
    }
}


/// Width of the size column, wide enough for `1023.9G`.
pub const SIZE_WIDTH: usize = 8;
/// Width of the modified column, sized for `2026-07-25 14:03`.
pub const MODIFIED_WIDTH: usize = 16;
/// Below this, the columns are dropped entirely rather than squeezing names to nothing.
pub const MIN_NAME_WIDTH: usize = 16;

/// `s` right-aligned in `n` columns (left as it is when already that long).
pub open spec fn right_aligned(s: Seq<char>, n: nat) -> Seq<char> {
    if s.len() >= n {
        s
    } else {
        repeated(' ', (n - s.len()) as nat) + s
    }
}

/// `s` right-aligned in `n` columns.
fn align_right(s: &str, n: usize) -> (r: String)
    ensures
        r@ == right_aligned(s@, n as nat),
{
    let v = chars_of(s);
    let mut out: Vec<char> = Vec::new();
    if v.len() < n {
        push_repeated(&mut out, ' ', n - v.len());
    }
    crate::text::push_all(&mut out, &v);
    assert(out@ =~= right_aligned(s@, n as nat));
    string_of(&out)
}

/// Whether an object is shown as a directory: a branch, or the root.
pub open spec fn shown_as_dir(o: Object) -> bool {
    o is Branch || o is Root
}

/// The name an object is listed under: `/` for the root, a directory's name with a `/` after
/// it, a file's name as it is.
pub open spec fn listed_name(o: Object) -> Seq<char> {
    match o {
        Object::Root { .. } => "/"@,
        Object::Branch { name, .. } => name@ + "/"@,
        Object::Leaf { name, .. } => name@,
    }
}

/// The size column of an object: `—` for a directory (its own byte count says nothing of
/// what is in it), the size in human units for a file, `?` when the origin gave none.
pub open spec fn size_column(o: Object) -> Seq<char> {
    match o {
        Object::Leaf { meta, .. } => match meta.size {
            Some(n) => human_size_text(n as nat),
            None => "?"@,
        },
        _ => "—"@,
    }
}

/// The row of `o` in the object list: the mark column (`*` when marked), then the name, in
/// the marked tone when marked, else a directory's or a file's. With `columns`, the name is
/// fitted to `name_width` and followed by the size, right-aligned in `SIZE_WIDTH` and two
/// spaces, and the modification time (`local_time`, the caller's rendering of it in local
/// time; `—` when there is none), right-aligned in `MODIFIED_WIDTH`.
pub open spec fn entry_row(o: Object, marked: bool, columns: bool, name_width: nat, local_time: Option<Seq<char>>) -> Seq<(Tone, Seq<char>)> {
    let mark = (Tone::Marked, if marked { "*"@ } else { " "@ });
    let tone = if marked { Tone::Marked } else if shown_as_dir(o) { Tone::Directory } else { Tone::Plain };
    if !columns {
        seq![mark, (tone, listed_name(o))]
    } else {
        seq![
            mark,
            (tone, fitted(listed_name(o), name_width)),
            (Tone::Description, right_aligned(size_column(o), SIZE_WIDTH as nat) + "  "@),
            (Tone::Faint, right_aligned(match local_time {
                Some(t) => t,
                None => "—"@,
            }, MODIFIED_WIDTH as nat)),
        ]
    }
}

/// The row of `o` in the object list (see `entry_row`).
pub fn entry_line(o: &Object, marked: bool, columns: bool, name_width: usize, local_time: Option<String>) -> (r: Vec<Segment>)
    ensures
        r@.map_values(|s: Segment| (s.tone, s.text@)) == entry_row(*o, marked, columns, name_width as nat, match local_time {
            Some(t) => Some(t@),
            None => None,
        }),
{
    let is_dir = matches!(o, Object::Branch { .. } | Object::Root { .. });
    let name = match o {
        Object::Root { .. } => String::from_str("/"),
        Object::Branch { name, .. } => cat(name.as_str(), "/"),
        Object::Leaf { name, .. } => name.clone(),
    };
    let mark = seg(Tone::Marked, String::from_str(if marked { "*" } else { " " }));
    let tone = if marked { Tone::Marked } else if is_dir { Tone::Directory } else { Tone::Plain };
    if !columns {
        let r = vec![mark, seg(tone, name)];
        assert(r@.map_values(|s: Segment| (s.tone, s.text@)) =~= entry_row(*o, marked, columns, name_width as nat, match local_time {
            Some(t) => Some(t@),
            None => None,
        }));
        return r;
    }
    let size = match o {
        Object::Leaf { meta, .. } => match meta.size {
            Some(n) => human_size(n),
            None => String::from_str("?"),
        },
        _ => String::from_str("—"),
    };
    let modified = match &local_time {
        Some(t) => t.clone(),
        None => String::from_str("—"),
    };
    let r = vec![
        mark,
        seg(tone, pad_or_truncate(name.as_str(), name_width)),
        seg(Tone::Description, cat(align_right(size.as_str(), SIZE_WIDTH).as_str(), "  ")),
        seg(Tone::Faint, align_right(modified.as_str(), MODIFIED_WIDTH)),
    ];
    assert(r@.map_values(|s: Segment| (s.tone, s.text@)) =~= entry_row(*o, marked, columns, name_width as nat, match local_time {
        Some(t) => Some(t@),
        None => None,
    }));
    r
}

/// How wide names are in an object list `inner_width` columns wide, and whether the size and
/// modified columns are shown: the names get what the highlight symbol (2), the mark (1), the
/// size column and its gap (`SIZE_WIDTH` + 2) and the modified column leave; with less than
/// `MIN_NAME_WIDTH` left the columns are dropped.
pub fn name_column(inner_width: usize) -> (r: (usize, bool))
    ensures
        r.0 as int == if inner_width >= 29 { inner_width - 29 } else { 0 },
        r.1 == (r.0 >= MIN_NAME_WIDTH),
{
    let fixed = 2 + 1 + SIZE_WIDTH + 2 + MODIFIED_WIDTH;
    let w = if inner_width >= fixed { inner_width - fixed } else { 0 };
    (w, w >= MIN_NAME_WIDTH)
}

/// The title of the object list: with the filter and how many objects are marked, when any.
pub open spec fn object_list_title_text(filter: Option<Seq<char>>, marked: nat) -> Seq<char> {
    match filter {
        Some(f) => if marked == 0 {
            "objects — filter: "@ + f
        } else {
            "objects — filter: "@ + f + " · "@ + crate::text::decimal(marked) + " marked"@
        },
        None => if marked == 0 {
            "objects"@
        } else {
            "objects — "@ + crate::text::decimal(marked) + " marked"@
        },
    }
}

/// The title of the object list (see `object_list_title_text`).
pub fn object_list_title(filter: &Option<String>, marked: usize) -> (r: String)
    ensures
        r@ == object_list_title_text(match filter {
            Some(f) => Some(f@),
            None => None,
        }, marked as nat),
{
    let n = string_of(&crate::text::decimal_chars(marked as u64));
    match filter {
        Some(f) => if marked == 0 {
            cat("objects — filter: ", f.as_str())
        } else {
            cat("objects — filter: ", f.as_str()).concat(" · ").concat(n.as_str()).concat(" marked")
        },
        None => if marked == 0 {
            String::from_str("objects")
        } else {
            cat3("objects — ", n.as_str(), " marked")
        },
    }
}

/// The title of the screen: the vault list, or the vault and directory being browsed.
pub open spec fn header_title_text(mode: AppMode, pwd: Seq<char>) -> Seq<char> {
    match mode {
        AppMode::Root => "nimbus — vaults"@,
        AppMode::Vault(name) => "nimbus — "@ + name@ + ":"@ + pwd,
        _ => "nimbus"@,
    }
}

/// The title of the screen (see `header_title_text`), with `pwd` the directory browsed.
pub fn header_title(mode: &AppMode, pwd: &str) -> (r: String)
    ensures
        r@ == header_title_text(*mode, pwd@),
{
    match mode {
        AppMode::Root => String::from_str("nimbus — vaults"),
        AppMode::Vault(name) => cat3("nimbus — ", name.as_str(), ":").concat(pwd),
        _ => String::from_str("nimbus"),
    }
}

/// How many rows the status bar takes for `lines` lines of it: one to four.
pub fn footer_height(lines: usize) -> (r: u16)
    ensures
        r as int == if lines < 1 { 1 } else if lines > 4 { 4 } else { lines as int },
{
    if lines < 1 {
        1
    } else if lines > 4 {
        4
    } else {
        lines as u16
    }
}

/// A row of the vault list: the name after two spaces.
pub fn vault_row(name: &str) -> (r: String)
    ensures
        r@ == "  "@ + name@,
{
    cat("  ", name)
}

} // verus!
