//! The terminal frontend's state and what each key press does to it. Work that needs the
//! vaults (listing, opening, running a command) is handed back as an `Action` for the caller to
//! carry out; everything else happens here.

use vstd::prelude::*;
use crate::browser::{cursor_kept, name_at, Browser, Entry, EntryKind, SortKey, opt_text, view_of};
use crate::grammar::{parse, AppEvent};
use crate::object::ObjectId;
use crate::origin_fs::path_join;
use crate::text::{cat, cat3, chars_eq, chars_of, decimal, decimal_chars, string_of};

verus! {

/// Which screen is up.
#[derive(Debug, Clone, PartialEq, Eq)]
pub enum AppMode {
    /// The list of vaults.
    Root,
    /// Browsing the named vault.
    Vault(String),
    /// The vault creation wizard.
    New,
    /// Leaving.
    Quit,
}

/// An in-progress rename: the object being renamed, and the name being typed for it.
#[derive(Debug, Clone, PartialEq, Eq)]
pub struct RenamePrompt {
    /// The object's current name.
    pub original: String,
    /// The new name, pre-filled with `original`.
    pub input: String,
}

/// An action held back until the user confirms it.
#[derive(Debug, Clone, PartialEq, Eq)]
pub struct Confirm {
    /// The question to put in the status bar.
    pub prompt: String,
    /// What to run, in order, on `y`.
    pub events: Vec<AppEvent>,
}

/// One object picked up by `y`/`d`.
#[derive(Debug, Clone, PartialEq, Eq)]
pub struct ClipboardEntry {
    /// The fully-qualified `vault:/path` of the object.
    pub spec: String,
    /// The object's own name.
    pub name: String,
}

/// What `y`/`d` picked up, to be copied or moved on the next `p`.
#[derive(Debug, Clone, PartialEq, Eq)]
pub struct Clipboard {
    /// The objects.
    pub entries: Vec<ClipboardEntry>,
    /// Whether to move (cut) rather than copy on paste.
    pub cut: bool,
}

impl Clipboard {
    /// How the clipboard reads in the status bar: the object's name, or how many there are.
    pub open spec fn label_spec(&self) -> Seq<char> {
        if self.entries@.len() == 1 {
            self.entries@[0].name@
        } else {
            decimal(self.entries@.len()) + " objects"@
        }
    }

    /// How the clipboard reads in the status bar.
    pub fn label(&self) -> (r: String)
        ensures
            r@ == self.label_spec(),
    {
        if self.entries.len() == 1 {
            self.entries[0].name.clone()
        } else {
            let n = string_of(&decimal_chars(self.entries.len() as u64));
            cat(n.as_str(), " objects")
        }
    }
}

/// A key, as far as the frontend's bindings tell keys apart.
#[derive(Debug, Clone, Copy, PartialEq, Eq, Structural)]
pub enum Key {
    /// A character key.
    Char(char),
    /// Enter.
    Enter,
    /// Escape.
    Esc,
    /// Backspace.
    Backspace,
    /// Arrow up.
    Up,
    /// Arrow down.
    Down,
    /// Arrow left.
    Left,
    /// Arrow right.
    Right,
    /// Delete.
    Delete,
    /// Tab.
    Tab,
    /// The F2 function key.
    F2,
    /// Anything else.
    Other,
}

/// Work a key press asks of the caller.
#[derive(Debug, Clone, PartialEq, Eq)]
pub enum Action {
    /// Nothing more to do.
    Nothing,
    /// Hand the key to the creation wizard.
    Creator,
    /// Run this event.
    Apply(AppEvent),
    /// Run these events, in order.
    ApplyAll(Vec<AppEvent>),
    /// Select the vault and list its root.
    EnterVault(String),
    /// Change into the directory and list it.
    Descend(String),
    /// Fetch the object and open it.
    Open(String, ObjectId),
    /// Fetch the object and open it in the text editor, whatever the system would pick.
    Edit(String, ObjectId),
    /// Fetch the object and run it as a program.
    Run(String, ObjectId),
    /// Go up a directory, or back to the vault list from a vault's root.
    Ascend,
    /// Relist the vaults.
    RefreshVaults,
    /// Relist the working directory, then show this status.
    RefreshObjects(String),
    /// Run these copies (or moves, when `cut`), in order, stopping at the first failure.
    Paste(Vec<AppEvent>, bool),
}

/// The frontend's state.
pub struct App {
    /// Which screen is up.
    pub mode: AppMode,
    /// The vault names on the root screen.
    pub vaults: Vec<String>,
    /// The cursor on the root screen.
    pub vault_selected: Option<usize>,
    /// The listing of the working directory.
    pub browser: Browser,
    /// The last error or info message.
    pub status: Option<String>,
    /// The `:` line being typed, if open.
    pub command: Option<String>,
    /// Whether the creation wizard has the keyboard.
    pub creator_open: bool,
    /// What `y`/`d` picked up.
    pub clipboard: Option<Clipboard>,
    /// The help overlay's scroll offset, while it is up.
    pub help: Option<u16>,
    /// A destructive action waiting for `y`.
    pub confirm: Option<Confirm>,
    /// The rename prompt, if open.
    pub rename: Option<RenamePrompt>,
}

/// The cursor after moving down a list of `len`: the next row, wrapping to the top.
pub open spec fn next_row(sel: Option<usize>, len: nat) -> Option<usize> {
    if len == 0 {
        sel
    } else {
        match sel {
            Some(i) => if i + 1 < len { Some((i + 1) as usize) } else { Some(0usize) },
            None => Some(0usize),
        }
    }
}

/// The cursor after moving up a list of `len`: the previous row, wrapping to the bottom.
pub open spec fn previous_row(sel: Option<usize>, len: nat) -> Option<usize> {
    if len == 0 {
        sel
    } else {
        match sel {
            Some(i) => if i == 0 { Some((len - 1) as usize) } else { Some((i - 1) as usize) },
            None => Some((len - 1) as usize),
        }
    }
}

/// Moves a cursor down a list of `len`.
pub fn select_next(sel: Option<usize>, len: usize) -> (r: Option<usize>)
    ensures
        r == next_row(sel, len as nat),
{
    if len == 0 {
        return sel;
    }
    match sel {
        Some(i) => if i < len - 1 { Some(i + 1) } else { Some(0) },
        None => Some(0),
    }
}

/// Moves a cursor up a list of `len`.
pub fn select_previous(sel: Option<usize>, len: usize) -> (r: Option<usize>)
    ensures
        r == previous_row(sel, len as nat),
{
    if len == 0 {
        return sel;
    }
    match sel {
        Some(0) | None => Some(len - 1),
        Some(i) => Some(i - 1),
    }
}

/// Moving down then up a non-empty list comes back to the same row.
pub proof fn lemma_down_then_up(sel: usize, len: nat)
    requires
        sel < len,
        len <= usize::MAX,
    ensures
        previous_row(next_row(Some(sel), len), len) == Some(sel),
{
}

/// `s` with `c` appended.
pub fn push_char(s: &mut String, c: char)
    ensures
        final(s)@ == old(s)@.push(c),
{
    let mut v = chars_of(s.as_str());
    v.push(c);
    *s = string_of(&v);
}

/// `s` without its last character (unchanged when empty).
pub fn pop_char(s: &mut String)
    ensures
        final(s)@ == if old(s)@.len() > 0 { old(s)@.drop_last() } else { old(s)@ },
{
    let mut v = chars_of(s.as_str());
    if v.len() > 0 {
        v.pop();
        *s = string_of(&v);
    }
}

/// Whether `names` holds `name`.
pub open spec fn holds(names: Seq<String>, name: Seq<char>) -> bool {
    exists|i: int| 0 <= i < names.len() && #[trigger] names[i]@ == name
}

/// Whether `names` holds `name`.
fn holds_name(names: &Vec<String>, name: &String) -> (b: bool)
    ensures
        b == holds(names@, name@),
{
    let target = chars_of(name.as_str());
    let mut i: usize = 0;
    while i < names.len()
        invariant
            i <= names@.len(),
            target@ == name@,
            forall|j: int| 0 <= j < i ==> #[trigger] names@[j]@ != name@,
        decreases names.len() - i,
    {
        let c = chars_of(names[i].as_str());
        if chars_eq(&c, &target) {
            return true;
        }
        i = i + 1;
    }
    false
}

/// `names` without every entry equal to `n`.
pub open spec fn without(names: Seq<String>, n: Seq<char>) -> Seq<String>
    decreases names.len(),
{
    if names.len() == 0 {
        names
    } else if names.last()@ == n {
        without(names.drop_last(), n)
    } else {
        without(names.drop_last(), n).push(names.last())
    }
}

/// What `without` keeps: every other name.
proof fn lemma_without_holds(names: Seq<String>, n: Seq<char>, m: Seq<char>)
    ensures
        holds(without(names, n), m) <==> (m != n && holds(names, m)),
    decreases names.len(),
{
    if names.len() > 0 {
        let rest = names.drop_last();
        lemma_without_holds(rest, n, m);
        let w = without(names, n);
        let wr = without(rest, n);
        if holds(names, m) {
            let j = choose|j: int| 0 <= j < names.len() && #[trigger] names[j]@ == m;
            if j < names.len() - 1 {
                assert(rest[j]@ == m);
            }
        }
        if holds(rest, m) {
            let j = choose|j: int| 0 <= j < rest.len() && #[trigger] rest[j]@ == m;
            assert(names[j]@ == m);
        }
        if names.last()@ != n {
            assert(w == wr.push(names.last()));
            if holds(w, m) {
                let j = choose|j: int| 0 <= j < w.len() && #[trigger] w[j]@ == m;
                if j < wr.len() {
                    assert(wr[j]@ == m);
                }
            }
            if holds(wr, m) {
                let j = choose|j: int| 0 <= j < wr.len() && #[trigger] wr[j]@ == m;
                assert(w[j]@ == m);
            }
            assert(w[wr.len() as int]@ == names.last()@);
        } else {
            assert(w == wr);
        }
    } else {
        assert(without(names, n) == names);
    }
}

/// The marked objects among `visible[..k]`, in display order.
pub open spec fn marked_in(objects: Seq<Entry>, visible: Seq<usize>, marked: Seq<String>) -> Seq<Entry>
    decreases visible.len(),
{
    if visible.len() == 0 {
        Seq::empty()
    } else {
        let rest = marked_in(objects, visible.drop_last(), marked);
        if visible.last() < objects.len() && holds(marked, objects[visible.last() as int].name@) {
            rest.push(objects[visible.last() as int])
        } else {
            rest
        }
    }
}

/// What a bulk operation acts on: everything marked, in display order, or the object under the
/// cursor when nothing is marked.
pub open spec fn targets_of(b: &Browser) -> Seq<Entry> {
    if b.marked@.len() == 0 {
        match b.selected {
            Some(k) => if k < b.visible@.len() && b.visible@[k as int] < b.objects@.len() {
                seq![b.objects@[b.visible@[k as int] as int]]
            } else {
                Seq::empty()
            },
            None => Seq::empty(),
        }
    } else {
        marked_in(b.objects@, b.visible@, b.marked@)
    }
}

/// The `vault:/path` of the object `name` in the directory `pwd` of `vault`.
pub open spec fn qualified(vault: Seq<char>, pwd: Seq<char>, name: Seq<char>) -> Seq<char> {
    vault + seq![':'] + path_join(pwd, name)
}

/// The `vault:/path` of the object `name` in the directory `pwd` of `vault`.
pub fn qualify(vault: &str, pwd: &str, name: &str) -> (r: String)
    ensures
        r@ == qualified(vault@, pwd@, name@),
{
    let p = crate::config::join(pwd, name);
    proof {
        reveal_strlit(":");
    }
    cat3(vault, ":", p.as_str())
}

/// How many of `ts` are directories.
pub open spec fn branch_count(ts: Seq<Entry>) -> nat
    decreases ts.len(),
{
    if ts.len() == 0 {
        0
    } else {
        branch_count(ts.drop_last()) + if ts.last().kind == EntryKind::Branch { 1nat } else { 0nat }
    }
}

/// The question asked before deleting `ts`.
pub open spec fn delete_prompt(ts: Seq<Entry>) -> Seq<char> {
    if ts.len() == 1 {
        if ts[0].kind == EntryKind::Branch {
            "delete "@ + ts[0].name@ + "/ and everything in it? (y/N)"@
        } else {
            "delete "@ + ts[0].name@ + "? (y/N)"@
        }
    } else {
        let d = branch_count(ts);
        let scope = if d > 0 {
            " ("@ + decimal(d) + " director"@ + (if d == 1 { "y"@ } else { "ies"@ }) + " — contents included)"@
        } else {
            Seq::empty()
        };
        "delete "@ + decimal(ts.len()) + " objects"@ + scope + "? (y/N)"@
    }
}

/// Whether `e` deletes the object `name` of directory `pwd` in `vault`, forced.
pub open spec fn deletes(e: AppEvent, vault: Seq<char>, pwd: Seq<char>, name: Seq<char>) -> bool {
    e matches AppEvent::Delete { path, vault: v, force } && path@ == qualified(vault, pwd, name) && v is None && force
}

impl App {
    /// The state on start-up: the vault list, with the cursor on the first vault.
    pub fn new(vaults: Vec<String>) -> (r: App)
        ensures
            r.mode == AppMode::Root,
            r.vaults@ == vaults@,
            r.vault_selected == if vaults@.len() > 0 { Some(0usize) } else { None },
            r.status is None,
            r.command is None,
            !r.creator_open,
            r.clipboard is None,
            r.help is None,
            r.confirm is None,
            r.rename is None,
    {
        let sel = if vaults.len() > 0 { Some(0) } else { None };
        App {
            mode: AppMode::Root,
            vaults,
            vault_selected: sel,
            browser: Browser::new(),
            status: None,
            command: None,
            creator_open: false,
            clipboard: None,
            help: None,
            confirm: None,
            rename: None,
        }
    }

    /// Whether the application keeps running.
    pub fn running(&self) -> (b: bool)
        ensures
            b == !(self.mode == AppMode::Quit),
    {
        !matches!(self.mode, AppMode::Quit)
    }

    /// What a bulk operation acts on.
    pub fn targets(&self) -> (r: Vec<Entry>)
        ensures
            r@ == targets_of(&self.browser),
    {
        let b = &self.browser;
        if b.marked.len() == 0 {
            let mut out: Vec<Entry> = Vec::new();
            match b.selected {
                Some(k) => {
                    if k < b.visible.len() && b.visible[k] < b.objects.len() {
                        out.push(b.objects[b.visible[k]].duplicate());
                    }
                },
                None => {},
            }
            return out;
        }
        let mut out: Vec<Entry> = Vec::new();
        let mut i: usize = 0;
        while i < b.visible.len()
            invariant
                i <= b.visible@.len(),
                b.marked@.len() > 0,
                out@ == marked_in(b.objects@, b.visible@.subrange(0, i as int), b.marked@),
            decreases b.visible.len() - i,
        {
            assert(b.visible@.subrange(0, i + 1).drop_last() =~= b.visible@.subrange(0, i as int));
            let idx = b.visible[i];
            if idx < b.objects.len() && holds_name(&b.marked, &b.objects[idx].name) {
                out.push(b.objects[idx].duplicate());
            }
            i = i + 1;
        }
        assert(b.visible@.subrange(0, i as int) =~= b.visible@);
        out
    }
}

/// The status shown after a sort change: `sort: <key> <asc|desc>`.
pub open spec fn sort_text(key: SortKey, reverse: bool) -> Seq<char> {
    "sort: "@ + key.label_spec() + " "@ + if reverse { "desc"@ } else { "asc"@ }
}

/// What pasting the clipboard into directory `pwd` of `vault` runs: a move (cut) or copy of
/// each entry, by its qualified path, into `vault:pwd`.
pub open spec fn pastes(e: AppEvent, entry: ClipboardEntry, cut: bool, vault: Seq<char>, pwd: Seq<char>) -> bool {
    if cut {
        e matches AppEvent::Mv { path, destination, vault: v } && path@ == entry.spec@ && destination@ == vault + seq![':'] + pwd && v is None
    } else {
        e matches AppEvent::Cp { path, destination, vault: v } && path@ == entry.spec@ && destination@ == vault + seq![':'] + pwd && v is None
    }
}

/// Whether a key closes the help overlay.
pub open spec fn closes_help(key: Key) -> bool {
    key == Key::Esc || key == Key::Char('q') || key == Key::Char('?')
}

/// The message a finished operation leaves in the status bar: `<verb> ok`, or the error.
pub open spec fn report_text(verb: Seq<char>, result: Result<(), Seq<char>>) -> Seq<char> {
    match result {
        Ok(()) => verb + " ok"@,
        Err(m) => m,
    }
}

/// The verb an event's outcome is reported with, for the events that change a vault.
pub open spec fn verb_of(e: AppEvent) -> Option<Seq<char>> {
    match e {
        AppEvent::Put { .. } => Some("put"@),
        AppEvent::Get { .. } => Some("get"@),
        AppEvent::Mkdir { .. } => Some("created"@),
        AppEvent::Touch { .. } => Some("created"@),
        AppEvent::Rename { .. } => Some("renamed"@),
        AppEvent::Delete { .. } => Some("deleted"@),
        AppEvent::Cp { .. } => Some("copied"@),
        AppEvent::Mv { .. } => Some("moved"@),
        AppEvent::Push { .. } => Some("pushed"@),
        AppEvent::Pull { .. } => Some("pulled"@),
        _ => None,
    }
}

/// The verb an event's outcome is reported with.
pub fn event_verb(e: &AppEvent) -> (r: Option<&'static str>)
    ensures
        match r {
            Some(v) => verb_of(*e) == Some(v@),
            None => verb_of(*e) is None,
        },
{
    match e {
        AppEvent::Put { .. } => Some("put"),
        AppEvent::Get { .. } => Some("get"),
        AppEvent::Mkdir { .. } => Some("created"),
        AppEvent::Touch { .. } => Some("created"),
        AppEvent::Rename { .. } => Some("renamed"),
        AppEvent::Delete { .. } => Some("deleted"),
        AppEvent::Cp { .. } => Some("copied"),
        AppEvent::Mv { .. } => Some("moved"),
        AppEvent::Push { .. } => Some("pushed"),
        AppEvent::Pull { .. } => Some("pulled"),
        _ => None,
    }
}

/// The text of a trimmed line: white space dropped at both ends.
fn trimmed_string(s: &String) -> (r: String)
    ensures
        r@ == crate::origin_command::trimmed(s@),
{
    crate::origin_command::trim(s.as_str())
}

/// An optional text, as characters.
pub open spec fn str_opt(o: Option<&str>) -> Option<Seq<char>> {
    match o {
        Some(v) => Some(v@),
        None => None,
    }
}

/// The entry under the cursor, if the cursor is on one.
pub open spec fn selected_entry(b: Browser) -> Option<Entry> {
    match b.selected {
        Some(k) => if k < b.visible@.len() && b.visible@[k as int] < b.objects@.len() {
            Some(b.objects@[b.visible@[k as int] as int])
        } else {
            None
        },
        None => None,
    }
}

/// The name and id of the file under the cursor, if the cursor is on a leaf.
pub open spec fn selected_leaf(b: Browser) -> Option<(Seq<char>, Seq<char>)> {
    match selected_entry(b) {
        Some(e) => if e.kind == EntryKind::Leaf {
            Some((e.name@, e.id@))
        } else {
            None
        },
        None => None,
    }
}

/// How `confirm_delete` in directory `pwd` of `vault` takes state `a` to `b`.
pub open spec fn delete_effect(a: App, b: App, vault: Option<Seq<char>>, pwd: Seq<char>) -> bool {
    &&& b.browser == a.browser
    &&& b.mode == a.mode
    &&& b.clipboard == a.clipboard
    &&& vault is None ==> b.confirm == a.confirm && b.status == a.status
    &&& vault matches Some(v) ==> {
        let ts = targets_of(&a.browser);
        if ts.len() == 0 {
            b.confirm == a.confirm && (b.status matches Some(m) && m@ == "nothing selected"@)
        } else {
            b.status == a.status && (b.confirm matches Some(c) && c.prompt@ == delete_prompt(ts)
                && c.events@.len() == ts.len() && forall|k: int| 0 <= k < ts.len() ==> deletes(#[trigger] c.events@[k], v, pwd, ts[k].name@))
        }
    }
}

/// How `yank` (a cut when `cut`) in directory `pwd` of `vault` takes state `a` to `b`.
pub open spec fn yank_effect(a: App, b: App, cut: bool, vault: Option<Seq<char>>, pwd: Seq<char>) -> bool {
    &&& b.mode == a.mode
    &&& b.confirm == a.confirm
    &&& b.browser.objects@ == a.browser.objects@
    &&& b.browser.visible@ == a.browser.visible@
    &&& b.browser.selected == a.browser.selected
    &&& (vault is None || targets_of(&a.browser).len() == 0) ==> b.clipboard == a.clipboard && b.status == a.status
        && b.browser.marked@ == a.browser.marked@
    &&& vault matches Some(v) ==> (targets_of(&a.browser).len() > 0 ==> {
        let ts = targets_of(&a.browser);
        &&& b.clipboard matches Some(c) && c.cut == cut && c.entries@.len() == ts.len()
            && (forall|k: int| 0 <= k < ts.len() ==> #[trigger] c.entries@[k].name@ == ts[k].name@
                && c.entries@[k].spec@ == qualified(v, pwd, ts[k].name@))
            && (b.status matches Some(m) && m@ == (if cut { "cut"@ } else { "yanked"@ }) + " "@ + c.label_spec() + " — press p to paste"@)
        &&& b.browser.marked@.len() == 0
    })
}

/// How `paste` into directory `pwd` of `vault` takes state `a` to `b`, answering `r`.
pub open spec fn paste_effect(a: App, b: App, vault: Option<Seq<char>>, pwd: Seq<char>, r: Action) -> bool {
    &&& b.clipboard == a.clipboard
    &&& b.browser == a.browser
    &&& b.mode == a.mode
    &&& a.clipboard is None ==> r == Action::Nothing && (b.status matches Some(m) && m@ == "nothing to paste"@)
    &&& (a.clipboard is Some && vault is None) ==> r == Action::Nothing && (b.status matches Some(m) && m@ == "no vault selected"@)
    &&& a.clipboard matches Some(c) ==> vault matches Some(v) ==> b.status == a.status
        && (r matches Action::Paste(events, cut) && cut == c.cut && events@.len() == c.entries@.len()
        && forall|k: int| 0 <= k < events@.len() ==> pastes(#[trigger] events@[k], c.entries@[k], c.cut, v, pwd))
}

/// How `begin_rename` takes state `a` to `b`: the prompt, pre-filled with the name under the
/// cursor, or "nothing selected".
pub open spec fn rename_effect(a: App, b: App) -> bool {
    &&& b.browser == a.browser
    &&& b.mode == a.mode
    &&& match a.browser.selected_name_spec() {
        Some(n) => b.rename matches Some(p) && p.original@ == n && p.input@ == n && b.status == a.status,
        None => b.rename == a.rename && (b.status matches Some(m) && m@ == "nothing selected"@),
    }
}

/// How `toggle_mark` takes state `a` to `b`: the name under the cursor is marked or unmarked,
/// and the cursor steps down.
pub open spec fn mark_effect(a: App, b: App) -> bool {
    &&& b.mode == a.mode
    &&& b.browser.objects@ == a.browser.objects@
    &&& b.browser.visible@ == a.browser.visible@
    &&& match a.browser.selected_name_spec() {
        Some(n) => (holds(b.browser.marked@, n) <==> !holds(a.browser.marked@, n))
            && (forall|m: Seq<char>| m != n ==> (holds(b.browser.marked@, m) <==> holds(a.browser.marked@, m)))
            && b.browser.selected == next_row(a.browser.selected, a.browser.visible@.len()),
        None => b.browser == a.browser,
    }
}

/// How answering a pending confirmation with `key` takes state `a` to `b`, answering `r`:
/// `y` runs the confirmed events, any other key cancels.
pub open spec fn confirm_effect(a: App, key: Key, b: App, r: Action) -> bool {
    &&& b.confirm is None
    &&& b.browser == a.browser
    &&& b.mode == a.mode
    &&& b.clipboard == a.clipboard
    &&& (key == Key::Char('y') || key == Key::Char('Y')) ==> r == Action::ApplyAll(a.confirm->Some_0.events) && b.status == a.status
    &&& !(key == Key::Char('y') || key == Key::Char('Y')) ==> r == Action::Nothing && (b.status matches Some(m) && m@ == "cancelled"@)
}

/// How `confirm_forget_vault` takes state `a` to `b`: an unregister of the vault under the
/// cursor waits for a `y`.
pub open spec fn forget_effect(a: App, b: App) -> bool {
    &&& b.browser == a.browser
    &&& b.mode == a.mode
    &&& b.vaults@ == a.vaults@
    &&& b.vault_selected == a.vault_selected
    &&& b.status == a.status
    &&& match a.vault_selected {
        Some(i) => if i < a.vaults@.len() {
            b.confirm matches Some(c) && c.prompt@ == "stop tracking vault "@ + a.vaults@[i as int]@
                + "? its files are left alone (y/N)"@ && c.events@.len() == 1
                && (c.events@[0] matches AppEvent::Forget { vault } && vault@ == a.vaults@[i as int]@)
        } else {
            b.confirm == a.confirm
        },
        None => b.confirm == a.confirm,
    }
}

/// Whether the vault list does something with `key`.
pub open spec fn root_binds(key: Key) -> bool {
    key == Key::Esc || key == Key::Char('q') || key == Key::Up || key == Key::Char('k') || key == Key::Down
        || key == Key::Char('j') || key == Key::Enter || key == Key::Right || key == Key::Char('l')
        || key == Key::Char('x') || key == Key::Delete || key == Key::Char('R')
}

/// Whether a vault's listing does something with `key`.
pub open spec fn vault_binds(key: Key) -> bool {
    key == Key::Char('q') || key == Key::Up || key == Key::Char('k') || key == Key::Down || key == Key::Char('j')
        || key == Key::Enter || key == Key::Right || key == Key::Char('l') || key == Key::Char('e')
        || key == Key::Char('r') || key == Key::Esc || key == Key::Left || key == Key::Char('h')
        || key == Key::Char('y') || key == Key::Char('d') || key == Key::Char('p') || key == Key::Char('c')
        || key == Key::F2 || key == Key::Char('a') || key == Key::Char('t') || key == Key::Char('x')
        || key == Key::Delete || key == Key::Char(' ') || key == Key::Char('/') || key == Key::Char('s')
        || key == Key::Char('S') || key == Key::Char('.') || key == Key::Char('R')
}

/// What a key typed into the `/` filter does to state `a`, giving `b`: a character or
/// Backspace edits the filter and the listing is recomputed at once (the cursor kept on its
/// object where it can be); Enter stops typing and keeps the filter (dropping an empty one);
/// Esc drops the filter and recomputes the listing; any other key does nothing.
pub open spec fn filter_effect(a: App, key: Key, b: App) -> bool {
    &&& b.mode == a.mode
    &&& b.browser.objects@ == a.browser.objects@
    &&& key == Key::Esc ==> b.browser.filter is None && !b.browser.filtering && b.status == a.status
        && view_of(b.browser.objects@, b.browser.visible@, None, b.browser.show_hidden, b.browser.sort, b.browser.sort_reverse)
    &&& key == Key::Enter ==> !b.browser.filtering && b.browser.filter == match a.browser.filter {
        Some(f) => if f@.len() == 0 { None } else { Some(f) },
        None => None,
    } && b.browser.visible == a.browser.visible && b.browser.selected == a.browser.selected
    &&& (key is Char || key == Key::Backspace) ==> {
        &&& opt_text(b.browser.filter) == match opt_text(a.browser.filter) {
            Some(f) => Some(if key is Char { f.push(key->Char_0) } else if f.len() > 0 { f.drop_last() } else { f }),
            None => None,
        }
        &&& b.browser.filtering == a.browser.filtering
        &&& view_of(b.browser.objects@, b.browser.visible@, opt_text(b.browser.filter), b.browser.show_hidden,
            b.browser.sort, b.browser.sort_reverse)
        &&& cursor_kept(a.browser.selected_name_spec(), b.browser)
    }
    &&& !(key == Key::Esc || key == Key::Enter || key is Char || key == Key::Backspace) ==> b == a
}

/// What a key typed into the open `:` line does to state `a`, giving `b` and answering `r`:
/// characters and Backspace edit the line; Enter closes it and runs what it names (opening
/// the help for `help`, doing nothing for a blank line, and showing why for a line the
/// grammar refuses); Esc abandons it; any other key does nothing.
pub open spec fn command_effect(a: App, key: Key, b: App, r: Action) -> bool {
    &&& b.mode == a.mode
    &&& b.confirm == a.confirm
    &&& b.browser == a.browser
    &&& key == Key::Esc ==> b.command is None && b.status is None && r == Action::Nothing
    &&& key matches Key::Char(c) ==> (b.command matches Some(l) && l@ == a.command->Some_0@.push(c)) && r == Action::Nothing
    &&& key == Key::Backspace ==> (b.command matches Some(l) && l@ == (if a.command->Some_0@.len() > 0 {
        a.command->Some_0@.drop_last()
    } else {
        a.command->Some_0@
    })) && r == Action::Nothing
    &&& key == Key::Enter ==> b.command is None && {
        let line = a.command->Some_0@;
        let t = crate::origin_command::trimmed(line);
        if t.len() == 0 {
            r == Action::Nothing
        } else if t == "help"@ {
            r == Action::Nothing && b.help == Some(0u16) && b.status is None
        } else {
            let words = crate::wrap::words(line);
            match crate::grammar::parse_outcome(words, if words.len() > 0 { crate::grammar::event_shape(words[0]) } else { None }, false) {
                Ok((pos, force)) => r matches Action::Apply(e) && crate::grammar::event_is(e, words[0], pos, force),
                Err(_) => r == Action::Nothing && b.status is Some,
            }
        }
    }
    &&& !(key == Key::Esc || key is Char || key == Key::Backspace || key == Key::Enter) ==> r == Action::Nothing && b == a
}

/// What a key typed into the open rename prompt does to state `a`, in directory `pwd` of
/// `vault`, giving `b` and answering `r`: characters and Backspace edit the new name; Enter
/// closes the prompt and renames the object, by its `vault:/path`, to the trimmed name (a blank
/// name, or the name it already has, just closes it); Esc abandons it; any other key does
/// nothing.
pub open spec fn rename_key_effect(a: App, key: Key, vault: Option<Seq<char>>, pwd: Seq<char>, b: App, r: Action) -> bool {
    &&& b.mode == a.mode
    &&& b.browser == a.browser
    &&& key == Key::Esc ==> b.rename is None && b.status is None && r == Action::Nothing
    &&& key matches Key::Char(c) ==> (b.rename matches Some(p) && p.input@ == a.rename->Some_0.input@.push(c)
        && p.original == a.rename->Some_0.original) && r == Action::Nothing
    &&& key == Key::Backspace ==> (b.rename matches Some(p) && p.input@ == (if a.rename->Some_0.input@.len() > 0 {
        a.rename->Some_0.input@.drop_last()
    } else {
        a.rename->Some_0.input@
    }) && p.original == a.rename->Some_0.original) && r == Action::Nothing
    &&& key == Key::Enter ==> b.rename is None && {
        let p = a.rename->Some_0;
        let name = crate::origin_command::trimmed(p.input@);
        if name.len() == 0 || name == p.original@ {
            r == Action::Nothing && b.status is None
        } else {
            match vault {
                None => r == Action::Nothing,
                Some(v) => r matches Action::Apply(AppEvent::Rename { path, new_name, vault: nv }) && path@ == qualified(
                    v,
                    pwd,
                    p.original@,
                ) && new_name@ == name && nv is None,
            }
        }
    }
    &&& !(key == Key::Esc || key is Char || key == Key::Backspace || key == Key::Enter) ==> r == Action::Nothing && b == a
}

/// What a key on the vault list does to state `a`, giving `b` and answering `r`.
pub open spec fn root_key_effect(a: App, key: Key, b: App, r: Action) -> bool {
    &&& b.mode == a.mode
    &&& b.vaults@ == a.vaults@
    &&& (key == Key::Esc || key == Key::Char('q')) ==> r == Action::Apply(AppEvent::Quit)
    &&& (key == Key::Up || key == Key::Char('k')) ==> b.vault_selected == previous_row(a.vault_selected, a.vaults@.len())
        && r == Action::Nothing
    &&& (key == Key::Down || key == Key::Char('j')) ==> b.vault_selected == next_row(a.vault_selected, a.vaults@.len())
        && r == Action::Nothing
    &&& (key == Key::Enter || key == Key::Right || key == Key::Char('l')) ==> match a.vault_selected {
        Some(i) => if i < a.vaults@.len() {
            r matches Action::EnterVault(n) && n@ == a.vaults@[i as int]@
        } else {
            r == Action::Nothing
        },
        None => r == Action::Nothing,
    }
    &&& (key == Key::Char('x') || key == Key::Delete) ==> forget_effect(a, b) && r == Action::Nothing
    &&& key == Key::Char('R') ==> r == Action::RefreshVaults && (b.status matches Some(m) && m@ == "refreshed"@)
    &&& !root_binds(key) ==> r == Action::Nothing && b == a
}

/// What a key on a vault's listing in directory `pwd` of `vault` does to state `a`, giving `b`
/// and answering `r`.
pub open spec fn vault_key_effect(a: App, key: Key, vault: Option<Seq<char>>, pwd: Seq<char>, b: App, r: Action) -> bool {
    &&& b.mode == a.mode
    &&& key == Key::Char('q') ==> r == Action::Apply(AppEvent::Quit)
    &&& (key == Key::Up || key == Key::Char('k')) ==> b.browser.selected == previous_row(a.browser.selected, a.browser.visible@.len())
        && r == Action::Nothing
    &&& (key == Key::Down || key == Key::Char('j')) ==> b.browser.selected == next_row(a.browser.selected, a.browser.visible@.len())
        && r == Action::Nothing
    &&& (key == Key::Enter || key == Key::Right || key == Key::Char('l')) ==> match selected_entry(a.browser) {
        Some(e) => if e.kind == EntryKind::Branch {
            r matches Action::Descend(n) && n@ == e.name@
        } else if e.kind == EntryKind::Leaf {
            r matches Action::Open(n, id) && n@ == e.name@ && id@ == e.id@
        } else {
            r == Action::Nothing
        },
        None => r == Action::Nothing,
    }
    &&& key == Key::Char('e') ==> match selected_leaf(a.browser) {
        Some((n, id)) => r matches Action::Edit(rn, rid) && rn@ == n && rid@ == id,
        None => r == Action::Nothing,
    }
    &&& key == Key::Char('r') ==> match selected_leaf(a.browser) {
        Some((n, id)) => r matches Action::Run(rn, rid) && rn@ == n && rid@ == id,
        None => r == Action::Nothing,
    }
    &&& (key == Key::Esc && a.browser.filter is Some) ==> b.browser.filter is None && r == Action::Nothing
    &&& (key == Key::Left || key == Key::Char('h') || (key == Key::Esc && a.browser.filter is None)) ==> r == Action::Ascend
    &&& key == Key::Char('y') ==> yank_effect(a, b, false, vault, pwd) && r == Action::Nothing
    &&& key == Key::Char('d') ==> yank_effect(a, b, true, vault, pwd) && r == Action::Nothing
    &&& key == Key::Char('p') ==> paste_effect(a, b, vault, pwd, r)
    &&& (key == Key::Char('c') || key == Key::F2) ==> rename_effect(a, b) && r == Action::Nothing
    &&& key == Key::Char('a') ==> (b.command matches Some(c) && c@ == "mkdir "@) && r == Action::Nothing
    &&& key == Key::Char('t') ==> (b.command matches Some(c) && c@ == "touch "@) && r == Action::Nothing
    &&& (key == Key::Char('x') || key == Key::Delete) ==> delete_effect(a, b, vault, pwd) && r == Action::Nothing
    &&& key == Key::Char(' ') ==> mark_effect(a, b) && r == Action::Nothing
    &&& key == Key::Char('/') ==> b.browser.filtering && (b.browser.filter matches Some(f) && f@.len() == 0)
        && r == Action::Nothing
    &&& key == Key::Char('s') ==> b.browser.sort == a.browser.sort.next_spec() && (b.status matches Some(m)
        && m@ == sort_text(b.browser.sort, b.browser.sort_reverse)) && r == Action::Nothing
    &&& key == Key::Char('S') ==> b.browser.sort_reverse == !a.browser.sort_reverse && (b.status matches Some(m)
        && m@ == sort_text(b.browser.sort, b.browser.sort_reverse)) && r == Action::Nothing
    &&& key == Key::Char('.') ==> b.browser.show_hidden == !a.browser.show_hidden && (b.status matches Some(m)
        && m@ == (if b.browser.show_hidden { "showing hidden objects"@ } else { "hiding hidden objects"@ })) && r == Action::Nothing
    &&& key == Key::Char('R') ==> (r matches Action::RefreshObjects(m) && m@ == "refreshed"@)
    &&& !vault_binds(key) ==> r == Action::Nothing && b == a
}

impl App {
    /// Sets the status to the report of an operation: `<verb> ok`, or the error's message.
    pub fn report(&mut self, verb: &str, result: Result<(), String>)
        ensures
            final(self).status matches Some(m) && m@ == report_text(verb@, match result {
                Ok(()) => Ok(()),
                Err(e) => Err(e@),
            }),
            final(self).mode == old(self).mode,
            final(self).clipboard == old(self).clipboard,
            final(self).confirm == old(self).confirm,
    {
        self.status = Some(
            match result {
                Ok(()) => cat(verb, " ok"),
                Err(e) => e,
            },
        );
    }

    /// Arms a delete of the objects a bulk operation acts on, to run only once the user answers
    /// `y`. Each is addressed as `vault:/path` and deleted with `--force`: the question already
    /// says a directory takes its contents with it.
    pub fn confirm_delete(&mut self, vault: Option<&str>, pwd: &str)
        ensures
            delete_effect(*old(self), *final(self), str_opt(vault), pwd@),
    {
        let v = match vault {
            Some(v) => v,
            None => return,
        };
        let ts = self.targets();
        if ts.len() == 0 {
            self.status = Some(String::from_str("nothing selected"));
            return;
        }
        let prompt = delete_question(&ts);
        let mut events: Vec<AppEvent> = Vec::new();
        let mut i: usize = 0;
        while i < ts.len()
            invariant
                i <= ts@.len(),
                events@.len() == i,
                forall|k: int| 0 <= k < i ==> deletes(#[trigger] events@[k], v@, pwd@, ts@[k].name@),
            decreases ts.len() - i,
        {
            let path = qualify(v, pwd, ts[i].name.as_str());
            events.push(AppEvent::Delete { path, vault: None, force: true });
            i = i + 1;
        }
        self.confirm = Some(Confirm { prompt, events });
    }

    /// Arms an unregister of the vault under the cursor on the root screen.
    pub fn confirm_forget_vault(&mut self)
        ensures
            forget_effect(*old(self), *final(self)),
    {
        let i = match self.vault_selected {
            Some(i) => i,
            None => return,
        };
        if i >= self.vaults.len() {
            return;
        }
        let name = self.vaults[i].clone();
        let prompt = cat3("stop tracking vault ", name.as_str(), "? its files are left alone (y/N)");
        self.confirm = Some(Confirm { prompt, events: vec![AppEvent::Forget { vault: name }] });
    }

    /// Picks up what a bulk operation acts on for a later `p`, each object recorded as
    /// `vault:/path` so that the paste still finds it after navigating elsewhere. The marks are
    /// cleared: they have done their job.
    pub fn yank(&mut self, cut: bool, vault: Option<&str>, pwd: &str)
        ensures
            yank_effect(*old(self), *final(self), cut, str_opt(vault), pwd@),
    {
        let v = match vault {
            Some(v) => v,
            None => return,
        };
        let ts = self.targets();
        if ts.len() == 0 {
            return;
        }
        let mut entries: Vec<ClipboardEntry> = Vec::new();
        let mut i: usize = 0;
        while i < ts.len()
            invariant
                i <= ts@.len(),
                entries@.len() == i,
                forall|k: int| 0 <= k < i ==> #[trigger] entries@[k].name@ == ts@[k].name@ && entries@[k].spec@ == qualified(v@, pwd@, ts@[k].name@),
            decreases ts.len() - i,
        {
            let name = ts[i].name.clone();
            let spec = qualify(v, pwd, name.as_str());
            entries.push(ClipboardEntry { spec, name });
            i = i + 1;
        }
        let clipboard = Clipboard { entries, cut };
        let label = clipboard.label();
        let verb = if cut { "cut" } else { "yanked" };
        self.status = Some(cat3(verb, " ", label.as_str()).concat(" — press p to paste"));
        self.clipboard = Some(clipboard);
        self.browser.marked = Vec::new();
        proof {
            let ts2 = targets_of(&old(self).browser);
            let c = self.clipboard->Some_0;
            assert(forall|k: int| 0 <= k < ts2.len() ==> #[trigger] c.entries@[k].name@ == ts2[k].name@
                && c.entries@[k].spec@ == qualified(v@, pwd@, ts2[k].name@));
        }
    }

    /// The copies (or moves, for a cut) that paste the clipboard into directory `pwd` of
    /// `vault`, through the same `vault:/path` syntax the `:cp`/`:mv` commands take.
    pub fn paste(&mut self, vault: Option<&str>, pwd: &str) -> (r: Action)
        ensures
            paste_effect(*old(self), *final(self), str_opt(vault), pwd@, r),
    {
        let c = match &self.clipboard {
            Some(c) => c,
            None => {
                self.status = Some(String::from_str("nothing to paste"));
                return Action::Nothing;
            },
        };
        let v = match vault {
            Some(v) => v,
            None => {
                self.status = Some(String::from_str("no vault selected"));
                return Action::Nothing;
            },
        };
        proof {
            reveal_strlit(":");
        }
        let mut events: Vec<AppEvent> = Vec::new();
        let mut i: usize = 0;
        while i < c.entries.len()
            invariant
                i <= c.entries@.len(),
                events@.len() == i,
                forall|k: int| 0 <= k < i ==> pastes(#[trigger] events@[k], c.entries@[k], c.cut, v@, pwd@),
            decreases c.entries.len() - i,
        {
            proof {
                reveal_strlit(":");
            }
            let ghost before = events@;
            let destination = cat3(v, ":", pwd);
            let path = c.entries[i].spec.clone();
            if c.cut {
                events.push(AppEvent::Mv { path, destination, vault: None });
            } else {
                events.push(AppEvent::Cp { path, destination, vault: None });
            }
            assert forall|k: int| 0 <= k < i implies events@[k] == before[k] by {}
            assert(destination@ == v@ + seq![':'] + pwd@);
            assert(pastes(events@[i as int], c.entries@[i as int], c.cut, v@, pwd@));
            i = i + 1;
        }
        Action::Paste(events, c.cut)
    }

    /// After a paste has run: a cut that went through empties the clipboard.
    pub fn finish_paste(&mut self, succeeded: bool)
        ensures
            final(self).clipboard == if succeeded && (old(self).clipboard matches Some(c) && c.cut) {
                None
            } else {
                old(self).clipboard
            },
    {
        let cut = match &self.clipboard {
            Some(c) => c.cut,
            None => false,
        };
        if succeeded && cut {
            self.clipboard = None;
        }
    }

    /// Opens the rename prompt for the object under the cursor, pre-filled with its name.
    pub fn begin_rename(&mut self)
        ensures
            rename_effect(*old(self), *final(self)),
    {
        match self.browser.selected_name() {
            Some(original) => {
                self.rename = Some(RenamePrompt { input: original.clone(), original });
            },
            None => {
                self.status = Some(String::from_str("nothing selected"));
            },
        }
    }

    /// The status shown after a sort change.
    pub fn sort_description(&self) -> (r: String)
        ensures
            r@ == sort_text(self.browser.sort, self.browser.sort_reverse),
    {
        let dir = if self.browser.sort_reverse { "desc" } else { "asc" };
        cat3("sort: ", self.browser.sort.label(), " ").concat(dir)
    }

    /// Marks or unmarks the object under the cursor and steps down, so a run of objects can
    /// be marked by holding space.
    pub fn toggle_mark(&mut self)
        ensures
            mark_effect(*old(self), *final(self)),
    {
        let name = match self.browser.selected_name() {
            Some(n) => n,
            None => return,
        };
        let target = chars_of(name.as_str());
        let ghost old_marked = self.browser.marked@;
        if holds_name(&self.browser.marked, &name) {
            let mut kept: Vec<String> = Vec::new();
            let mut i: usize = 0;
            while i < self.browser.marked.len()
                invariant
                    i <= self.browser.marked@.len(),
                    self.browser.marked@ == old_marked,
                    target@ == name@,
                    kept@ == without(old_marked.subrange(0, i as int), name@),
                decreases self.browser.marked.len() - i,
            {
                assert(old_marked.subrange(0, i + 1).drop_last() =~= old_marked.subrange(0, i as int));
                let c = chars_of(self.browser.marked[i].as_str());
                if !chars_eq(&c, &target) {
                    kept.push(self.browser.marked[i].clone());
                }
                i = i + 1;
            }
            assert(old_marked.subrange(0, i as int) =~= old_marked);
            assert forall|m: Seq<char>| holds(kept@, m) <==> (m != name@ && holds(old_marked, m)) by {
                lemma_without_holds(old_marked, name@, m);
            }
            self.browser.marked = kept;
        } else {
            let ghost before = self.browser.marked@;
            self.browser.marked.push(name);
            assert forall|m: Seq<char>| holds(self.browser.marked@, m) <==> (holds(before, m) || m == name@) by {
                if holds(self.browser.marked@, m) {
                    let j = choose|j: int| 0 <= j < self.browser.marked@.len() && #[trigger] self.browser.marked@[j]@ == m;
                    if j < before.len() {
                        assert(before[j] == self.browser.marked@[j]);
                    }
                }
                if holds(before, m) {
                    let j = choose|j: int| 0 <= j < before.len() && #[trigger] before[j]@ == m;
                    assert(self.browser.marked@[j] == before[j]);
                }
                if m == name@ {
                    assert(self.browser.marked@[before.len() as int]@ == m);
                }
            }
        }
        self.browser.selected = select_next(self.browser.selected, self.browser.visible.len());
    }
}

/// The question asked before deleting `ts`.
fn delete_question(ts: &Vec<Entry>) -> (r: String)
    requires
        ts@.len() > 0,
    ensures
        r@ == delete_prompt(ts@),
{
    if ts.len() == 1 {
        if ts[0].kind == EntryKind::Branch {
            return cat3("delete ", ts[0].name.as_str(), "/ and everything in it? (y/N)");
        }
        return cat3("delete ", ts[0].name.as_str(), "? (y/N)");
    }
    let mut d: usize = 0;
    let mut i: usize = 0;
    while i < ts.len()
        invariant
            i <= ts@.len(),
            d == branch_count(ts@.subrange(0, i as int)),
            d <= i,
        decreases ts.len() - i,
    {
        assert(ts@.subrange(0, i + 1).drop_last() =~= ts@.subrange(0, i as int));
        if ts[i].kind == EntryKind::Branch {
            d = d + 1;
        }
        i = i + 1;
    }
    assert(ts@.subrange(0, i as int) =~= ts@);
    let count = string_of(&decimal_chars(ts.len() as u64));
    let head = cat3("delete ", count.as_str(), " objects");
    if d > 0 {
        let dn = string_of(&decimal_chars(d as u64));
        let ending = if d == 1 { "y" } else { "ies" };
        let scope = cat3(" (", dn.as_str(), " director").concat(ending).concat(" — contents included)");
        cat3(head.as_str(), scope.as_str(), "? (y/N)")
    } else {
        assert(head@ + Seq::<char>::empty() =~= head@);
        cat(head.as_str(), "? (y/N)")
    }
}

/// The help overlay's offset after a key: one line down or up (never past zero, never
/// wrapping), or closed.
pub open spec fn help_after(offset: u16, key: Key) -> Option<u16> {
    if closes_help(key) {
        None
    } else if key == Key::Down || key == Key::Char('j') {
        Some(if offset == u16::MAX { offset } else { (offset + 1) as u16 })
    } else if key == Key::Up || key == Key::Char('k') {
        Some(if offset == 0 { 0u16 } else { (offset - 1) as u16 })
    } else {
        Some(offset)
    }
}

impl App {
    /// Drops the filter and lists everything again.
    pub fn clear_filter(&mut self)
        ensures
            final(self).browser.filter is None,
            !final(self).browser.filtering,
            final(self).browser.objects@ == old(self).browser.objects@,
            final(self).mode == old(self).mode,
            final(self).status == old(self).status,
            view_of(final(self).browser.objects@, final(self).browser.visible@, None, final(self).browser.show_hidden,
                final(self).browser.sort, final(self).browser.sort_reverse),
    {
        self.browser.filter = None;
        self.browser.filtering = false;
        self.browser.apply_view();
    }

    /// Scrolls or closes the help overlay.
    fn handle_key_help(&mut self, key: Key)
        requires
            old(self).help is Some,
        ensures
            final(self).help == help_after(old(self).help->Some_0, key),
            final(self).browser == old(self).browser,
            final(self).mode == old(self).mode,
            final(self).status == old(self).status,
    {
        let offset = match self.help {
            Some(o) => o,
            None => 0,
        };
        self.help = match key {
            Key::Esc | Key::Char('q') | Key::Char('?') => None,
            Key::Down | Key::Char('j') => Some(offset.saturating_add(1)),
            Key::Up | Key::Char('k') => Some(offset.saturating_sub(1)),
            _ => Some(offset),
        };
    }

    /// Answers a pending confirmation: `y` runs it, anything else drops it.
    fn handle_key_confirm(&mut self, key: Key) -> (r: Action)
        requires
            old(self).confirm is Some,
        ensures
            confirm_effect(*old(self), key, *final(self), r),
    {
        let confirm = match self.confirm.take() {
            Some(c) => c,
            None => return Action::Nothing,
        };
        match key {
            Key::Char('y') | Key::Char('Y') => Action::ApplyAll(confirm.events),
            _ => {
                self.status = Some(String::from_str("cancelled"));
                Action::Nothing
            },
        }
    }

    /// Types into the `/` filter: the listing narrows on every keystroke; Enter stops typing
    /// and leaves the filter applied (dropping an empty one), Esc drops it.
    pub fn handle_key_filter(&mut self, key: Key)
        ensures
            filter_effect(*old(self), key, *final(self)),
    {
        match key {
            Key::Esc => self.clear_filter(),
            Key::Enter => {
                self.browser.filtering = false;
                let empty = match &self.browser.filter {
                    Some(f) => f.as_str().unicode_len() == 0,
                    None => false,
                };
                if empty {
                    self.browser.filter = None;
                }
            },
            Key::Backspace => {
                match self.browser.filter.take() {
                    Some(mut f) => {
                        pop_char(&mut f);
                        self.browser.filter = Some(f);
                    },
                    None => {},
                }
                self.browser.apply_view();
            },
            Key::Char(c) => {
                match self.browser.filter.take() {
                    Some(mut f) => {
                        push_char(&mut f, c);
                        self.browser.filter = Some(f);
                    },
                    None => {},
                }
                self.browser.apply_view();
            },
            _ => {},
        }
    }

    /// Types into the `:` line: Enter runs what it names (or opens the help for `help`, or
    /// shows why it names nothing), Esc abandons it.
    fn handle_key_command(&mut self, key: Key) -> (r: Action)
        requires
            old(self).command is Some,
        ensures
            command_effect(*old(self), key, *final(self), r),
    {
        match key {
            Key::Esc => {
                self.command = None;
                self.status = None;
                Action::Nothing
            },
            Key::Enter => {
                let line = match self.command.take() {
                    Some(l) => l,
                    None => return Action::Nothing,
                };
                let t = trimmed_string(&line);
                let tc = chars_of(t.as_str());
                if tc.len() == 0 {
                    return Action::Nothing;
                }
                let help = chars_of("help");
                if chars_eq(&tc, &help) {
                    self.help = Some(0);
                    self.status = None;
                    return Action::Nothing;
                }
                match parse(line.as_str()) {
                    Ok(event) => Action::Apply(event),
                    Err(msg) => {
                        self.status = Some(msg);
                        Action::Nothing
                    },
                }
            },
            Key::Backspace => {
                match self.command.take() {
                    Some(mut b) => {
                        pop_char(&mut b);
                        self.command = Some(b);
                    },
                    None => {},
                }
                Action::Nothing
            },
            Key::Char(c) => {
                match self.command.take() {
                    Some(mut b) => {
                        push_char(&mut b, c);
                        self.command = Some(b);
                    },
                    None => {},
                }
                Action::Nothing
            },
            _ => Action::Nothing,
        }
    }

    /// Types into the rename prompt: Enter submits the trimmed new name as a rename of the
    /// object by its `vault:/path` (a blank name, or the name it already has, just closes the
    /// prompt), Esc abandons it.
    fn handle_key_rename(&mut self, key: Key, vault: Option<&str>, pwd: &str) -> (r: Action)
        requires
            old(self).rename is Some,
        ensures
            rename_key_effect(*old(self), key, str_opt(vault), pwd@, *final(self), r),
    {
        match key {
            Key::Esc => {
                self.rename = None;
                self.status = None;
                Action::Nothing
            },
            Key::Enter => {
                let prompt = match self.rename.take() {
                    Some(p) => p,
                    None => return Action::Nothing,
                };
                let new_name = trimmed_string(&prompt.input);
                let nc = chars_of(new_name.as_str());
                let oc = chars_of(prompt.original.as_str());
                if nc.len() == 0 || chars_eq(&nc, &oc) {
                    self.status = None;
                    return Action::Nothing;
                }
                let v = match vault {
                    Some(v) => v,
                    None => return Action::Nothing,
                };
                let path = qualify(v, pwd, prompt.original.as_str());
                Action::Apply(AppEvent::Rename { path, new_name, vault: None })
            },
            Key::Backspace => {
                match self.rename.take() {
                    Some(mut p) => {
                        pop_char(&mut p.input);
                        self.rename = Some(p);
                    },
                    None => {},
                }
                Action::Nothing
            },
            Key::Char(c) => {
                match self.rename.take() {
                    Some(mut p) => {
                        push_char(&mut p.input, c);
                        self.rename = Some(p);
                    },
                    None => {},
                }
                Action::Nothing
            },
            _ => Action::Nothing,
        }
    }

    /// The name and id of the file under the cursor, if the cursor is on a leaf.
    fn selected_leaf(&self) -> (r: Option<(String, ObjectId)>)
        ensures
            match selected_leaf(self.browser) {
                Some((n, id)) => r matches Some((rn, rid)) && rn@ == n && rid@ == id,
                None => r is None,
            },
    {
        let b = &self.browser;
        match b.selected {
            Some(k) => if k < b.visible.len() && b.visible[k] < b.objects.len() {
                let e = &b.objects[b.visible[k]];
                match e.kind {
                    EntryKind::Leaf => Some((e.name.clone(), e.id.clone())),
                    _ => None,
                }
            } else {
                None
            },
            None => None,
        }
    }

    /// The keys of the vault list.
    pub fn handle_key_root(&mut self, key: Key) -> (r: Action)
        ensures
            root_key_effect(*old(self), key, *final(self), r),
    {
        match key {
            Key::Esc | Key::Char('q') => Action::Apply(AppEvent::Quit),
            Key::Up | Key::Char('k') => {
                self.vault_selected = select_previous(self.vault_selected, self.vaults.len());
                Action::Nothing
            },
            Key::Down | Key::Char('j') => {
                self.vault_selected = select_next(self.vault_selected, self.vaults.len());
                Action::Nothing
            },
            Key::Enter | Key::Right | Key::Char('l') => {
                match self.vault_selected {
                    Some(i) => if i < self.vaults.len() {
                        Action::EnterVault(self.vaults[i].clone())
                    } else {
                        Action::Nothing
                    },
                    None => Action::Nothing,
                }
            },
            Key::Char('x') | Key::Delete => {
                self.confirm_forget_vault();
                Action::Nothing
            },
            Key::Char('R') => {
                self.status = Some(String::from_str("refreshed"));
                Action::RefreshVaults
            },
            _ => Action::Nothing,
        }
    }

    /// The keys of a vault's listing.
    pub fn handle_key_vault(&mut self, key: Key, vault: Option<&str>, pwd: &str) -> (r: Action)
        ensures
            vault_key_effect(*old(self), key, str_opt(vault), pwd@, *final(self), r),
    {
        match key {
            Key::Char('q') => Action::Apply(AppEvent::Quit),
            Key::Up | Key::Char('k') => {
                self.browser.selected = select_previous(self.browser.selected, self.browser.visible.len());
                Action::Nothing
            },
            Key::Down | Key::Char('j') => {
                self.browser.selected = select_next(self.browser.selected, self.browser.visible.len());
                Action::Nothing
            },
            Key::Enter | Key::Right | Key::Char('l') => {
                match self.browser.selected {
                    Some(k) => if k < self.browser.visible.len() && self.browser.visible[k] < self.browser.objects.len() {
                        let e = &self.browser.objects[self.browser.visible[k]];
                        match e.kind {
                            EntryKind::Branch => Action::Descend(e.name.clone()),
                            EntryKind::Leaf => Action::Open(e.name.clone(), e.id.clone()),
                            EntryKind::Root => Action::Nothing,
                        }
                    } else {
                        Action::Nothing
                    },
                    None => Action::Nothing,
                }
            },
            Key::Esc | Key::Left | Key::Char('h') => {
                if key == Key::Esc && self.browser.filter.is_some() {
                    self.clear_filter();
                    Action::Nothing
                } else {
                    Action::Ascend
                }
            },
            Key::Char('y') => {
                self.yank(false, vault, pwd);
                Action::Nothing
            },
            Key::Char('d') => {
                self.yank(true, vault, pwd);
                Action::Nothing
            },
            Key::Char('p') => self.paste(vault, pwd),
            Key::Char('c') | Key::F2 => {
                self.begin_rename();
                Action::Nothing
            },
            Key::Char('e') => match self.selected_leaf() {
                Some((name, id)) => Action::Edit(name, id),
                None => Action::Nothing,
            },
            Key::Char('r') => match self.selected_leaf() {
                Some((name, id)) => Action::Run(name, id),
                None => Action::Nothing,
            },
            Key::Char('a') => {
                self.command = Some(String::from_str("mkdir "));
                Action::Nothing
            },
            Key::Char('t') => {
                self.command = Some(String::from_str("touch "));
                Action::Nothing
            },
            Key::Char('x') | Key::Delete => {
                self.confirm_delete(vault, pwd);
                Action::Nothing
            },
            Key::Char(' ') => {
                self.toggle_mark();
                Action::Nothing
            },
            Key::Char('/') => {
                self.browser.filtering = true;
                self.browser.filter = Some(String::new());
                self.browser.apply_view();
                Action::Nothing
            },
            Key::Char('s') => {
                self.browser.sort = self.browser.sort.next();
                self.browser.apply_view();
                self.status = Some(self.sort_description());
                Action::Nothing
            },
            Key::Char('S') => {
                self.browser.sort_reverse = !self.browser.sort_reverse;
                self.browser.apply_view();
                self.status = Some(self.sort_description());
                Action::Nothing
            },
            Key::Char('.') => {
                self.browser.show_hidden = !self.browser.show_hidden;
                self.browser.apply_view();
                self.status = Some(
                    if self.browser.show_hidden {
                        String::from_str("showing hidden objects")
                    } else {
                        String::from_str("hiding hidden objects")
                    },
                );
                Action::Nothing
            },
            Key::Char('R') => Action::RefreshObjects(String::from_str("refreshed")),
            _ => Action::Nothing,
        }
    }

    /// Routes a key press: the wizard, the `:` line, ctrl-c, the filter, the rename prompt, a
    /// pending confirmation and the help overlay each take every key while they are up, in
    /// that order; then `:`, `?` and `n` work everywhere, and the rest depends on the screen.
    pub fn handle_key_event(&mut self, key: Key, ctrl: bool, vault: Option<&str>, pwd: &str) -> (r: Action)
        ensures
            old(self).creator_open ==> r == Action::Creator && *final(self) == *old(self),
            !old(self).creator_open && old(self).command is Some ==> command_effect(*old(self), key, *final(self), r),
            !old(self).creator_open && old(self).command is None && key == Key::Char('c') && ctrl ==> r == Action::Apply(AppEvent::Quit)
                && *final(self) == *old(self),
            !old(self).creator_open && old(self).command is None && !(key == Key::Char('c') && ctrl) && old(self).browser.filtering
                ==> filter_effect(*old(self), key, *final(self)) && r == Action::Nothing,
            !old(self).creator_open && old(self).command is None && !(key == Key::Char('c') && ctrl) && !old(self).browser.filtering
                && old(self).rename is Some ==> rename_key_effect(*old(self), key, str_opt(vault), pwd@, *final(self), r),
            !old(self).creator_open && old(self).command is None && !(key == Key::Char('c') && ctrl) && !old(self).browser.filtering
                && old(self).rename is None && old(self).confirm is Some ==> confirm_effect(*old(self), key, *final(self), r),
            !old(self).creator_open && old(self).command is None && !(key == Key::Char('c') && ctrl) && !old(self).browser.filtering
                && old(self).rename is None && old(self).confirm is None && old(self).help is Some ==> final(self).browser == old(self).browser
                && final(self).help == help_after(old(self).help->Some_0, key) && r == Action::Nothing,
            !old(self).creator_open && old(self).command is None && !(key == Key::Char('c') && ctrl) && !old(self).browser.filtering
                && old(self).rename is None && old(self).confirm is None && old(self).help is None ==> {
                &&& key == Key::Char(':') ==> (final(self).command matches Some(c) && c@.len() == 0) && r == Action::Nothing
                &&& key == Key::Char('?') ==> final(self).help == Some(0u16) && r == Action::Nothing
                &&& key == Key::Char('n') ==> r == Action::Apply(AppEvent::New { path: None })
                &&& (key != Key::Char(':') && key != Key::Char('?') && key != Key::Char('n')) ==> match old(self).mode {
                    AppMode::Root => root_key_effect(*old(self), key, *final(self), r),
                    AppMode::Vault(_) => vault_key_effect(*old(self), key, str_opt(vault), pwd@, *final(self), r),
                    _ => r == Action::Nothing && *final(self) == *old(self),
                }
            },
            final(self).mode == old(self).mode,
    {
        if self.creator_open {
            return Action::Creator;
        }
        if self.command.is_some() {
            return self.handle_key_command(key);
        }
        if key == Key::Char('c') && ctrl {
            return Action::Apply(AppEvent::Quit);
        }
        if self.browser.filtering {
            self.handle_key_filter(key);
            return Action::Nothing;
        }
        if self.rename.is_some() {
            return self.handle_key_rename(key, vault, pwd);
        }
        if self.confirm.is_some() {
            return self.handle_key_confirm(key);
        }
        if self.help.is_some() {
            self.handle_key_help(key);
            return Action::Nothing;
        }
        match key {
            Key::Char(':') => {
                self.command = Some(String::new());
                return Action::Nothing;
            },
            Key::Char('?') => {
                self.help = Some(0);
                return Action::Nothing;
            },
            Key::Char('n') => {
                return Action::Apply(AppEvent::New { path: None });
            },
            _ => {},
        }
        match &self.mode {
            AppMode::Root => self.handle_key_root(key),
            AppMode::Vault(_) => self.handle_key_vault(key, vault, pwd),
            _ => Action::Nothing,
        }
    }
}


/// What the caller does next for an event of the `:` line.
#[derive(Debug, PartialEq, Eq)]
pub enum EventStep {
    /// Nothing more: the event is handled.
    Done,
    /// Relist the working directory.
    ListObjects,
    /// Relist the vaults.
    ListVaults,
    /// Select the vault; on success `entered_vault`, then relist its root.
    EnterVault(String),
    /// Register the vault config at this path, then `registered`.
    Register(String),
    /// Change directory, then `after_cd`.
    Cd(Option<String>),
    /// Forget the vault, then `forgotten`.
    Forget(String),
    /// Carry out the operation, then report its outcome with this verb.
    Run(AppEvent, String),
}

/// Whether an object named `n` is among `objects`.
pub open spec fn listed(objects: Seq<Entry>, n: Seq<char>) -> bool {
    exists|i: int| 0 <= i < objects.len() && #[trigger] objects[i].name@ == n
}

/// Whether an object named `name` is among `objects`.
fn is_listed(objects: &Vec<Entry>, name: &String) -> (b: bool)
    ensures
        b == listed(objects@, name@),
{
    let target = chars_of(name.as_str());
    let mut i: usize = 0;
    while i < objects.len()
        invariant
            i <= objects@.len(),
            target@ == name@,
            forall|j: int| 0 <= j < i ==> #[trigger] objects@[j].name@ != name@,
        decreases objects.len() - i,
    {
        let c = chars_of(objects[i].name.as_str());
        if chars_eq(&c, &target) {
            return true;
        }
        i = i + 1;
    }
    false
}

impl App {
    /// Starts on an event of the `:` line: what needs no outside work is done here (quitting,
    /// switching to the vault list, opening the creation wizard), and the rest is handed back
    /// as the step the caller takes.
    pub fn begin_event(&mut self, event: AppEvent) -> (r: EventStep)
        ensures
            match event {
                AppEvent::Quit => final(self).mode == AppMode::Quit && r == EventStep::Done,
                AppEvent::Ls => final(self).mode == old(self).mode
                    && r == if old(self).mode is Vault { EventStep::ListObjects } else { EventStep::ListVaults },
                AppEvent::Vaults => final(self).mode == AppMode::Root && r == EventStep::ListVaults,
                AppEvent::Select { vault } => final(self).mode == old(self).mode && r == EventStep::EnterVault(vault),
                AppEvent::New { path: Some(p) } => final(self).mode == old(self).mode && r == EventStep::Register(p),
                AppEvent::New { path: None } => final(self).mode == old(self).mode && r == EventStep::Done,
                AppEvent::Cd { path } => final(self).mode == old(self).mode && r == EventStep::Cd(path),
                AppEvent::Forget { vault } => final(self).mode == old(self).mode && r == EventStep::Forget(vault),
                _ => {
                    &&& final(self).mode == old(self).mode
                    &&& verb_of(event) matches Some(v)
                    &&& r matches EventStep::Run(e, w)
                    &&& e == event
                    &&& w@ == v
                },
            },
            final(self).creator_open == (old(self).creator_open || event == AppEvent::New { path: None }),
            final(self).browser == old(self).browser,
            final(self).vaults == old(self).vaults,
            final(self).vault_selected == old(self).vault_selected,
            final(self).status == old(self).status,
            final(self).clipboard == old(self).clipboard,
            final(self).confirm == old(self).confirm,
            final(self).rename == old(self).rename,
    {
        match event {
            AppEvent::Quit => {
                self.mode = AppMode::Quit;
                EventStep::Done
            },
            AppEvent::Ls => {
                if matches!(self.mode, AppMode::Vault(_)) {
                    EventStep::ListObjects
                } else {
                    EventStep::ListVaults
                }
            },
            AppEvent::Vaults => {
                self.mode = AppMode::Root;
                EventStep::ListVaults
            },
            AppEvent::Select { vault } => EventStep::EnterVault(vault),
            AppEvent::New { path: Some(p) } => EventStep::Register(p),
            AppEvent::New { path: None } => {
                self.creator_open = true;
                EventStep::Done
            },
            AppEvent::Cd { path } => EventStep::Cd(path),
            AppEvent::Forget { vault } => EventStep::Forget(vault),
            other => {
                let verb = match event_verb(&other) {
                    Some(v) => v,
                    None => "",
                };
                let w = String::from_str(verb);
                EventStep::Run(other, w)
            },
        }
    }

    /// Drops the per-directory view state on the way out of a directory: the marks (which name
    /// objects that only exist there) and the filter.
    pub fn leave_directory(&mut self)
        ensures
            final(self).browser.marked@.len() == 0,
            final(self).browser.filter is None,
            !final(self).browser.filtering,
            final(self).browser.objects@ == old(self).browser.objects@,
            final(self).browser.visible@ == old(self).browser.visible@,
            final(self).browser.selected == old(self).browser.selected,
            final(self).browser.sort == old(self).browser.sort,
            final(self).browser.sort_reverse == old(self).browser.sort_reverse,
            final(self).browser.show_hidden == old(self).browser.show_hidden,
            final(self).mode == old(self).mode,
            final(self).status == old(self).status,
            final(self).vaults == old(self).vaults,
            final(self).vault_selected == old(self).vault_selected,
    {
        self.browser.marked = Vec::new();
        self.browser.filter = None;
        self.browser.filtering = false;
    }

    /// Empties the listing, for the vault list where no directory is open.
    fn clear_listing(&mut self)
        ensures
            final(self).browser.objects@.len() == 0,
            final(self).browser.visible@.len() == 0,
            final(self).browser.selected is None,
            final(self).browser.marked@ == old(self).browser.marked@,
            final(self).browser.filter == old(self).browser.filter,
            final(self).browser.filtering == old(self).browser.filtering,
            final(self).browser.sort == old(self).browser.sort,
            final(self).browser.sort_reverse == old(self).browser.sort_reverse,
            final(self).browser.show_hidden == old(self).browser.show_hidden,
            final(self).mode == old(self).mode,
            final(self).status == old(self).status,
            final(self).vaults == old(self).vaults,
            final(self).vault_selected == old(self).vault_selected,
    {
        self.browser.objects = Vec::new();
        self.browser.visible = Vec::new();
        self.browser.selected = None;
    }

    /// After the vault `name` was selected: browse it, with the per-directory state dropped.
    pub fn entered_vault(&mut self, name: String)
        ensures
            final(self).mode == AppMode::Vault(name),
            final(self).browser.marked@.len() == 0,
            final(self).browser.filter is None,
            !final(self).browser.filtering,
            final(self).status == old(self).status,
            final(self).vaults == old(self).vaults,
    {
        self.mode = AppMode::Vault(name);
        self.leave_directory();
    }

    /// After a successful `cd`, given the vault the session is now in: browse it (the caller
    /// then relists the directory, `true`), or at the top level go back to the vault list with
    /// the listing emptied (the caller relists the vaults, `false`).
    pub fn after_cd(&mut self, current: Option<String>) -> (list_objects: bool)
        ensures
            list_objects == current is Some,
            match current {
                Some(v) => final(self).mode == AppMode::Vault(v),
                None => final(self).mode == AppMode::Root
                    && final(self).browser.objects@.len() == 0
                    && final(self).browser.visible@.len() == 0
                    && final(self).browser.selected is None,
            },
            final(self).browser.marked@.len() == 0,
            final(self).browser.filter is None,
            !final(self).browser.filtering,
            final(self).status == old(self).status,
            final(self).vaults == old(self).vaults,
    {
        match current {
            Some(v) => {
                self.mode = AppMode::Vault(v);
                self.leave_directory();
                true
            },
            None => {
                self.mode = AppMode::Root;
                self.leave_directory();
                self.clear_listing();
                false
            },
        }
    }

    /// After a vault was forgotten: if it was the one being browsed (the session has no
    /// current vault any more), back to the vault list with the listing emptied. The caller
    /// then relists the vaults.
    pub fn forgotten(&mut self, no_current_vault: bool)
        ensures
            final(self).status matches Some(m) && m@ == "vault forgotten"@,
            no_current_vault ==> final(self).mode == AppMode::Root
                && final(self).browser.objects@.len() == 0
                && final(self).browser.visible@.len() == 0
                && final(self).browser.selected is None,
            !no_current_vault ==> final(self).mode == old(self).mode && final(self).browser == old(self).browser,
            final(self).vaults == old(self).vaults,
    {
        if no_current_vault {
            self.mode = AppMode::Root;
            self.clear_listing();
        }
        self.status = Some(String::from_str("vault forgotten"));
    }

    /// After registering a vault config (`created`: one the creation wizard just wrote): the
    /// status says so, or gives the error. Returns whether the vaults are to be relisted.
    pub fn registered(&mut self, result: Result<(), String>, created: bool) -> (relist: bool)
        ensures
            relist == result is Ok,
            match result {
                Ok(()) => final(self).status matches Some(m)
                    && m@ == if created { "vault created"@ } else { "vault registered"@ },
                Err(e) => final(self).status == Some(e),
            },
            final(self).mode == old(self).mode,
            final(self).browser == old(self).browser,
            final(self).vaults == old(self).vaults,
    {
        match result {
            Ok(()) => {
                self.status = Some(String::from_str(if created { "vault created" } else { "vault registered" }));
                true
            },
            Err(e) => {
                self.status = Some(e);
                false
            },
        }
    }

    /// Takes a fresh list of the vault names; the cursor stays where it is while it still
    /// points at a vault, else goes to the first one (or nowhere, with no vaults).
    pub fn set_vaults(&mut self, names: Vec<String>)
        ensures
            final(self).vaults@ == names@,
            final(self).vault_selected == match old(self).vault_selected {
                Some(i) if i < names@.len() => Some(i),
                _ => if names@.len() > 0 { Some(0usize) } else { None },
            },
            final(self).mode == old(self).mode,
            final(self).browser == old(self).browser,
            final(self).status == old(self).status,
    {
        let n = names.len();
        self.vaults = names;
        let keep = match self.vault_selected {
            Some(i) => i < n,
            None => false,
        };
        if !keep {
            self.vault_selected = if n > 0 { Some(0) } else { None };
        }
    }

    /// Takes the outcome of listing the working directory: the new objects, with marks kept
    /// only on names still listed (a deleted, moved or renamed object would otherwise stay
    /// marked for the next bulk operation), the view recomputed with the cursor kept on the
    /// name its row showed in the new listing where that name is still shown, and the status
    /// cleared; or the error as the status.
    pub fn objects_listed(&mut self, result: Result<Vec<Entry>, String>)
        ensures
            match result {
                Ok(objects) => {
                    &&& final(self).browser.objects@ == objects@
                    &&& final(self).browser.marked@ == old(self).browser.marked@.filter(|m: String| listed(objects@, m@))
                    &&& view_of(final(self).browser.objects@, final(self).browser.visible@,
                        opt_text(final(self).browser.filter), final(self).browser.show_hidden,
                        final(self).browser.sort, final(self).browser.sort_reverse)
                    &&& cursor_kept(name_at(objects@, old(self).browser.visible@, old(self).browser.selected), final(self).browser)
                    &&& final(self).status is None
                },
                Err(e) => final(self).status == Some(e) && final(self).browser == old(self).browser,
            },
            final(self).mode == old(self).mode,
            final(self).vaults == old(self).vaults,
            final(self).browser.filter == old(self).browser.filter,
            final(self).browser.sort == old(self).browser.sort,
    {
        match result {
            Err(e) => {
                self.status = Some(e);
            },
            Ok(objects) => {
                let ghost pred = |m: String| listed(objects@, m@);
                let mut old_marked: Vec<String> = Vec::new();
                std::mem::swap(&mut old_marked, &mut self.browser.marked);
                let mut kept: Vec<String> = Vec::new();
                let mut i: usize = 0;
                proof {
                    assert(old_marked@.take(0) =~= Seq::<String>::empty());
                    reveal_with_fuel(Seq::filter, 1);
                    assert(kept@ =~= old_marked@.take(0).filter(pred));
                }
                while i < old_marked.len()
                    invariant
                        i <= old_marked@.len(),
                        pred == (|m: String| listed(objects@, m@)),
                        kept@ == old_marked@.take(i as int).filter(pred),
                    decreases old_marked.len() - i,
                {
                    proof {
                        assert(old_marked@.take(i + 1) =~= old_marked@.take(i as int).push(old_marked@[i as int]));
                        old_marked@.take(i as int).lemma_filter_push(old_marked@[i as int], pred);
                    }
                    if is_listed(&objects, &old_marked[i]) {
                        kept.push(old_marked[i].clone());
                    }
                    i = i + 1;
                }
                assert(old_marked@.take(old_marked@.len() as int) =~= old_marked@);
                self.browser.objects = objects;
                self.browser.marked = kept;
                self.browser.apply_view();
                self.status = None;
            },
        }
    }
}


/// Where going up from directory `pwd` of a vault leads: from the vault's root, out of the
/// vault to the vault list (`None`, a `cd` with no argument); from anywhere else, to the parent
/// directory (`cd ..`).
pub fn ascend_target(pwd: &str) -> (r: Option<String>)
    ensures
        pwd@ == seq!['/'] ==> r is None,
        pwd@ != seq!['/'] ==> (r matches Some(p) && p@ == ".."@),
{
    let c = chars_of(pwd);
    if c.len() == 1 && c[0] == '/' {
        assert(c@ =~= seq!['/']);
        None
    } else {
        Some(String::from_str(".."))
    }
}

/// What follows reading back the temp copy of an opened object.
#[derive(Debug, PartialEq, Eq)]
pub enum WriteBack {
    /// Nothing to save; show this status.
    Done(String),
    /// Save these bytes to the object, then report with `saved_status`.
    Save(Vec<u8>),
}

/// What reading back the temp copy of `name` (`read`: its bytes now, or why they could not be
/// read) leads to, given the bytes it was opened with: unchanged bytes are not written (for
/// some origins a write is a new modification time, enough to make the next sync think it
/// diverged), and the status says whether later edits will be missed (`os_opened`: the system's
/// opener may have handed the file to a program still running) or the file was closed
/// unchanged; changed bytes are saved.
pub fn write_back_step(name: &str, read: Result<Vec<u8>, String>, original: &[u8], os_opened: bool) -> (r: WriteBack)
    ensures
        match read {
            Err(e) => r matches WriteBack::Done(m) && m@ == "couldn't read back "@ + name@ + ": "@ + e@,
            Ok(updated) => if updated@ == original@ {
                r matches WriteBack::Done(m) && m@ == if os_opened {
                    "opened "@ + name@ + " — edits made after this won't be saved back"@
                } else {
                    "closed "@ + name@ + " — unchanged"@
                }
            } else {
                r matches WriteBack::Save(b) && b@ == updated@
            },
        },
{
    let updated = match read {
        Err(e) => return WriteBack::Done(cat3("couldn't read back ", name, ": ").concat(e.as_str())),
        Ok(u) => u,
    };
    let same = bytes_equal(updated.as_slice(), original);
    if same {
        WriteBack::Done(
            if os_opened {
                cat3("opened ", name, " — edits made after this won't be saved back")
            } else {
                cat3("closed ", name, " — unchanged")
            },
        )
    } else {
        WriteBack::Save(updated)
    }
}

/// Whether `a` and `b` hold the same bytes.
fn bytes_equal(a: &[u8], b: &[u8]) -> (r: bool)
    ensures
        r == (a@ == b@),
{
    if a.len() != b.len() {
        return false;
    }
    let mut i: usize = 0;
    while i < a.len()
        invariant
            a@.len() == b@.len(),
            i <= a@.len(),
            forall|j: int| 0 <= j < i ==> a@[j] == b@[j],
        decreases a.len() - i,
    {
        if a[i] != b[i] {
            return false;
        }
        i = i + 1;
    }
    assert(a@ =~= b@);
    true
}

/// The status after saving the edited copy of `name`.
pub fn saved_status(name: &str, result: Result<(), String>) -> (r: String)
    ensures
        r@ == match result {
            Ok(()) => "saved "@ + name@,
            Err(e) => "couldn't save "@ + name@ + ": "@ + e@,
        },
{
    match result {
        Ok(()) => cat("saved ", name),
        Err(e) => cat3("couldn't save ", name, ": ").concat(e.as_str()),
    }
}

} // verus!
