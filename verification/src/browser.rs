//! The terminal frontend's object listing: which objects are shown, in which order, which one
//! the cursor is on, and which are marked.

use vstd::prelude::*;
use crate::object::{Object, Timestamp};
use crate::order::{chars_le, lex_le, lemma_lex_le_antisymmetric, lemma_lex_le_total};
use crate::text::{chars_eq, chars_of, occurs_at, matches_at};

verus! {

/// What the object list is ordered by. Directories always come first regardless.
#[derive(Debug, Clone, Copy, PartialEq, Eq, Structural)]
pub enum SortKey {
    /// By name.
    Name,
    /// By size, then name.
    Size,
    /// By modification time, then name.
    Modified,
}

impl Default for SortKey {
    /// By name.
    fn default() -> (r: SortKey)
        ensures
            r == SortKey::Name,
    {
        SortKey::Name
    }
}

impl SortKey {
    /// The key after `self` in the `s` binding's cycle: name, size, modified, name, ...
    pub open spec fn next_spec(self) -> SortKey {
        match self {
            SortKey::Name => SortKey::Size,
            SortKey::Size => SortKey::Modified,
            SortKey::Modified => SortKey::Name,
        }
    }

    /// Cycles to the next key, for the `s` binding.
    pub fn next(self) -> (r: SortKey)
        ensures
            r == self.next_spec(),
    {
        match self {
            SortKey::Name => SortKey::Size,
            SortKey::Size => SortKey::Modified,
            SortKey::Modified => SortKey::Name,
        }
    }

    /// The key's name in the status bar.
    pub open spec fn label_spec(self) -> Seq<char> {
        match self {
            SortKey::Name => "name"@,
            SortKey::Size => "size"@,
            SortKey::Modified => "modified"@,
        }
    }

    /// The key's name in the status bar.
    pub fn label(self) -> (r: &'static str)
        ensures
            r@ == self.label_spec(),
    {
        match self {
            SortKey::Name => "name",
            SortKey::Size => "size",
            SortKey::Modified => "modified",
        }
    }
}

/// Three presses of `s` bring the sort back to where it was.
pub proof fn lemma_sort_key_cycle(k: SortKey)
    ensures
        k.next_spec().next_spec().next_spec() == k,
        k.next_spec() != k,
{
}

/// The variant of an object, as the listing sees it.
#[derive(Debug, Clone, Copy, PartialEq, Eq, Structural)]
pub enum EntryKind {
    /// A file-like object.
    Leaf,
    /// A directory-like object.
    Branch,
    /// The root.
    Root,
}

/// What the listing reads of an object: its name, id, kind, size for sorting (0 for directories
/// and unknown sizes) and modification time for sorting (the epoch when unknown).
#[derive(Debug, Clone, PartialEq, Eq)]
pub struct Entry {
    /// The object's name.
    pub name: String,
    /// The object's id.
    pub id: crate::object::ObjectId,
    /// The object's variant.
    pub kind: EntryKind,
    /// The size the listing sorts by.
    pub size: u64,
    /// The modification time the listing sorts by.
    pub modified: Timestamp,
}

impl Entry {
    /// A copy of the entry.
    pub fn duplicate(&self) -> (r: Entry)
        ensures
            r == *self,
    {
        Entry { name: self.name.clone(), id: self.id.clone(), kind: self.kind, size: self.size, modified: self.modified }
    }

    /// The listing's view of `object`.
    pub fn of(object: &Object) -> (r: Entry)
        ensures
            r.name@ == object.name_spec(),
            r.id@ == object.id_spec(),
            r.kind == match object {
                Object::Leaf { .. } => EntryKind::Leaf,
                Object::Branch { .. } => EntryKind::Branch,
                Object::Root { .. } => EntryKind::Root,
            },
            r.size == match object {
                Object::Leaf { meta, .. } => match meta.size {
                    Some(s) => s,
                    None => 0,
                },
                _ => 0,
            },
            r.modified == match object {
                Object::Leaf { meta, .. } | Object::Branch { meta, .. } => match meta.modified {
                    Some(t) => t,
                    None => Timestamp { secs: 0, nanos: 0 },
                },
                Object::Root { .. } => Timestamp { secs: 0, nanos: 0 },
            },
    {
        let epoch = Timestamp { secs: 0, nanos: 0 };
        match object {
            Object::Leaf { name, meta, id } => Entry {
                name: name.clone(),
                id: id.clone(),
                kind: EntryKind::Leaf,
                size: match meta.size {
                    Some(s) => s,
                    None => 0,
                },
                modified: match meta.modified {
                    Some(t) => t,
                    None => epoch,
                },
            },
            Object::Branch { name, meta, id, .. } => Entry {
                name: name.clone(),
                id: id.clone(),
                kind: EntryKind::Branch,
                size: 0,
                modified: match meta.modified {
                    Some(t) => t,
                    None => epoch,
                },
            },
            Object::Root { id, .. } => Entry { name: object.get_name(), id: id.clone(), kind: EntryKind::Root, size: 0, modified: epoch },
        }
    }
}

/// `-1`, `0` or `1` as `a` is less than, equal to or greater than `b`.
pub open spec fn sign_order(a: int, b: int) -> int {
    if a < b {
        -1
    } else if a > b {
        1
    } else {
        0
    }
}

/// Names compared by code point: `-1`, `0` or `1`.
pub open spec fn name_order(a: Seq<char>, b: Seq<char>) -> int {
    if a == b {
        0
    } else if lex_le(a, b) {
        -1
    } else {
        1
    }
}

/// How `a` and `b` compare under `key`, before the name tie-break.
pub open spec fn key_order(a: Entry, b: Entry, key: SortKey) -> int {
    match key {
        SortKey::Name => 0,
        SortKey::Size => sign_order(a.size as int, b.size as int),
        SortKey::Modified => if a.modified.secs != b.modified.secs {
            sign_order(a.modified.secs as int, b.modified.secs as int)
        } else {
            sign_order(a.modified.nanos as int, b.modified.nanos as int)
        },
    }
}

/// How the listing orders `a` against `b`: a directory before a file always; otherwise by the
/// key, then by name, the whole reversed when `reverse` is on.
pub open spec fn entry_order(a: Entry, b: Entry, key: SortKey, reverse: bool) -> int {
    if a.kind == EntryKind::Branch && b.kind == EntryKind::Leaf {
        -1
    } else if a.kind == EntryKind::Leaf && b.kind == EntryKind::Branch {
        1
    } else {
        let k = key_order(a, b, key);
        let o = if k != 0 { k } else { name_order(a.name@, b.name@) };
        if reverse { -o } else { o }
    }
}

/// How the listing orders two objects: a directory comes before a file whatever the key and
/// direction; between two objects of one kind, the smaller size, the earlier modification time
/// or the name first in code-point order comes first for the key in force (ties broken by
/// name), and `reverse` turns that around.
pub proof fn lemma_listing_order(a: Entry, b: Entry, key: SortKey, reverse: bool)
    ensures
        (a.kind == EntryKind::Branch && b.kind == EntryKind::Leaf) ==> entry_order(a, b, key, reverse) < 0,
        a.kind == b.kind ==> {
            let before = match key {
                SortKey::Size => a.size < b.size || (a.size == b.size && a.name@ != b.name@ && lex_le(a.name@, b.name@)),
                SortKey::Modified => a.modified.secs < b.modified.secs || (a.modified.secs == b.modified.secs && (
                    a.modified.nanos < b.modified.nanos || (a.modified.nanos == b.modified.nanos && a.name@ != b.name@
                        && lex_le(a.name@, b.name@)))),
                SortKey::Name => a.name@ != b.name@ && lex_le(a.name@, b.name@),
            };
            &&& before ==> (if reverse { entry_order(a, b, key, reverse) > 0 } else { entry_order(a, b, key, reverse) < 0 })
        },
{
}

/// Whether the object at index `i` is listed before the one at `j`: by `entry_order`, and objects
/// that compare equal keep the order the origin listed them in.
pub open spec fn listed_before(objects: Seq<Entry>, i: int, j: int, key: SortKey, reverse: bool) -> bool {
    let c = entry_order(objects[i], objects[j], key, reverse);
    c < 0 || (c == 0 && i < j)
}

/// The lower-case form of `s` by Unicode's case mapping, as `str::to_lowercase` computes it.
pub uninterp spec fn lowercase(s: Seq<char>) -> Seq<char>;

/// Calls `str::to_lowercase`. Claimed: the result is `lowercase` of the input, so it depends
/// on the input alone; nothing is said of what the mapping does to a given character.
#[verifier::external_body]
fn to_lowercase(s: &str) -> (r: String)
    ensures
        r@ == lowercase(s@),
{
    s.to_lowercase()
}

/// Whether `needle` occurs somewhere in `hay`.
pub open spec fn contains_text(hay: Seq<char>, needle: Seq<char>) -> bool {
    exists|i: int| #[trigger] occurs_at(hay, needle, i)
}

/// Whether the listing shows an object named `name`: dot-names only when hidden objects are
/// shown, and only names containing the filter, compared in lower case.
pub open spec fn shown(name: Seq<char>, filter: Option<Seq<char>>, show_hidden: bool) -> bool {
    (show_hidden || !(name.len() > 0 && name[0] == '.')) && match filter {
        Some(f) => contains_text(lowercase(name), lowercase(f)),
        None => true,
    }
}

/// Whether `needle` occurs in `hay`.
fn find_text(hay: &Vec<char>, needle: &Vec<char>) -> (b: bool)
    ensures
        b == contains_text(hay@, needle@),
{
    let mut i: usize = 0;
    while i < hay.len()
        invariant
            i <= hay@.len(),
            forall|k: int| 0 <= k < i ==> !occurs_at(hay@, needle@, k),
        decreases hay.len() - i,
    {
        if matches_at(hay, needle, i) {
            return true;
        }
        i = i + 1;
    }
    if matches_at(hay, needle, hay.len()) {
        return true;
    }
    assert forall|k: int| !#[trigger] occurs_at(hay@, needle@, k) by {
        if 0 <= k < hay@.len() {
        } else if k == hay@.len() {
        }
    }
    false
}

/// The entries' views of a list of optional strings.
pub open spec fn opt_text(o: Option<String>) -> Option<Seq<char>> {
    match o {
        Some(s) => Some(s@),
        None => None,
    }
}

/// The name of the object that row `selected` of `visible` shows among `objects`, if any.
pub open spec fn name_at(objects: Seq<Entry>, visible: Seq<usize>, selected: Option<usize>) -> Option<Seq<char>> {
    match selected {
        Some(k) => if k < visible.len() && visible[k as int] < objects.len() {
            Some(objects[visible[k as int] as int].name@)
        } else {
            None
        },
        None => None,
    }
}

/// Where the cursor of `b` is after its view was recomputed, given the name `previous` it was
/// on: on the first row showing that name when one does, else on the first row, or nowhere
/// when nothing is shown.
pub open spec fn cursor_kept(previous: Option<Seq<char>>, b: Browser) -> bool {
    match previous {
        Some(n) => if exists|k: int| 0 <= k < b.visible@.len() && b.objects@[b.visible@[k] as int].name@ == n {
            b.selected matches Some(k) && k < b.visible@.len()
                && b.objects@[b.visible@[k as int] as int].name@ == n
                && forall|j: int| 0 <= j < k ==> b.objects@[#[trigger] b.visible@[j] as int].name@ != n
        } else if b.visible@.len() == 0 {
            b.selected is None
        } else {
            b.selected == Some(0usize)
        },
        None => if b.visible@.len() == 0 {
            b.selected is None
        } else {
            b.selected == Some(0usize)
        },
    }
}

/// The object listing of one directory.
pub struct Browser {
    /// Every object in the directory, as the vault reported them.
    pub objects: Vec<Entry>,
    /// Indices into `objects`, in display order.
    pub visible: Vec<usize>,
    /// The cursor, an index into `visible`.
    pub selected: Option<usize>,
    /// Names marked for a bulk operation.
    pub marked: Vec<String>,
    /// The text narrowing the listing, if any.
    pub filter: Option<String>,
    /// Whether keystrokes go into the filter.
    pub filtering: bool,
    /// What the listing is ordered by.
    pub sort: SortKey,
    /// Whether the order is reversed (directories still first).
    pub sort_reverse: bool,
    /// Whether dot-names are listed.
    pub show_hidden: bool,
}

/// Whether `visible` lists exactly the shown objects of `objects`, each once, in listing order.
pub open spec fn view_of(objects: Seq<Entry>, visible: Seq<usize>, filter: Option<Seq<char>>, show_hidden: bool, key: SortKey, reverse: bool) -> bool {
    &&& visible.no_duplicates()
    &&& forall|k: int| 0 <= k < visible.len() ==> #[trigger] visible[k] < objects.len()
    &&& forall|i: int| 0 <= i < objects.len() ==> (visible.contains(i as usize) <==> shown(#[trigger] objects[i].name@, filter, show_hidden))
    &&& forall|k: int| 0 <= k < visible.len() - 1 ==> listed_before(objects, #[trigger] visible[k] as int, visible[k + 1] as int, key, reverse)
}

impl Browser {
    /// The name of the object under the cursor, if any.
    pub open spec fn selected_name_spec(&self) -> Option<Seq<char>> {
        name_at(self.objects@, self.visible@, self.selected)
    }

    /// An empty listing with the default view settings.
    pub fn new() -> (r: Browser)
        ensures
            r.objects@.len() == 0,
            r.visible@.len() == 0,
            r.selected is None,
            r.marked@.len() == 0,
            r.filter is None,
            !r.filtering,
            r.sort == SortKey::Name,
            !r.sort_reverse,
            !r.show_hidden,
    {
        Browser {
            objects: Vec::new(),
            visible: Vec::new(),
            selected: None,
            marked: Vec::new(),
            filter: None,
            filtering: false,
            sort: SortKey::Name,
            sort_reverse: false,
            show_hidden: false,
        }
    }

    /// The name of the object under the cursor, if any.
    pub fn selected_name(&self) -> (r: Option<String>)
        ensures
            opt_text(r) == self.selected_name_spec(),
    {
        match self.selected {
            Some(k) => if k < self.visible.len() && self.visible[k] < self.objects.len() {
                Some(self.objects[self.visible[k]].name.clone())
            } else {
                None
            },
            None => None,
        }
    }

    /// Whether the object at `i` is shown under the current filter and hidden setting.
    fn is_shown(&self, i: usize, needle: &Option<Vec<char>>) -> (b: bool)
        requires
            i < self.objects@.len(),
            match *needle {
                Some(n) => self.filter matches Some(f) && n@ == lowercase(f@),
                None => self.filter is None,
            },
        ensures
            b == shown(self.objects@[i as int].name@, opt_text(self.filter), self.show_hidden),
    {
        let name = chars_of(self.objects[i].name.as_str());
        if !self.show_hidden && name.len() > 0 && name[0] == '.' {
            return false;
        }
        match needle {
            Some(n) => {
                let lower = chars_of(to_lowercase(self.objects[i].name.as_str()).as_str());
                find_text(&lower, n)
            },
            None => true,
        }
    }

    /// How the objects at `i` and `j` compare (see `entry_order`).
    fn compare(&self, i: usize, j: usize) -> (c: i8)
        requires
            i < self.objects@.len(),
            j < self.objects@.len(),
        ensures
            c as int == entry_order(self.objects@[i as int], self.objects@[j as int], self.sort, self.sort_reverse),
    {
        let a = &self.objects[i];
        let b = &self.objects[j];
        if a.kind == EntryKind::Branch && b.kind == EntryKind::Leaf {
            return -1;
        }
        if a.kind == EntryKind::Leaf && b.kind == EntryKind::Branch {
            return 1;
        }
        let k: i8 = match self.sort {
            SortKey::Name => 0,
            SortKey::Size => if a.size < b.size {
                -1
            } else if a.size > b.size {
                1
            } else {
                0
            },
            SortKey::Modified => if a.modified.secs != b.modified.secs {
                if a.modified.secs < b.modified.secs {
                    -1
                } else {
                    1
                }
            } else if a.modified.nanos < b.modified.nanos {
                -1
            } else if a.modified.nanos > b.modified.nanos {
                1
            } else {
                0
            },
        };
        let o: i8 = if k != 0 {
            k
        } else {
            let x = chars_of(a.name.as_str());
            let y = chars_of(b.name.as_str());
            if chars_eq(&x, &y) {
                0
            } else if chars_le(&x, &y) {
                -1
            } else {
                1
            }
        };
        if self.sort_reverse {
            -o
        } else {
            o
        }
    }

    /// Recomputes `visible` from `objects` (dropping what the filter and the hidden-file setting
    /// exclude, then ordering by the current sort) and keeps the cursor on the same object
    /// across the change where it still exists: else on the first object, or nowhere when
    /// nothing is shown.
    pub fn apply_view(&mut self)
        ensures
            final(self).objects@ == old(self).objects@,
            final(self).marked@ == old(self).marked@,
            final(self).filter == old(self).filter,
            final(self).filtering == old(self).filtering,
            final(self).sort == old(self).sort,
            final(self).sort_reverse == old(self).sort_reverse,
            final(self).show_hidden == old(self).show_hidden,
            view_of(final(self).objects@, final(self).visible@, opt_text(final(self).filter), final(self).show_hidden, final(self).sort, final(self).sort_reverse),
            cursor_kept(old(self).selected_name_spec(), *final(self)),
    {
        let previous = self.selected_name();
        let needle: Option<Vec<char>> = match &self.filter {
            Some(f) => Some(chars_of(to_lowercase(f.as_str()).as_str())),
            None => None,
        };
        let n = self.objects.len();
        let mut visible: Vec<usize> = Vec::new();
        let mut i: usize = 0;
        while i < n
            invariant
                n == self.objects@.len(),
                i <= n,
                match needle {
                    Some(nd) => self.filter matches Some(f) && nd@ == lowercase(f@),
                    None => self.filter is None,
                },
                visible@.no_duplicates(),
                forall|k: int| 0 <= k < visible@.len() ==> #[trigger] visible@[k] < i,
                forall|j: int| 0 <= j < i ==> (visible@.contains(j as usize) <==> shown(#[trigger] self.objects@[j].name@, opt_text(self.filter), self.show_hidden)),
                forall|k: int| 0 <= k < visible@.len() - 1 ==> listed_before(self.objects@, #[trigger] visible@[k] as int, visible@[k + 1] as int, self.sort, self.sort_reverse),
            decreases n - i,
        {
            if self.is_shown(i, &needle) {
                self.insert_sorted(&mut visible, i);
            } else {
                assert(!visible@.contains(i));
            }
            i = i + 1;
        }
        self.visible = visible;
        let found: Option<usize> = match &previous {
            Some(name) => self.position_of(name),
            None => None,
        };
        self.selected = match found {
            Some(k) => Some(k),
            None => if self.visible.len() == 0 {
                None
            } else {
                Some(0)
            },
        };
    }

    /// The first display position whose object is named `name`.
    fn position_of(&self, name: &String) -> (r: Option<usize>)
        requires
            forall|k: int| 0 <= k < self.visible@.len() ==> #[trigger] self.visible@[k] < self.objects@.len(),
        ensures
            match r {
                Some(k) => k < self.visible@.len() && self.objects@[self.visible@[k as int] as int].name@ == name@
                    && forall|j: int| 0 <= j < k ==> self.objects@[#[trigger] self.visible@[j] as int].name@ != name@,
                None => forall|j: int| 0 <= j < self.visible@.len() ==> self.objects@[#[trigger] self.visible@[j] as int].name@ != name@,
            },
    {
        let target = chars_of(name.as_str());
        let mut k: usize = 0;
        while k < self.visible.len()
            invariant
                k <= self.visible@.len(),
                forall|k2: int| 0 <= k2 < self.visible@.len() ==> #[trigger] self.visible@[k2] < self.objects@.len(),
                target@ == name@,
                forall|j: int| 0 <= j < k ==> self.objects@[#[trigger] self.visible@[j] as int].name@ != name@,
            decreases self.visible.len() - k,
        {
            let candidate = chars_of(self.objects[self.visible[k]].name.as_str());
            if chars_eq(&candidate, &target) {
                return Some(k);
            }
            k = k + 1;
        }
        None
    }

    /// Inserts index `i` into the ordered list `visible` where it belongs.
    fn insert_sorted(&self, visible: &mut Vec<usize>, i: usize)
        requires
            i < self.objects@.len(),
            old(visible)@.no_duplicates(),
            forall|k: int| 0 <= k < old(visible)@.len() ==> #[trigger] old(visible)@[k] < i,
            forall|k: int| 0 <= k < old(visible)@.len() - 1 ==> listed_before(self.objects@, #[trigger] old(visible)@[k] as int, old(visible)@[k + 1] as int, self.sort, self.sort_reverse),
        ensures
            forall|x: usize| final(visible)@.contains(x) <==> (old(visible)@.contains(x) || x == i),
            final(visible)@.no_duplicates(),
            forall|k: int| 0 <= k < final(visible)@.len() ==> #[trigger] final(visible)@[k] <= i,
            forall|k: int| 0 <= k < final(visible)@.len() - 1 ==> listed_before(self.objects@, #[trigger] final(visible)@[k] as int, final(visible)@[k + 1] as int, self.sort, self.sort_reverse),
    {
        let mut p: usize = 0;
        while p < visible.len() && self.compare(visible[p], i) <= 0
            invariant
                p <= visible@.len(),
                i < self.objects@.len(),
                forall|k: int| 0 <= k < visible@.len() ==> #[trigger] visible@[k] < i,
                forall|k: int| 0 <= k < p ==> entry_order(self.objects@[#[trigger] visible@[k] as int], self.objects@[i as int], self.sort, self.sort_reverse) <= 0,
            decreases visible.len() - p,
        {
            p = p + 1;
        }
        let ghost before = visible@;
        proof {
            if p > 0 {
                let x = before[p - 1] as int;
                assert(listed_before(self.objects@, x, i as int, self.sort, self.sort_reverse));
            }
            if p < before.len() {
                lemma_entry_order_antisymmetric(self.objects@[before[p as int] as int], self.objects@[i as int], self.sort, self.sort_reverse);
                assert(listed_before(self.objects@, i as int, before[p as int] as int, self.sort, self.sort_reverse));
            }
        }
        visible.insert(p, i);
        assert(visible@ == before.insert(p as int, i));
        assert forall|x: usize| visible@.contains(x) <==> (before.contains(x) || x == i) by {
            assert(visible@[p as int] == i);
            {
                if visible@.contains(x) {
                    let k = choose|k: int| 0 <= k < visible@.len() && visible@[k] == x;
                    if k < p {
                        assert(before[k] == x);
                    } else if k > p {
                        assert(before[k - 1] == x);
                    }
                }
                if before.contains(x) {
                    let k = choose|k: int| 0 <= k < before.len() && before[k] == x;
                    if k < p {
                        assert(visible@[k] == x);
                    } else {
                        assert(visible@[k + 1] == x);
                    }
                }
            }
        }
        assert forall|a: int, b: int| 0 <= a < b < visible@.len() implies visible@[a] != visible@[b] by {
            if a < p && b > p {
                assert(visible@[a] == before[a] && visible@[b] == before[b - 1]);
            } else if a > p {
                assert(visible@[a] == before[a - 1] && visible@[b] == before[b - 1]);
            } else if b < p {
                assert(visible@[a] == before[a] && visible@[b] == before[b]);
            } else if a == p {
                assert(visible@[b] == before[b - 1]);
            } else {
                assert(visible@[a] == before[a]);
            }
        }
        assert forall|k: int| 0 <= k < visible@.len() - 1 implies listed_before(self.objects@, #[trigger] visible@[k] as int, visible@[k + 1] as int, self.sort, self.sort_reverse) by {
            if k + 1 < p {
                assert(visible@[k] == before[k] && visible@[k + 1] == before[k + 1]);
            } else if k + 1 == p {
                assert(visible@[k] == before[k]);
            } else if k == p {
                assert(visible@[k + 1] == before[k]);
            } else {
                assert(visible@[k] == before[k - 1] && visible@[k + 1] == before[k]);
            }
        }
    }
}

/// `entry_order` is antisymmetric: swapping the arguments flips the sign.
pub proof fn lemma_entry_order_antisymmetric(a: Entry, b: Entry, key: SortKey, reverse: bool)
    ensures
        entry_order(a, b, key, reverse) == -entry_order(b, a, key, reverse),
{
    if a.name@ != b.name@ {
        lemma_lex_le_total(a.name@, b.name@);
        if lex_le(a.name@, b.name@) && lex_le(b.name@, a.name@) {
            lemma_lex_le_antisymmetric(a.name@, b.name@);
        }
    }
}

} // verus!
