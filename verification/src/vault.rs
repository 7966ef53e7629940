//! The decisions a vault makes while walking its origin: which names a path is looked up
//! by, which child a name picks, and what syncing one object with another origin takes; and
//! the cache of the objects it has read. The origins themselves (listing, reading, writing)
//! are driven by the caller.

use vstd::prelude::*;
use crate::error::VaultError;
use crate::object::{id_views, Object, ObjectId, ObjectView};
use crate::path::{is_absolute, segments, split_segments};
use crate::text::{chars_eq, chars_of, string_of};

verus! {

/// Whether a segment is dropped from a lookup: empty, or `.`.
pub open spec fn dropped(seg: Seq<char>) -> bool {
    seg.len() == 0 || seg == seq!['.']
}

/// The segments of `segs` that are looked up, in order.
pub open spec fn looked_up(segs: Seq<Seq<char>>) -> Seq<Seq<char>>
    decreases segs.len(),
{
    if segs.len() == 0 {
        Seq::empty()
    } else if dropped(segs.last()) {
        looked_up(segs.drop_last())
    } else {
        looked_up(segs.drop_last()).push(segs.last())
    }
}

/// The names the components of `path` are looked up by, in order, as a path's components
/// are read: the root and the separators give none, empty and `.` components are dropped
/// (but a relative path that starts with `.` keeps that one), and `..` stays a name.
pub open spec fn lookup_names(path: Seq<char>) -> Seq<Seq<char>> {
    let segs = segments(path);
    let rest = looked_up(segs);
    if !is_absolute(path) && segs[0] == seq!['.'] {
        seq![seq!['.']] + rest
    } else {
        rest
    }
}

/// Whether a segment names something: it is neither empty nor `.`. Dot-names such as
/// `.config`, and `..`, name something.
pub open spec fn names_something(seg: Seq<char>) -> bool {
    seg.len() > 0 && seg != seq!['.']
}

/// Every segment that names something is looked up, in order, and nothing else is: the
/// looked-up names are the segments with the empty ones and the `.`s left out.
pub proof fn lemma_named_segments_are_looked_up(segs: Seq<Seq<char>>)
    ensures
        looked_up(segs) == segs.filter(|seg: Seq<char>| names_something(seg)),
    decreases segs.len(),
{
    reveal_with_fuel(Seq::filter, 1);
    if segs.len() > 0 {
        lemma_named_segments_are_looked_up(segs.drop_last());
    }
}

/// The names a path is looked up by are its segments that name something, in order, hidden
/// dot-names included (a relative path opened with `.` keeps that `.` in front).
pub proof fn lemma_lookup_names_of_path(path: Seq<char>)
    ensures
        !(!is_absolute(path) && segments(path)[0] == seq!['.']) ==> lookup_names(path) == segments(path).filter(
            |seg: Seq<char>| names_something(seg),
        ),
        (!is_absolute(path) && segments(path)[0] == seq!['.']) ==> lookup_names(path) == seq![seq!['.']] + segments(
            path,
        ).filter(|seg: Seq<char>| names_something(seg)),
{
    lemma_named_segments_are_looked_up(segments(path));
}

/// A path always has a first segment.
proof fn lemma_segments_nonempty(s: Seq<char>)
    ensures
        segments(s).len() >= 1,
    decreases s.len(),
{
    if s.len() > 0 {
        lemma_segments_nonempty(s.drop_last());
    }
}

/// The names `path` is looked up by (see `lookup_names`).
pub fn path_lookup_names(path: &str) -> (r: Vec<String>)
    ensures
        r@.map_values(|s: String| s@) == lookup_names(path@),
{
    let p = chars_of(path);
    let segs = split_segments(&p);
    let ghost sv = segments(p@);
    let mut out: Vec<String> = Vec::new();
    let absolute = p.len() > 0 && p[0] == '/';
    proof {
        lemma_segments_nonempty(p@);
    }
    let lead = !absolute && segs[0].len() == 1 && segs[0][0] == '.';
    assert(lead == (!is_absolute(p@) && sv[0] == seq!['.'])) by {
        if segs@[0]@.len() == 1 && segs@[0]@[0] == '.' {
            assert(segs@[0]@ =~= seq!['.']);
        }
    }
    if lead {
        let dot = vec!['.'];
        assert(dot@ =~= seq!['.']);
        out.push(string_of(&dot));
        assert(out@.map_values(|s: String| s@) =~= seq![seq!['.']]);
    } else {
        assert(out@.map_values(|s: String| s@) =~= Seq::<Seq<char>>::empty());
    }
    let ghost start = out@.map_values(|s: String| s@);
    assert(start =~= if lead { seq![seq!['.']] } else { Seq::<Seq<char>>::empty() });
    let mut i: usize = 0;
    assert(sv.subrange(0, 0) =~= Seq::<Seq<char>>::empty());
    while i < segs.len()
        invariant
            i <= segs@.len(),
            segs@.len() == sv.len(),
            forall|j: int| 0 <= j < segs@.len() ==> #[trigger] segs@[j]@ == sv[j],
            out@.map_values(|s: String| s@) == start + looked_up(sv.subrange(0, i as int)),
        decreases segs.len() - i,
    {
        assert(sv.subrange(0, i + 1).drop_last() =~= sv.subrange(0, i as int));
        let seg = &segs[i];
        let skip = seg.len() == 0 || (seg.len() == 1 && seg[0] == '.');
        assert(skip == dropped(sv[i as int])) by {
            if seg@.len() == 1 && seg@[0] == '.' {
                assert(seg@ =~= seq!['.']);
            }
        }
        if !skip {
            let ghost before = out@.map_values(|s: String| s@);
            out.push(string_of(seg));
            assert(out@.map_values(|s: String| s@) =~= before.push(sv[i as int]));
        }
        i = i + 1;
    }
    assert(sv.subrange(0, sv.len() as int) =~= sv);
    out
}

/// The id of the first of `children` called `name`; `NotFound` naming it when none is.
pub fn child_named(children: &Vec<Object>, name: &str) -> (r: Result<ObjectId, VaultError>)
    ensures
        match r {
            Ok(id) => exists|i: int| 0 <= i < children@.len() && children@[i].name_spec() == name@
                && (forall|j: int| 0 <= j < i ==> #[trigger] children@[j].name_spec() != name@)
                && id@ == children@[i].id_spec(),
            Err(e) => e matches VaultError::NotFound(n) && n@ == name@
                && forall|j: int| 0 <= j < children@.len() ==> #[trigger] children@[j].name_spec() != name@,
        },
{
    let target = chars_of(name);
    let mut i: usize = 0;
    while i < children.len()
        invariant
            i <= children@.len(),
            target@ == name@,
            forall|j: int| 0 <= j < i ==> #[trigger] children@[j].name_spec() != name@,
        decreases children.len() - i,
    {
        let n = children[i].get_name();
        if chars_eq(&chars_of(n.as_str()), &target) {
            return Ok(children[i].get_id());
        }
        i = i + 1;
    }
    Err(VaultError::NotFound(String::from_str(name)))
}

/// What syncing one object into another origin takes.
#[derive(Debug, PartialEq, Eq)]
pub struct SyncStep {
    /// Whether the object is written to the receiving side.
    pub put: bool,
    /// Whether its children are synced in turn.
    pub descend: bool,
}

/// Whether an object has children to sync: a branch or the root.
pub open spec fn has_children(o: Object) -> bool {
    o is Branch || o is Root
}

/// What syncing `incoming` takes, given what looking its id up on the receiving side gave
/// (`existing`). It is written when the receiving side lacks it (`NotFound`) or holds a
/// copy whose metadata diverges (`Object::changed`, which is symmetric, so which side
/// looks does not matter); branches and the root are descended into whether written or not.
/// Any other lookup failure stops the sync.
pub fn sync_step(existing: Result<Object, VaultError>, incoming: &Object) -> (r: Result<SyncStep, VaultError>)
    ensures
        match existing {
            Ok(o) => r == Ok::<SyncStep, VaultError>(SyncStep { put: o.changed_spec(incoming), descend: has_children(*incoming) }),
            Err(VaultError::NotFound(_)) => r == Ok::<SyncStep, VaultError>(SyncStep { put: true, descend: has_children(*incoming) }),
            Err(e) => r == Err::<SyncStep, VaultError>(e),
        },
{
    let descend = matches!(incoming, Object::Branch { .. } | Object::Root { .. });
    match existing {
        Ok(o) => Ok(SyncStep { put: o.changed(incoming), descend }),
        Err(VaultError::NotFound(_)) => Ok(SyncStep { put: true, descend }),
        Err(e) => Err(e),
    }
}

/// Whether a stored object's payload is sent after it is written: a leaf's is.
pub fn sends_payload(stored: &Object) -> (b: bool)
    ensures
        b == (*stored is Leaf),
{
    matches!(stored, Object::Leaf { .. })
}

/// The cache `m` after storing each of `children`, in order, under its own id.
pub open spec fn stored_all(m: Map<Seq<char>, ObjectView>, children: Seq<Object>) -> Map<Seq<char>, ObjectView>
    decreases children.len(),
{
    if children.len() == 0 {
        m
    } else {
        stored_all(m, children.drop_last()).insert(children.last().id_spec(), children.last()@)
    }
}

/// The ids of `children`, in order.
pub open spec fn ids_of(children: Seq<Object>) -> Seq<Seq<char>> {
    children.map_values(|c: Object| c.id_spec())
}

/// The cache `m` after a listing of `id` returned `children`: each child is stored under its
/// own id, and then `id`, when cached and not a leaf, is recorded as having those children.
pub open spec fn after_listing(m: Map<Seq<char>, ObjectView>, id: Seq<char>, children: Seq<Object>) -> Map<
    Seq<char>,
    ObjectView,
> {
    let s = stored_all(m, children);
    if s.contains_key(id) {
        s.insert(id, s[id].listed(ids_of(children)))
    } else {
        s
    }
}

/// The objects a vault has read or written, each under the id it was asked for or stored
/// under. Lookups are served from here; listings refresh it. Ids are strings, for which
/// Verus's specification of std's `HashMap` proves nothing of a lookup or an insert, so the
/// cache is a vector of entries whose ids are unique, tied to its `Map` view by its invariant.
pub struct ObjectCache {
    entries: Vec<(ObjectId, Object)>,
    contents: Ghost<Map<Seq<char>, ObjectView>>,
}

impl View for ObjectCache {
    type V = Map<Seq<char>, ObjectView>;

    closed spec fn view(&self) -> Map<Seq<char>, ObjectView> {
        self.contents@
    }
}

/// Whether `entries` hold each id once and `contents` maps exactly the held ids to their
/// objects.
pub open spec fn entries_agree(entries: Seq<(ObjectId, Object)>, contents: Map<Seq<char>, ObjectView>) -> bool {
    &&& forall|i: int, j: int|
        #![trigger entries[i], entries[j]]
        0 <= i < j < entries.len() ==> entries[i].0@ != entries[j].0@
    &&& forall|i: int|
        0 <= i < entries.len() ==> contents.contains_key(#[trigger] entries[i].0@)
            && contents[entries[i].0@] == entries[i].1@
    &&& forall|k: Seq<char>|
        #[trigger] contents.contains_key(k) ==> exists|i: int|
            0 <= i < entries.len() && (#[trigger] entries[i]).0@ == k
}

impl ObjectCache {
    /// The entries agree with the view.
    #[verifier::type_invariant]
    closed spec fn wf(self) -> bool {
        entries_agree(self.entries@, self.contents@)
    }

    /// An empty cache.
    pub fn new() -> (r: ObjectCache)
        ensures
            r@ == Map::<Seq<char>, ObjectView>::empty(),
    {
        ObjectCache { entries: Vec::new(), contents: Ghost(Map::empty()) }
    }

    /// Where `id` is held, if it is.
    fn position(&self, id: &ObjectId) -> (r: Option<usize>)
        ensures
            match r {
                Some(i) => i < self.entries@.len() && self.entries@[i as int].0@ == id@,
                None => !self@.contains_key(id@),
            },
    {
        proof {
            use_type_invariant(self);
        }
        let mut i: usize = 0;
        while i < self.entries.len()
            invariant
                i <= self.entries@.len(),
                forall|j: int| 0 <= j < i ==> (#[trigger] self.entries@[j]).0@ != id@,
            decreases self.entries.len() - i,
        {
            if self.entries[i].0.same(id) {
                return Some(i);
            }
            i = i + 1;
        }
        None
    }

    /// Takes the cache's parts, leaving it empty.
    fn take_parts(&mut self) -> (r: (Vec<(ObjectId, Object)>, Ghost<Map<Seq<char>, ObjectView>>))
        ensures
            r.0@ == old(self).entries@,
            r.1@ == old(self)@,
            entries_agree(r.0@, r.1@),
    {
        proof {
            use_type_invariant(&*self);
        }
        let mut cur = ObjectCache::new();
        std::mem::swap(&mut cur, self);
        proof {
            use_type_invariant(&cur);
        }
        let ObjectCache { entries, contents } = cur;
        (entries, contents)
    }

    /// A copy of the object cached under `id`, if any.
    pub fn lookup(&self, id: &ObjectId) -> (r: Option<Object>)
        ensures
            match r {
                Some(o) => self@.contains_key(id@) && o@ == self@[id@],
                None => !self@.contains_key(id@),
            },
    {
        proof {
            use_type_invariant(self);
        }
        match self.position(id) {
            Some(i) => Some(self.entries[i].1.duplicate()),
            None => None,
        }
    }

    /// Caches `object` under `id`, replacing what was there.
    pub fn store(&mut self, id: ObjectId, object: Object)
        ensures
            final(self)@ == old(self)@.insert(id@, object@),
    {
        let ghost k = id@;
        let ghost v = object@;
        let pos = self.position(&id);
        let (mut entries, contents) = self.take_parts();
        let ghost before = entries@;
        let ghost after = contents@.insert(k, v);
        match pos {
            Some(i) => {
                entries.set(i, (id, object));
                assert forall|a: int, b: int|
                    #![trigger entries@[a], entries@[b]]
                    0 <= a < b < entries@.len() implies entries@[a].0@ != entries@[b].0@ by {
                    assert(before[a].0@ != before[b].0@);
                }
                assert forall|q: Seq<char>| #[trigger] after.contains_key(q) implies exists|j: int|
                    0 <= j < entries@.len() && (#[trigger] entries@[j]).0@ == q by {
                    if q == k {
                        assert(entries@[i as int].0@ == q);
                    } else {
                        let j = choose|j: int| 0 <= j < before.len() && (#[trigger] before[j]).0@ == q;
                        assert(entries@[j].0@ == q);
                    }
                }
            },
            None => {
                entries.push((id, object));
                assert forall|q: Seq<char>| #[trigger] after.contains_key(q) implies exists|j: int|
                    0 <= j < entries@.len() && (#[trigger] entries@[j]).0@ == q by {
                    if q == k {
                        assert(entries@[before.len() as int].0@ == q);
                    } else {
                        let j = choose|j: int| 0 <= j < before.len() && (#[trigger] before[j]).0@ == q;
                        assert(entries@[j].0@ == q);
                    }
                }
            },
        }
        *self = ObjectCache { entries, contents: Ghost(after) };
    }

    /// Drops whatever is cached under `id`.
    pub fn forget(&mut self, id: &ObjectId)
        ensures
            final(self)@ == old(self)@.remove(id@),
    {
        let pos = self.position(id);
        let (mut entries, contents) = self.take_parts();
        let ghost before = entries@;
        let ghost after = contents@.remove(id@);
        match pos {
            Some(i) => {
                entries.remove(i);
                assert forall|a: int| 0 <= a < entries@.len() implies after.contains_key(
                    #[trigger] entries@[a].0@,
                ) && after[entries@[a].0@] == entries@[a].1@ by {
                    if a < i {
                        assert(entries@[a] == before[a]);
                        assert(before[a].0@ != before[i as int].0@);
                    } else {
                        assert(entries@[a] == before[a + 1]);
                        assert(before[i as int].0@ != before[a + 1].0@);
                    }
                }
                assert forall|a: int, b: int|
                    #![trigger entries@[a], entries@[b]]
                    0 <= a < b < entries@.len() implies entries@[a].0@ != entries@[b].0@ by {
                    let a2 = if a < i { a } else { a + 1 };
                    let b2 = if b < i { b } else { b + 1 };
                    assert(entries@[a] == before[a2]);
                    assert(entries@[b] == before[b2]);
                    assert(before[a2].0@ != before[b2].0@);
                }
                assert forall|q: Seq<char>| #[trigger] after.contains_key(q) implies exists|j: int|
                    0 <= j < entries@.len() && (#[trigger] entries@[j]).0@ == q by {
                    let j = choose|j: int| 0 <= j < before.len() && (#[trigger] before[j]).0@ == q;
                    assert(j != i);
                    if j < i {
                        assert(entries@[j] == before[j]);
                    } else {
                        assert(entries@[j - 1] == before[j]);
                    }
                }
                *self = ObjectCache { entries, contents: Ghost(after) };
            },
            None => {
                assert(after =~= contents@);
                *self = ObjectCache { entries, contents: Ghost(after) };
            },
        }
    }

    /// Records a listing of `id` that returned `children` (see `after_listing`): the origin is
    /// the source of truth, so every child replaces what was cached under its id, and `id`'s
    /// own entry, when there is one for a branch or the root, learns its children.
    pub fn record_listing(&mut self, id: &ObjectId, children: &Vec<Object>)
        ensures
            final(self)@ == after_listing(old(self)@, id@, children@),
    {
        let mut ids: Vec<ObjectId> = Vec::new();
        let ghost start = self@;
        for i in 0..children.len()
            invariant
                self@ == stored_all(start, children@.subrange(0, i as int)),
                id_views(ids@) == ids_of(children@.subrange(0, i as int)),
        {
            let child = &children[i];
            let cid = child.get_id();
            let ghost before_ids = id_views(ids@);
            ids.push(cid.clone());
            self.store(cid, child.duplicate());
            assert(children@.subrange(0, i + 1).drop_last() =~= children@.subrange(0, i as int));
            assert(id_views(ids@) =~= before_ids.push(child.id_spec()));
            assert(ids_of(children@.subrange(0, i + 1)) =~= ids_of(children@.subrange(0, i as int)).push(
                child.id_spec(),
            ));
        }
        assert(children@.subrange(0, children@.len() as int) =~= children@);
        let ghost stored = self@;
        match self.lookup(id) {
            Some(current) => match current.with_children(ids) {
                Some(updated) => self.store(id.clone(), updated),
                None => {
                    assert(stored.insert(id@, stored[id@].listed(ids_of(children@))) =~= stored);
                },
            },
            None => {},
        }
    }
}

/// What is cached under an id is what was last stored there: a lookup right after a store
/// gives back the stored object.
pub proof fn lemma_lookup_after_store(m: Map<Seq<char>, ObjectView>, id: Seq<char>, o: ObjectView)
    ensures
        m.insert(id, o).contains_key(id),
        m.insert(id, o)[id] == o,
{
}

/// Nothing is cached under an id right after it is forgotten.
pub proof fn lemma_nothing_after_forget(m: Map<Seq<char>, ObjectView>, id: Seq<char>)
    ensures
        !m.remove(id).contains_key(id),
{
}

/// Storing leaves every other id as it was.
proof fn lemma_stored_all_other(m: Map<Seq<char>, ObjectView>, children: Seq<Object>, k: Seq<char>)
    requires
        forall|j: int| 0 <= j < children.len() ==> (#[trigger] children[j]).id_spec() != k,
    ensures
        stored_all(m, children).contains_key(k) == m.contains_key(k),
        m.contains_key(k) ==> stored_all(m, children)[k] == m[k],
    decreases children.len(),
{
    if children.len() > 0 {
        lemma_stored_all_other(m, children.drop_last(), k);
    }
}

/// After a listing, a child is cached as returned, under its id, when no later child shares
/// that id and it is not the listed object itself.
pub proof fn lemma_listing_caches_children(
    m: Map<Seq<char>, ObjectView>,
    id: Seq<char>,
    children: Seq<Object>,
    i: int,
)
    requires
        0 <= i < children.len(),
        children[i].id_spec() != id,
        forall|j: int| i < j < children.len() ==> (#[trigger] children[j]).id_spec() != children[i].id_spec(),
    ensures
        after_listing(m, id, children).contains_key(children[i].id_spec()),
        after_listing(m, id, children)[children[i].id_spec()] == children[i]@,
    decreases children.len(),
{
    let k = children[i].id_spec();
    if i == children.len() - 1 {
        assert(stored_all(m, children) == stored_all(m, children.drop_last()).insert(k, children[i]@));
    } else {
        let rest = children.drop_last();
        lemma_listing_caches_children_stored(m, rest, i);
        assert(children.last() == children[children.len() - 1]);
    }
}

/// A listing leaves every id it did not return, other than the listed object's own, as it was.
pub proof fn lemma_listing_keeps_others(m: Map<Seq<char>, ObjectView>, id: Seq<char>, children: Seq<Object>, k: Seq<char>)
    requires
        k != id,
        forall|j: int| 0 <= j < children.len() ==> (#[trigger] children[j]).id_spec() != k,
    ensures
        after_listing(m, id, children).contains_key(k) == m.contains_key(k),
        m.contains_key(k) ==> after_listing(m, id, children)[k] == m[k],
{
    lemma_stored_all_other(m, children, k);
}

/// The stored half of `lemma_listing_caches_children`.
proof fn lemma_listing_caches_children_stored(m: Map<Seq<char>, ObjectView>, children: Seq<Object>, i: int)
    requires
        0 <= i < children.len(),
        forall|j: int| i < j < children.len() ==> (#[trigger] children[j]).id_spec() != children[i].id_spec(),
    ensures
        stored_all(m, children).contains_key(children[i].id_spec()),
        stored_all(m, children)[children[i].id_spec()] == children[i]@,
    decreases children.len(),
{
    if i < children.len() - 1 {
        let rest = children.drop_last();
        assert(rest[i] == children[i]);
        assert forall|j: int| i < j < rest.len() implies (#[trigger] rest[j]).id_spec() != rest[i].id_spec() by {
            assert(rest[j] == children[j]);
        }
        lemma_listing_caches_children_stored(m, rest, i);
        assert(children.last() == children[children.len() - 1]);
    }
}

} // verus!
