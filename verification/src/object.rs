//! The tree node model: `ObjectId`, `Metadata` and `Object`.

use vstd::prelude::*;
use crate::error::VaultError;
use crate::strmap::{canonical_entries, pair_views, StrMap};
use crate::text::{chars_of, string_of};

verus! {

/// Identifies an `Object` within a vault's origin. Meaning is origin-specific (a relative
/// path for the filesystem origin, an opaque id for the HTTP and command origins).
#[derive(Debug, Hash, PartialEq, Eq)]
pub struct ObjectId(String);

impl View for ObjectId {
    type V = Seq<char>;

    closed spec fn view(&self) -> Seq<char> {
        self.0@
    }
}

impl Clone for ObjectId {
    fn clone(&self) -> (r: Self)
        ensures
            r == *self,
            r@ == self@,
    {
        ObjectId(self.0.clone())
    }
}

impl ObjectId {
    /// Builds an id from its string.
    pub fn new(s: String) -> (r: ObjectId)
        ensures
            r@ == s@,
    {
        ObjectId(s)
    }

    /// Builds an id from a string slice.
    pub fn from_str(s: &str) -> (r: ObjectId)
        ensures
            r@ == s@,
    {
        ObjectId(String::from_str(s))
    }

    /// Borrows the id's underlying string.
    pub fn as_str(&self) -> (r: &str)
        ensures
            r@ == self@,
    {
        self.0.as_str()
    }

    /// The id's string, owned.
    pub fn to_string(&self) -> (r: String)
        ensures
            r@ == self@,
    {
        self.0.clone()
    }

    /// Gives up the id's string.
    pub fn into_string(self) -> (r: String)
        ensures
            r@ == self@,
    {
        self.0
    }

    /// The id's characters.
    pub fn chars(&self) -> (r: Vec<char>)
        ensures
            r@ == self@,
    {
        chars_of(self.0.as_str())
    }

    /// Whether this id refers to the vault's root (`"/"`), the `ObjectId::default()` value.
    pub fn is_root(&self) -> (b: bool)
        ensures
            b == (self@ == seq!['/']),
    {
        let c = self.chars();
        if c.len() == 1 && c[0] == '/' {
            assert(c@ =~= seq!['/']);
            true
        } else {
            false
        }
    }

    /// Whether two ids are the same string.
    pub fn same(&self, other: &ObjectId) -> (b: bool)
        ensures
            b == (self@ == other@),
    {
        self.0 == other.0
    }

    /// The root id, `"/"`.
    pub fn root() -> (r: ObjectId)
        ensures
            r@ == seq!['/'],
    {
        let v = vec!['/'];
        ObjectId(string_of(&v))
    }
}


impl From<String> for ObjectId {
    /// An id is its string.
    fn from(s: String) -> (r: ObjectId) {
        ObjectId(s)
    }
}

impl vstd::std_specs::convert::FromSpecImpl<String> for ObjectId {
    open spec fn obeys_from_spec() -> bool {
        true
    }

    closed spec fn from_spec(v: String) -> ObjectId {
        ObjectId(v)
    }
}

impl Default for ObjectId {
    /// Defaults to `"/"`, the conventional root id used when a vault config omits `root_id`.
    fn default() -> (r: ObjectId)
        ensures
            r@ == seq!['/'],
    {
        ObjectId::root()
    }
}

/// A point in time, as seconds and nanoseconds since the Unix epoch (UTC).
#[derive(Debug, Clone, Copy, PartialEq, Eq, PartialOrd, Ord, Hash)]
pub struct Timestamp {
    /// Whole seconds since the epoch.
    pub secs: i64,
    /// Nanoseconds past `secs`.
    pub nanos: u32,
}

/// The hash of metadata with the given size, content type, modification time and extra
/// entries (in ascending key order), as `std`'s default hasher computes it over those values
/// in that order on this target.
pub uninterp spec fn metadata_hash(
    size: Option<u64>,
    content_type: Option<Seq<char>>,
    modified: Option<(i64, u32)>,
    extra: Seq<(Seq<char>, Seq<char>)>,
) -> u64;

/// The optional view of an optional string.
pub open spec fn opt_chars(o: Option<String>) -> Option<Seq<char>> {
    match o {
        Some(s) => Some(s@),
        None => None,
    }
}

/// The optional pair of an optional timestamp.
pub open spec fn opt_time(o: Option<Timestamp>) -> Option<(i64, u32)> {
    match o {
        Some(t) => Some((t.secs, t.nanos)),
        None => None,
    }
}

/// Hashes the metadata fields the way `Metadata::hash_value` promises: `size`, then
/// `content_type`, then `modified` as the `Option<Option<DateTime<Utc>>>` that mapping
/// `chrono::DateTime::from_timestamp` over it gives (the inner `None` for a time outside
/// chrono's range), then the extra entries in key order, with std's `BuildHasher::hash_one` on
/// a `BuildHasherDefault<DefaultHasher>`. Claimed: the hash is `metadata_hash` of those values,
/// a function of them alone, since that hasher starts from fixed keys. std writes the lengths
/// it hashes as `usize`s in native byte order, so the value is the same for one target.
#[verifier::external_body]
fn hash_fields(size: Option<u64>, content_type: &Option<String>, modified: Option<Timestamp>, extra: &Vec<(String, String)>) -> (r: u64)
    ensures
        r == metadata_hash(size, opt_chars(*content_type), opt_time(modified), pair_views(extra@)),
{
    let modified = modified.map(|t| chrono::DateTime::<chrono::Utc>::from_timestamp(t.secs, t.nanos));
    let entries: Vec<(&String, &String)> = extra.iter().map(|(k, v)| (k, v)).collect();
    std::hash::BuildHasher::hash_one(&std::hash::BuildHasherDefault::<std::hash::DefaultHasher>::default(), (size, content_type, modified, entries))
}

/// Free-form metadata attached to an `Object`, used e.g. by `Object::changed` to detect drift
/// between a local and a remote copy.
pub struct Metadata {
    /// Payload size in bytes, if known.
    pub size: Option<u64>,
    /// MIME type of the payload, if known.
    pub content_type: Option<String>,
    /// Last-modified time, if known.
    pub modified: Option<Timestamp>,
    /// Free-form, origin-specific key/value pairs not covered by the fields above.
    pub extra: StrMap,
}

impl Metadata {
    /// Builds an empty `Metadata` with every field unset.
    pub fn new() -> (r: Metadata)
        ensures
            r.size is None,
            r.content_type is None,
            r.modified is None,
            r.extra@ == Map::<Seq<char>, Seq<char>>::empty(),
    {
        Metadata { size: None, content_type: None, modified: None, extra: StrMap::new() }
    }

    /// A copy of this metadata.
    pub fn duplicate(&self) -> (r: Metadata)
        ensures
            r.size == self.size,
            opt_chars(r.content_type) == opt_chars(self.content_type),
            r.modified == self.modified,
            r.extra@ == self.extra@,
    {
        let content_type = match &self.content_type {
            Some(c) => Some(c.clone()),
            None => None,
        };
        Metadata { size: self.size, content_type, modified: self.modified, extra: self.extra.duplicate() }
    }

    /// Sets `size` and returns `self` for chaining.
    pub fn set_size(&mut self, size: u64) -> (r: &mut Self)
        ensures
            *final(self) == *final(r),
            r.size == Some(size),
            opt_chars(r.content_type) == opt_chars(old(self).content_type),
            r.modified == old(self).modified,
            r.extra@ == old(self).extra@,
    {
        self.size = Some(size);
        self
    }

    /// Sets `content_type` and returns `self` for chaining.
    pub fn set_content_type(&mut self, ct: String) -> (r: &mut Self)
        ensures
            *final(self) == *final(r),
            r.size == old(self).size,
            opt_chars(r.content_type) == Some(ct@),
            r.modified == old(self).modified,
            r.extra@ == old(self).extra@,
    {
        self.content_type = Some(ct);
        self
    }

    /// Sets `modified` and returns `self` for chaining.
    pub fn set_modified(&mut self, dt: Timestamp) -> (r: &mut Self)
        ensures
            *final(self) == *final(r),
            r.size == old(self).size,
            opt_chars(r.content_type) == opt_chars(old(self).content_type),
            r.modified == Some(dt),
            r.extra@ == old(self).extra@,
    {
        self.modified = Some(dt);
        self
    }

    /// Inserts a key/value pair into `extra` and returns `self` for chaining.
    pub fn add_extra(&mut self, key: String, val: String) -> (r: &mut Self)
        ensures
            *final(self) == *final(r),
            r.size == old(self).size,
            opt_chars(r.content_type) == opt_chars(old(self).content_type),
            r.modified == old(self).modified,
            r.extra@ == old(self).extra@.insert(key@, val@),
    {
        self.extra.insert(key, val);
        self
    }

    /// The hash of every field, `extra` taken in key order so that insertion order does not
    /// matter.
    pub open spec fn hash_spec(&self) -> u64 {
        metadata_hash(self.size, opt_chars(self.content_type), opt_time(self.modified), canonical_entries(self.extra@))
    }

    /// Hashes all fields (with `extra` sorted by key for stable ordering) for equality checks.
    pub fn hash_value(&self) -> (r: u64)
        ensures
            r == self.hash_spec(),
    {
        let entries = self.extra.sorted_entries();
        hash_fields(self.size, &self.content_type, self.modified, &entries)
    }
}

/// Selects which `Object` variant to build in `Object::push`.
#[derive(Debug, Clone, Copy, PartialEq, Eq)]
pub enum ObjectType {
    /// Build an `Object::Leaf`.
    Leaf,
    /// Build an `Object::Branch`.
    Branch,
    /// Build an `Object::Root`; always refused by `Object::push`, since a vault has one root.
    Root,
}

/// A node in a vault's tree: a file-like `Leaf`, a directory-like `Branch`, or the `Root`.
pub enum Object {
    /// A file-like node with content but no children.
    Leaf {
        /// The leaf's display name (typically the last path component).
        name: String,
        /// The leaf's id within its origin.
        id: ObjectId,
        /// The leaf's metadata.
        meta: Metadata,
    },
    /// A directory-like node with children but no content of its own.
    Branch {
        /// The branch's display name.
        name: String,
        /// The branch's id within its origin.
        id: ObjectId,
        /// The branch's metadata.
        meta: Metadata,
        /// The branch's children, once known.
        children: Option<Vec<ObjectId>>,
    },
    /// The vault's root node; has children but no name or metadata of its own.
    Root {
        /// The root's id (conventionally `"/"`).
        id: ObjectId,
        /// The root's children, once known.
        children: Option<Vec<ObjectId>>,
    },
}

/// The display name of the root object.
pub const ROOT_NAME: &'static str = "##ROOT##";

/// The ids of a list of ids.
pub open spec fn id_views(v: Seq<ObjectId>) -> Seq<Seq<char>> {
    v.map_values(|i: ObjectId| i@)
}

/// The optional ids of an optional list of ids.
pub open spec fn children_views(c: Option<Vec<ObjectId>>) -> Option<Seq<Seq<char>>> {
    match c {
        Some(v) => Some(id_views(v@)),
        None => None,
    }
}

/// What metadata holds, as plain values.
pub struct MetadataView {
    /// Payload size in bytes, if known.
    pub size: Option<u64>,
    /// MIME type of the payload, if known.
    pub content_type: Option<Seq<char>>,
    /// Last-modified time, if known.
    pub modified: Option<Timestamp>,
    /// The extra key/value pairs.
    pub extra: Map<Seq<char>, Seq<char>>,
}

impl View for Metadata {
    type V = MetadataView;

    open spec fn view(&self) -> MetadataView {
        MetadataView {
            size: self.size,
            content_type: opt_chars(self.content_type),
            modified: self.modified,
            extra: self.extra@,
        }
    }
}

/// What an object is, as plain values: its variant, name, id, metadata and known children.
pub enum ObjectView {
    /// A leaf.
    Leaf { name: Seq<char>, id: Seq<char>, meta: MetadataView },
    /// A branch.
    Branch { name: Seq<char>, id: Seq<char>, meta: MetadataView, children: Option<Seq<Seq<char>>> },
    /// The root.
    Root { id: Seq<char>, children: Option<Seq<Seq<char>>> },
}

impl ObjectView {
    /// The same object with its children known to be `ids`; a leaf has none and stays as is.
    pub open spec fn listed(self, ids: Seq<Seq<char>>) -> ObjectView {
        match self {
            ObjectView::Leaf { .. } => self,
            ObjectView::Branch { name, id, meta, .. } => ObjectView::Branch { name, id, meta, children: Some(ids) },
            ObjectView::Root { id, .. } => ObjectView::Root { id, children: Some(ids) },
        }
    }
}

impl View for Object {
    type V = ObjectView;

    open spec fn view(&self) -> ObjectView {
        match self {
            Object::Leaf { name, id, meta } => ObjectView::Leaf { name: name@, id: id@, meta: meta@ },
            Object::Branch { name, id, meta, children } => ObjectView::Branch {
                name: name@,
                id: id@,
                meta: meta@,
                children: children_views(*children),
            },
            Object::Root { id, children } => ObjectView::Root { id: id@, children: children_views(*children) },
        }
    }
}

/// A copy of a list of ids.
fn copy_ids(v: &Vec<ObjectId>) -> (r: Vec<ObjectId>)
    ensures
        id_views(r@) == id_views(v@),
{
    let mut out: Vec<ObjectId> = Vec::new();
    for i in 0..v.len()
        invariant
            out.len() == i,
            forall|j: int| 0 <= j < i ==> (#[trigger] out@[j])@ == v@[j]@,
    {
        out.push(v[i].clone());
    }
    assert(id_views(out@) =~= id_views(v@));
    out
}

/// A copy of an optional list of ids.
fn copy_children(c: &Option<Vec<ObjectId>>) -> (r: Option<Vec<ObjectId>>)
    ensures
        children_views(r) == children_views(*c),
{
    match c {
        Some(v) => Some(copy_ids(v)),
        None => None,
    }
}

impl Object {
    /// The object's id, whatever its variant.
    pub open spec fn id_spec(&self) -> Seq<char> {
        match self {
            Object::Leaf { id, .. } => id@,
            Object::Branch { id, .. } => id@,
            Object::Root { id, .. } => id@,
        }
    }

    /// The object's display name: `ROOT_NAME` for the root.
    pub open spec fn name_spec(&self) -> Seq<char> {
        match self {
            Object::Leaf { name, .. } => name@,
            Object::Branch { name, .. } => name@,
            Object::Root { .. } => ROOT_NAME@,
        }
    }

    /// The object's metadata, for a leaf or a branch.
    pub open spec fn meta_view(&self) -> Option<MetadataView> {
        match self {
            Object::Leaf { meta, .. } => Some(meta@),
            Object::Branch { meta, .. } => Some(meta@),
            Object::Root { .. } => None,
        }
    }

    /// The object's children, for a branch or the root.
    pub open spec fn children_spec(&self) -> Option<Seq<Seq<char>>> {
        match self {
            Object::Leaf { .. } => None,
            Object::Branch { children, .. } => children_views(*children),
            Object::Root { children, .. } => children_views(*children),
        }
    }

    /// Builds the canonical root `Object`, with id `"/"` and no known children.
    pub fn root() -> (r: Object)
        ensures
            r is Root,
            r.id_spec() == seq!['/'],
            r.children_spec() is None,
    {
        Object::Root { id: ObjectId::root(), children: None }
    }

    /// A leaf.
    pub fn leaf(name: String, id: ObjectId, meta: Metadata) -> (r: Object)
        ensures
            r is Leaf,
            r.name_spec() == name@,
            r.id_spec() == id@,
    {
        Object::Leaf { name, id, meta }
    }

    /// A branch whose children are known.
    pub fn branch(name: String, id: ObjectId, meta: Metadata, children: Vec<ObjectId>) -> (r: Object)
        ensures
            r is Branch,
            r.name_spec() == name@,
            r.id_spec() == id@,
            r.children_spec() == Some(id_views(children@)),
    {
        Object::Branch { name, id, meta, children: Some(children) }
    }

    /// Returns this object's id, regardless of variant.
    pub fn get_id(&self) -> (r: ObjectId)
        ensures
            r@ == self.id_spec(),
    {
        match self {
            Object::Leaf { id, .. } => id.clone(),
            Object::Branch { id, .. } => id.clone(),
            Object::Root { id, .. } => id.clone(),
        }
    }

    /// Overwrites this object's id in place and returns `self` for chaining.
    pub fn with_id(&mut self, obj_id: ObjectId) -> (r: &mut Self)
        ensures
            *final(self) == *final(r),
            r.id_spec() == obj_id@,
            r.name_spec() == old(self).name_spec(),
            r.children_spec() == old(self).children_spec(),
            (*r is Leaf) == (*old(self) is Leaf),
            (*r is Branch) == (*old(self) is Branch),
            (*r is Root) == (*old(self) is Root),
    {
        match self {
            Object::Leaf { id, .. } => {
                *id = obj_id;
            },
            Object::Branch { id, .. } => {
                *id = obj_id;
            },
            Object::Root { id, .. } => {
                *id = obj_id;
            },
        }
        self
    }

    /// Renames this object in place (the root keeps its fixed name) and returns `self` for
    /// chaining; a copy lands under its new name this way.
    pub fn with_name(&mut self, new_name: String) -> (r: &mut Self)
        ensures
            *final(self) == *final(r),
            r.name_spec() == if *old(self) is Root { ROOT_NAME@ } else { new_name@ },
            r.id_spec() == old(self).id_spec(),
            r.children_spec() == old(self).children_spec(),
            (*r is Leaf) == (*old(self) is Leaf),
            (*r is Branch) == (*old(self) is Branch),
            (*r is Root) == (*old(self) is Root),
    {
        match self {
            Object::Leaf { name, .. } => {
                *name = new_name;
            },
            Object::Branch { name, .. } => {
                *name = new_name;
            },
            Object::Root { .. } => {},
        }
        self
    }

    /// Returns this object's display name, or `ROOT_NAME` for the root.
    pub fn get_name(&self) -> (r: String)
        ensures
            r@ == self.name_spec(),
    {
        match self {
            Object::Leaf { name, .. } => name.clone(),
            Object::Branch { name, .. } => name.clone(),
            Object::Root { .. } => String::from_str(ROOT_NAME),
        }
    }

    /// A copy of this object.
    pub fn duplicate(&self) -> (r: Object)
        ensures
            r@ == self@,
    {
        match self {
            Object::Leaf { name, id, meta } => Object::Leaf { name: name.clone(), id: id.clone(), meta: meta.duplicate() },
            Object::Branch { name, id, meta, children } => Object::Branch {
                name: name.clone(),
                id: id.clone(),
                meta: meta.duplicate(),
                children: copy_children(children),
            },
            Object::Root { id, children } => Object::Root { id: id.clone(), children: copy_children(children) },
        }
    }

    /// A copy of this object with its children known to be `ids`; `None` for a leaf, which has
    /// no children.
    pub fn with_children(&self, ids: Vec<ObjectId>) -> (r: Option<Object>)
        ensures
            match self@ {
                ObjectView::Leaf { .. } => r is None,
                _ => r matches Some(o) && o@ == self@.listed(id_views(ids@)),
            },
    {
        match self {
            Object::Leaf { .. } => None,
            Object::Branch { name, id, meta, .. } => Some(
                Object::Branch { name: name.clone(), id: id.clone(), meta: meta.duplicate(), children: Some(ids) },
            ),
            Object::Root { id, .. } => Some(Object::Root { id: id.clone(), children: Some(ids) }),
        }
    }

    /// Whether the object is a branch.
    pub fn is_branch(&self) -> (b: bool)
        ensures
            b == (self is Branch),
    {
        matches!(self, Object::Branch { .. })
    }

    /// Returns this object's metadata, or `None` for the root (which has none).
    pub fn get_meta(&self) -> (r: Option<Metadata>)
        ensures
            match self {
                Object::Leaf { meta, .. } | Object::Branch { meta, .. } => r matches Some(m) && m.size == meta.size
                    && opt_chars(m.content_type) == opt_chars(meta.content_type) && m.modified == meta.modified
                    && m.extra@ == meta.extra@,
                Object::Root { .. } => r is None,
            },
    {
        match self {
            Object::Leaf { meta, .. } => Some(meta.duplicate()),
            Object::Branch { meta, .. } => Some(meta.duplicate()),
            Object::Root { .. } => None,
        }
    }

    /// The hash of the object's metadata, for a leaf or a branch.
    pub open spec fn meta_hash(&self) -> Option<u64> {
        match self {
            Object::Leaf { meta, .. } => Some(meta.hash_spec()),
            Object::Branch { meta, .. } => Some(meta.hash_spec()),
            Object::Root { .. } => None,
        }
    }

    /// Appends a new child of `object_type` onto `self`, which must be a branch or the root:
    /// its id is added to the children (starting the list if none was known).
    pub fn push(
        &mut self,
        object_type: ObjectType,
        name: String,
        id: ObjectId,
        meta: Metadata,
        children: Option<Vec<ObjectId>>,
    ) -> (r: Result<(), VaultError>)
        ensures
            (object_type == ObjectType::Root || *old(self) is Leaf) ==> r == Err::<(), VaultError>(VaultError::InvalidMethodCall)
                && *final(self) == *old(self),
            !(object_type == ObjectType::Root || *old(self) is Leaf) ==> r is Ok && final(self).children_spec() == Some(
                match old(self).children_spec() {
                    Some(c) => c.push(id@),
                    None => seq![id@],
                },
            ),
            final(self).id_spec() == old(self).id_spec(),
            final(self).name_spec() == old(self).name_spec(),
            (*final(self) is Leaf) == (*old(self) is Leaf),
            (*final(self) is Branch) == (*old(self) is Branch),
            final(self).meta_view() == old(self).meta_view(),
    {
        let object = match object_type {
            ObjectType::Leaf => Object::Leaf { name, id, meta },
            ObjectType::Branch => Object::Branch {
                name,
                id,
                meta,
                children: Some(
                    match children {
                        Some(c) => c,
                        None => Vec::new(),
                    },
                ),
            },
            ObjectType::Root => {
                return Err(VaultError::InvalidMethodCall);
            },
        };
        let child_id = object.get_id();
        match self {
            Object::Branch { children: child, .. } => {
                push_child(child, child_id);
                Ok(())
            },
            Object::Root { children: child, .. } => {
                push_child(child, child_id);
                Ok(())
            },
            Object::Leaf { .. } => Err(VaultError::InvalidMethodCall),
        }
    }

    /// Whether `remote` has diverged from `self`: both carry metadata and its hashes differ.
    /// Objects without metadata (the root) never count as changed.
    pub open spec fn changed_spec(&self, remote: &Object) -> bool {
        match (self.meta_hash(), remote.meta_hash()) {
            (Some(a), Some(b)) => a != b,
            _ => false,
        }
    }

    /// Compares metadata hashes to detect whether `remote` diverges from `self`.
    pub fn changed(&self, remote: &Object) -> (b: bool)
        ensures
            b == self.changed_spec(remote),
    {
        let local_meta = match self.get_meta() {
            Some(m) => m,
            None => return false,
        };
        let remote_meta = match remote.get_meta() {
            Some(m) => m,
            None => return false,
        };
        local_meta.hash_value() != remote_meta.hash_value()
    }
}

/// Adds `id` to a list of children, starting the list if there was none.
fn push_child(child: &mut Option<Vec<ObjectId>>, id: ObjectId)
    ensures
        children_views(*final(child)) == Some(
            match children_views(*old(child)) {
                Some(c) => c.push(id@),
                None => seq![id@],
            },
        ),
{
    match child {
        Some(c) => {
            let ghost before = id_views(c@);
            c.push(id);
            assert(id_views(c@) =~= before.push(id@));
        },
        None => {
            let v = vec![id];
            assert(id_views(v@) =~= seq![v@[0]@]);
            *child = Some(v);
        },
    }
}

/// An object never differs from itself.
pub proof fn lemma_unchanged_against_itself(o: &Object)
    ensures
        !o.changed_spec(o),
{
}

/// Divergence is symmetric: `a` has changed against `b` exactly when `b` has against `a`.
pub proof fn lemma_changed_symmetric(a: &Object, b: &Object)
    ensures
        a.changed_spec(b) == b.changed_spec(a),
{
}

/// Metadata that agree field by field, `extra` compared as a map, hash alike: the order in
/// which extra entries were added does not matter.
pub proof fn lemma_equal_metadata_hash_alike(a: &Metadata, b: &Metadata)
    requires
        a.size == b.size,
        opt_chars(a.content_type) == opt_chars(b.content_type),
        a.modified == b.modified,
        a.extra@ == b.extra@,
    ensures
        a.hash_spec() == b.hash_spec(),
{
}

} // verus!
