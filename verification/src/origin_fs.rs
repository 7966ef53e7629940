//! Where the filesystem origin keeps each object: ids are paths relative to a root directory.

use vstd::prelude::*;
use crate::error::VaultError;
use crate::object::{Metadata, Object, ObjectId, Timestamp};
use crate::text::{chars_of, push_all, string_of};

verus! {

/// `s` without one leading `/` and without its trailing `/`s.
pub open spec fn relative_of(s: Seq<char>) -> Seq<char> {
    crate::origin_http::trim_slashes_end(if s.len() > 0 && s[0] == '/' { s.subrange(1, s.len() as int) } else { s })
}

/// `rel` joined onto `base` the way a path is extended: an absolute `rel` replaces `base`;
/// otherwise a `/` goes between them unless `base` is empty or already ends in one.
pub open spec fn path_join(base: Seq<char>, rel: Seq<char>) -> Seq<char> {
    if rel.len() > 0 && rel[0] == '/' {
        rel
    } else if base.len() > 0 && base.last() != '/' {
        base + seq!['/'] + rel
    } else {
        base + rel
    }
}

/// An origin over a directory on disk.
pub struct OriginFileSystem {
    root: String,
}

impl OriginFileSystem {
    /// The root directory.
    pub closed spec fn root_spec(&self) -> Seq<char> {
        self.root@
    }

    /// An origin over the directory `root`.
    pub fn new(root: String) -> (r: OriginFileSystem)
        ensures
            r.root_spec() == root@,
    {
        OriginFileSystem { root }
    }

    /// The id as a path relative to the root: one leading `/` and every trailing `/` dropped.
    pub fn relative(id: &ObjectId) -> (r: String)
        ensures
            r@ == relative_of(id@),
    {
        let v = id.chars();
        let start: usize = if v.len() > 0 && v[0] == '/' { 1 } else { 0 };
        let ghost s0 = if v@.len() > 0 && v@[0] == '/' { v@.subrange(1, v@.len() as int) } else { v@ };
        assert(s0 =~= v@.subrange(start as int, v@.len() as int));
        let mut end = v.len();
        assert(s0.subrange(0, s0.len() as int) =~= s0);
        while end > start && v[end - 1] == '/'
            invariant
                start <= end <= v@.len(),
                s0 == v@.subrange(start as int, v@.len() as int),
                crate::origin_http::trim_slashes_end(s0) == crate::origin_http::trim_slashes_end(v@.subrange(start as int, end as int)),
            decreases end,
        {
            assert(v@.subrange(start as int, end - 1) =~= v@.subrange(start as int, end as int).drop_last());
            end = end - 1;
        }
        let mut out: Vec<char> = Vec::new();
        let mut i = start;
        while i < end
            invariant
                start <= i <= end <= v@.len(),
                out@ == v@.subrange(start as int, i as int),
            decreases end - i,
        {
            out.push(v[i]);
            i = i + 1;
            assert(out@ =~= v@.subrange(start as int, i as int));
        }
        string_of(&out)
    }

    /// Where on disk the object `id` lives: the root itself for the root id, otherwise the
    /// relative path joined onto the root.
    pub fn path(&self, id: &ObjectId) -> (r: String)
        ensures
            r@ == if relative_of(id@).len() == 0 { self.root_spec() } else { path_join(self.root_spec(), relative_of(id@)) },
    {
        let rel = Self::relative(id);
        let rc = chars_of(rel.as_str());
        if rc.len() == 0 {
            return self.root.clone();
        }
        if rc[0] == '/' {
            return rel;
        }
        let mut out = chars_of(self.root.as_str());
        if out.len() > 0 && out[out.len() - 1] != '/' {
            out.push('/');
        }
        push_all(&mut out, &rc);
        string_of(&out)
    }

    /// The id of the entry `name` inside the directory `parent`.
    pub fn child_id(parent: &ObjectId, name: &str) -> (r: ObjectId)
        ensures
            r@ == if relative_of(parent@).len() == 0 { name@ } else { relative_of(parent@) + seq!['/'] + name@ },
    {
        let rel = Self::relative(parent);
        let mut out = chars_of(rel.as_str());
        if out.len() == 0 {
            return ObjectId::from_str(name);
        }
        out.push('/');
        let n = chars_of(name);
        push_all(&mut out, &n);
        ObjectId::new(string_of(&out))
    }
}

/// The metadata the filesystem gives an entry: its size and modification time, nothing else.
pub open spec fn fs_metadata(m: Metadata, size: u64, modified: Timestamp) -> bool {
    &&& m.size == Some(size)
    &&& m.content_type is None
    &&& m.modified == Some(modified)
    &&& m.extra@ == Map::<Seq<char>, Seq<char>>::empty()
}

impl OriginFileSystem {
    /// The object the entry `id` is, from what the filesystem reports of it: a directory is a
    /// branch whose children are not listed yet, anything else a leaf. Its name is the last
    /// component of its path on disk (`file_name`), or the id when the path has none; its
    /// metadata the size and the modification time, which must be known.
    pub fn object_of(id: &ObjectId, file_name: Option<String>, size: u64, modified: Option<Timestamp>, is_dir: bool) -> (r: Result<Object, VaultError>)
        ensures
            match modified {
                None => r matches Err(VaultError::OriginError(m)) && m@ == "Failed to get modified time"@,
                Some(t) => r matches Ok(o) && {
                    &&& o.id_spec() == id@
                    &&& o.name_spec() == match file_name {
                        Some(n) => n@,
                        None => id@,
                    }
                    &&& if is_dir {
                        o matches Object::Branch { meta, children, .. } && children is None && fs_metadata(meta, size, t)
                    } else {
                        o matches Object::Leaf { meta, .. } && fs_metadata(meta, size, t)
                    }
                },
            },
    {
        let t = match modified {
            Some(t) => t,
            None => return Err(VaultError::OriginError(String::from_str("Failed to get modified time"))),
        };
        let name = match file_name {
            Some(n) => n,
            None => id.to_string(),
        };
        let meta = Metadata { size: Some(size), content_type: None, modified: Some(t), extra: crate::strmap::StrMap::new() };
        if is_dir {
            Ok(Object::Branch { name, id: id.clone(), meta, children: None })
        } else {
            Ok(Object::Leaf { name, id: id.clone(), meta })
        }
    }

    /// Places `object` in the directory `destination`: it takes the id of the entry of its
    /// name there, and the path on disk it is created at is returned. The root cannot be
    /// placed anywhere.
    pub fn place(&self, object: &mut Object, destination: &ObjectId) -> (r: Result<String, VaultError>)
        ensures
            *old(object) is Root ==> {
                &&& r matches Err(VaultError::OriginError(m)) && m@ == "Cannot put root object"@
                &&& *final(object) == *old(object)
            },
            !(*old(object) is Root) ==> {
                let name = old(object).name_spec();
                let rel = relative_of(destination@);
                let dir = if rel.len() == 0 { self.root_spec() } else { path_join(self.root_spec(), rel) };
                &&& r matches Ok(p) && p@ == path_join(dir, name)
                &&& final(object).id_spec() == if rel.len() == 0 { name } else { rel + seq!['/'] + name }
                &&& final(object).name_spec() == name
                &&& (*final(object) is Leaf <==> *old(object) is Leaf)
                &&& (*final(object) is Branch <==> *old(object) is Branch)
            },
    {
        if matches!(object, Object::Root { .. }) {
            return Err(VaultError::OriginError(String::from_str("Cannot put root object")));
        }
        let name = object.get_name();
        let dir = self.path(destination);
        let new_id = Self::child_id(destination, name.as_str());
        let _ = object.with_id(new_id);
        Ok(crate::config::join(dir.as_str(), name.as_str()))
    }
}

} // verus!
