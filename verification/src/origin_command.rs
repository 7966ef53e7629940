//! The command origin's templating: which shell command runs for each operation, with its
//! `{placeholder}`s filled in, and what a failed command is reported as. Running the commands
//! is the caller's part.

use vstd::prelude::*;
use crate::error::VaultError;
use crate::object::{opt_chars, Metadata, Object, ObjectId, Timestamp};
use crate::strmap::{canonical_entries, pair_views, StrMap};
use crate::text::{cat, cat3, chars_of, decimal, decimal_chars, replace_all, replaced, string_of};
use crate::wrap::is_space;
use crate::daemon::trim_start;

verus! {

/// Which operation a command is for.
#[derive(Debug, Clone, Copy, PartialEq, Eq)]
pub enum CmdType {
    /// Stream an object's content.
    Fetch,
    /// List a branch's children.
    List,
    /// Describe one object.
    Get,
    /// Create an object under a destination.
    Put,
    /// Upload an object's content.
    Send,
    /// Remove an object.
    Delete,
}

impl CmdType {
    /// The name of the config field holding this operation's command.
    pub open spec fn field(self) -> Seq<char> {
        match self {
            CmdType::Fetch => "fetch_cmd"@,
            CmdType::List => "list_cmd"@,
            CmdType::Get => "get_cmd"@,
            CmdType::Put => "put_cmd"@,
            CmdType::Send => "send_cmd"@,
            CmdType::Delete => "delete_cmd"@,
        }
    }

    /// The name of the config field holding this operation's command.
    pub fn as_str(&self) -> (r: &'static str)
        ensures
            r@ == self.field(),
    {
        match self {
            CmdType::Fetch => "fetch_cmd",
            CmdType::List => "list_cmd",
            CmdType::Get => "get_cmd",
            CmdType::Put => "put_cmd",
            CmdType::Send => "send_cmd",
            CmdType::Delete => "delete_cmd",
        }
    }

    /// The field name, owned.
    pub fn to_string(&self) -> (r: String)
        ensures
            r@ == self.field(),
    {
        String::from_str(self.as_str())
    }
}

/// The text of a UTC time as `chrono` displays it (`YYYY-MM-DD HH:MM:SS[.fraction] UTC`), or
/// `None` for a time out of its range.
pub uninterp spec fn utc_text(secs: i64, nanos: u32) -> Option<Seq<char>>;

/// Builds `chrono::DateTime::<Utc>::from_timestamp(t.secs, t.nanos)` and displays it with
/// `to_string`. Claimed: the text is `utc_text` of the two numbers, a function of them alone.
#[verifier::external_body]
fn display_utc(t: Timestamp) -> (r: Option<String>)
    ensures
        opt_chars(r) == utc_text(t.secs, t.nanos),
{
    chrono::DateTime::<chrono::Utc>::from_timestamp(t.secs, t.nanos).map(|d| d.to_string())
}

/// `{key}`: how a variable is written in a command template.
pub open spec fn placeholder(key: Seq<char>) -> Seq<char> {
    seq!['{'] + key + seq!['}']
}

/// `template` with every `{key}` replaced by its value, taking `vars` in order.
pub open spec fn interpolated(template: Seq<char>, vars: Seq<(Seq<char>, Seq<char>)>) -> Seq<char>
    decreases vars.len(),
{
    if vars.len() == 0 {
        template
    } else {
        replaced(interpolated(template, vars.drop_last()), placeholder(vars.last().0), vars.last().1)
    }
}

/// `{kind}` of an upload: `leaf` for a leaf, `branch` for anything else.
pub open spec fn kind_text(object: &Object) -> Seq<char> {
    match object {
        Object::Leaf { .. } => "leaf"@,
        _ => "branch"@,
    }
}

/// `{size}` of an upload: the size in decimal, `0` when unknown.
pub open spec fn size_text(meta: &Metadata) -> Seq<char> {
    match meta.size {
        Some(s) => decimal(s as nat),
        None => seq!['0'],
    }
}

/// `{content_type}` of an upload: `unknown` when not known.
pub open spec fn content_type_text(meta: &Metadata) -> Seq<char> {
    match meta.content_type {
        Some(c) => c@,
        None => "unknown"@,
    }
}

/// `{modified}` of an upload: empty when not known.
pub open spec fn modified_text(meta: &Metadata) -> Seq<char> {
    match meta.modified {
        Some(d) => match utc_text(d.secs, d.nanos) {
            Some(text) => text,
            None => Seq::empty(),
        },
        None => Seq::empty(),
    }
}

/// The `{size}`, `{content_type}` and `{modified}` texts of an upload.
fn upload_texts(meta: &Metadata) -> (r: (String, String, String))
    ensures
        r.0@ == size_text(meta),
        r.1@ == content_type_text(meta),
        r.2@ == modified_text(meta),
{
    let size = match meta.size {
        Some(s) => string_of(&decimal_chars(s)),
        None => {
            let z = vec!['0'];
            string_of(&z)
        },
    };
    let content_type = match &meta.content_type {
        Some(c) => c.clone(),
        None => String::from_str("unknown"),
    };
    let modified = match meta.modified {
        Some(d) => match display_utc(d) {
            Some(text) => text,
            None => String::new(),
        },
        None => String::new(),
    };
    (size, content_type, modified)
}

/// An origin whose every operation is a shell command.
pub struct OriginCommand {
    fetch_cmd: String,
    list_cmd: String,
    get_cmd: String,
    put_cmd: String,
    send_cmd: String,
    delete_cmd: String,
    extra_vars: StrMap,
}

/// `{key}` as characters.
fn placeholder_chars(key: &str) -> (r: Vec<char>)
    ensures
        r@ == placeholder(key@),
{
    let mut r = vec!['{'];
    let k = chars_of(key);
    crate::text::push_all(&mut r, &k);
    r.push('}');
    assert(r@ =~= placeholder(key@));
    r
}

impl OriginCommand {
    /// The command template of operation `t`.
    pub closed spec fn template(&self, t: CmdType) -> Seq<char> {
        match t {
            CmdType::Fetch => self.fetch_cmd@,
            CmdType::List => self.list_cmd@,
            CmdType::Get => self.get_cmd@,
            CmdType::Put => self.put_cmd@,
            CmdType::Send => self.send_cmd@,
            CmdType::Delete => self.delete_cmd@,
        }
    }

    /// The extra variables every command is interpolated with.
    pub closed spec fn vars(&self) -> Map<Seq<char>, Seq<char>> {
        self.extra_vars@
    }

    /// An origin running the given commands, with `extra_vars` (if any) available to all.
    pub fn new(
        fetch_cmd: String,
        list_cmd: String,
        get_cmd: String,
        put_cmd: String,
        send_cmd: String,
        delete_cmd: String,
        extra_vars: Option<StrMap>,
    ) -> (r: OriginCommand)
        ensures
            r.template(CmdType::Fetch) == fetch_cmd@,
            r.template(CmdType::List) == list_cmd@,
            r.template(CmdType::Get) == get_cmd@,
            r.template(CmdType::Put) == put_cmd@,
            r.template(CmdType::Send) == send_cmd@,
            r.template(CmdType::Delete) == delete_cmd@,
            r.vars() == match extra_vars {
                Some(m) => m@,
                None => Map::<Seq<char>, Seq<char>>::empty(),
            },
    {
        let extra_vars = match extra_vars {
            Some(m) => m,
            None => StrMap::new(),
        };
        OriginCommand { fetch_cmd, list_cmd, get_cmd, put_cmd, send_cmd, delete_cmd, extra_vars }
    }

    /// Replaces `{key}` in `template` by `val`.
    pub fn interpolate_one(template: &mut String, key: &str, val: &str)
        ensures
            final(template)@ == replaced(old(template)@, placeholder(key@), val@),
    {
        let t = chars_of(template.as_str());
        let p = placeholder_chars(key);
        let v = chars_of(val);
        let r = replace_all(&t, &p, &v);
        *template = string_of(&r);
    }

    /// Replaces `{key}` by its value for every entry of `vars`, in ascending key order.
    pub fn interpolate(template: &mut String, vars: &StrMap)
        ensures
            final(template)@ == interpolated(old(template)@, canonical_entries(vars@)),
    {
        let entries = vars.sorted_entries();
        let ghost ev = pair_views(entries@);
        let mut i: usize = 0;
        while i < entries.len()
            invariant
                i <= entries@.len(),
                ev == pair_views(entries@),
                ev == canonical_entries(vars@),
                template@ == interpolated(old(template)@, ev.subrange(0, i as int)),
            decreases entries.len() - i,
        {
            assert(ev.subrange(0, i + 1).drop_last() =~= ev.subrange(0, i as int));
            Self::interpolate_one(template, entries[i].0.as_str(), entries[i].1.as_str());
            i = i + 1;
        }
        assert(ev.subrange(0, i as int) =~= ev);
    }

    /// The command for operation `t` on `id`.
    pub open spec fn cmd_for_id(&self, t: CmdType, id: Seq<char>) -> Seq<char> {
        interpolated(replaced(self.template(t), placeholder("id"@), id), canonical_entries(self.vars()))
    }

    /// The command for operation `t` on the object `id`: `{id}`, then the extra variables.
    pub fn bootstrap_cmd_id(&self, t: &CmdType, id: &ObjectId) -> (r: String)
        ensures
            r@ == self.cmd_for_id(*t, id@),
    {
        let mut cmd = match t {
            CmdType::Fetch => self.fetch_cmd.clone(),
            CmdType::List => self.list_cmd.clone(),
            CmdType::Get => self.get_cmd.clone(),
            CmdType::Put => self.put_cmd.clone(),
            CmdType::Delete => self.delete_cmd.clone(),
            CmdType::Send => self.send_cmd.clone(),
        };
        Self::interpolate_one(&mut cmd, "id", id.as_str());
        Self::interpolate(&mut cmd, &self.extra_vars);
        cmd
    }

    /// The command for uploading `object` with operation `t`: `{id}`, `{name}`, `{size}`
    /// (`0` when unknown), `{content_type}` (`unknown` when unknown), `{modified}` (empty
    /// when unknown), `{kind}` (`leaf` or `branch`), then the object's own extra metadata, then
    /// the origin's extra variables (among them the `{destination}` of the latest put).
    pub open spec fn cmd_for_object(&self, t: CmdType, object: &Object) -> Result<Seq<char>, VaultError> {
        if t != CmdType::Put && t != CmdType::Send {
            Err(VaultError::InvalidMethodCall)
        } else {
            match object {
                Object::Root { .. } => Err(VaultError::Unreachable),
                Object::Leaf { meta, .. } | Object::Branch { meta, .. } => {
                    let size = size_text(meta);
                    let content_type = content_type_text(meta);
                    let modified = modified_text(meta);
                    let c0 = self.template(t);
                    let c1 = replaced(c0, placeholder("id"@), object.id_spec());
                    let c2 = replaced(c1, placeholder("name"@), object.name_spec());
                    let c3 = replaced(c2, placeholder("size"@), size);
                    let c4 = replaced(c3, placeholder("content_type"@), content_type);
                    let c5 = replaced(c4, placeholder("modified"@), modified);
                    let c6 = replaced(c5, placeholder("kind"@), kind_text(object));
                    let c7 = interpolated(c6, canonical_entries(meta.extra@));
                    Ok(interpolated(c7, canonical_entries(self.vars())))
                },
            }
        }
    }

    /// The command for uploading `object` with operation `t` (`Put` or `Send` only).
    pub fn bootstrap_cmd_object(&self, t: &CmdType, object: &Object) -> (r: Result<String, VaultError>)
        ensures
            match self.cmd_for_object(*t, object) {
                Ok(c) => r matches Ok(s) && s@ == c,
                Err(e) => r == Err::<String, VaultError>(e),
            },
    {
        match t {
            CmdType::Put | CmdType::Send => {},
            _ => return Err(VaultError::InvalidMethodCall),
        }
        let (meta, kind) = match object {
            Object::Leaf { meta, .. } => (meta, "leaf"),
            Object::Branch { meta, .. } => (meta, "branch"),
            Object::Root { .. } => return Err(VaultError::Unreachable),
        };
        let (size, content_type, modified) = upload_texts(meta);
        let mut command = match t {
            CmdType::Put => self.put_cmd.clone(),
            _ => self.send_cmd.clone(),
        };
        let id = object.get_id();
        let name = object.get_name();
        Self::interpolate_one(&mut command, "id", id.as_str());
        Self::interpolate_one(&mut command, "name", name.as_str());
        Self::interpolate_one(&mut command, "size", size.as_str());
        Self::interpolate_one(&mut command, "content_type", content_type.as_str());
        Self::interpolate_one(&mut command, "modified", modified.as_str());
        Self::interpolate_one(&mut command, "kind", kind);
        Self::interpolate(&mut command, &meta.extra);
        Self::interpolate(&mut command, &self.extra_vars);
        Ok(command)
    }

    /// Records `destination` as the `{destination}` variable, replacing any earlier one: a put
    /// always sees the parent it is made to.
    pub fn remember_destination(&mut self, destination: &ObjectId)
        ensures
            final(self).vars() == old(self).vars().insert("destination"@, destination@),
            forall|t: CmdType| #[trigger] final(self).template(t) == old(self).template(t),
    {
        self.extra_vars.insert(String::from_str("destination"), destination.to_string());
    }
}

/// Only the latest put's destination counts: after puts to `x` and then to `y` (`o0` to `o1`
/// to `o2`, each by `remember_destination`), every upload command and every command by id is
/// what it is after a single put to `y` (`o3`), so `{destination}` reads `y`.
pub proof fn lemma_latest_destination_wins(
    o0: OriginCommand,
    o1: OriginCommand,
    o2: OriginCommand,
    o3: OriginCommand,
    x: Seq<char>,
    y: Seq<char>,
    t: CmdType,
    object: Object,
    id: Seq<char>,
)
    requires
        o1.vars() == o0.vars().insert("destination"@, x),
        o2.vars() == o1.vars().insert("destination"@, y),
        o3.vars() == o0.vars().insert("destination"@, y),
        forall|u: CmdType| #[trigger] o1.template(u) == o0.template(u),
        forall|u: CmdType| #[trigger] o2.template(u) == o1.template(u),
        forall|u: CmdType| #[trigger] o3.template(u) == o0.template(u),
    ensures
        o2.vars()["destination"@] == y,
        o2.cmd_for_object(t, &object) == o3.cmd_for_object(t, &object),
        o2.cmd_for_id(t, id) == o3.cmd_for_id(t, id),
{
    assert(o2.vars() =~= o3.vars());
    assert(o2.template(t) == o0.template(t));
    assert(o3.template(t) == o0.template(t));
}

/// `s` without trailing white space.
pub open spec fn trim_end(s: Seq<char>) -> Seq<char>
    decreases s.len(),
{
    if s.len() > 0 && is_space(s.last()) {
        trim_end(s.drop_last())
    } else {
        s
    }
}

/// `s` without leading and trailing white space.
pub open spec fn trimmed(s: Seq<char>) -> Seq<char> {
    trim_end(trim_start(s))
}

/// `s` without leading and trailing white space.
pub fn trim(s: &str) -> (r: String)
    ensures
        r@ == trimmed(s@),
{
    let v = chars_of(s);
    let n = v.len();
    let mut a: usize = 0;
    assert(v@.subrange(0, n as int) =~= v@);
    while a < n && crate::daemon::is_space_char(v[a])
        invariant
            a <= n,
            n == v@.len(),
            trim_start(v@) == trim_start(v@.subrange(a as int, n as int)),
        decreases n - a,
    {
        assert(v@.subrange(a + 1, n as int) =~= v@.subrange(a as int, n as int).subrange(1, n - a));
        a = a + 1;
    }
    assert(trim_start(v@) == v@.subrange(a as int, n as int));
    let mut b: usize = n;
    while b > a && crate::daemon::is_space_char(v[b - 1])
        invariant
            a <= b <= n,
            n == v@.len(),
            trim_end(v@.subrange(a as int, n as int)) == trim_end(v@.subrange(a as int, b as int)),
        decreases b - a,
    {
        assert(v@.subrange(a as int, b - 1) =~= v@.subrange(a as int, b as int).drop_last());
        b = b - 1;
    }
    let mut out: Vec<char> = Vec::new();
    let mut i = a;
    while i < b
        invariant
            a <= i <= b,
            b <= v@.len(),
            out@ == v@.subrange(a as int, i as int),
        decreases b - i,
    {
        out.push(v[i]);
        i = i + 1;
        assert(out@ =~= v@.subrange(a as int, i as int));
    }
    string_of(&out)
}

/// The error a failed operation command is reported as: `<field> failed for <id>: <stderr>`,
/// the error output trimmed.
pub fn command_failed(t: &CmdType, id: &ObjectId, stderr: &str) -> (r: VaultError)
    ensures
        r matches VaultError::Generic(m) && m@ == t.field() + " failed for "@ + id@ + ": "@ + trimmed(stderr@),
{
    let head = cat3(t.as_str(), " failed for ", id.as_str());
    VaultError::Generic(cat3(head.as_str(), ": ", trim(stderr).as_str()))
}

} // verus!
