//! The vault creation wizard: which fields each kind of origin needs, how the collected
//! answers become an origin config, and the wizard's steps from one key press to the next.

use vstd::prelude::*;
use crate::config::{OriginConfig, VaultConfig};
use crate::frontend::{pop_char, push_char, Key};
use crate::object::ObjectId;
use crate::origin_command::trimmed;
use crate::origin_http::HttpAuth;
use crate::strmap::StrMap;
use crate::text::{cat, chars_eq, chars_of, string_of};

verus! {

/// A field the wizard collects for an origin kind.
#[derive(Debug, Clone, Copy, PartialEq, Eq)]
pub struct FieldSpec {
    /// The key the answer is stored under: the field's name in the origin config.
    pub key: &'static str,
    /// The prompt shown.
    pub label: &'static str,
    /// Whether an empty answer is accepted.
    pub optional: bool,
    /// Whether Tab offers filesystem-path completion for this field.
    pub path_completable: bool,
}

/// A field without path completion.
pub fn field(key: &'static str, label: &'static str, optional: bool) -> (r: FieldSpec)
    ensures
        r.key == key,
        r.label == label,
        r.optional == optional,
        !r.path_completable,
{
    FieldSpec { key, label, optional, path_completable: false }
}

/// A field with path completion.
pub fn path_field(key: &'static str, label: &'static str, optional: bool) -> (r: FieldSpec)
    ensures
        r.key == key,
        r.label == label,
        r.optional == optional,
        r.path_completable,
{
    FieldSpec { key, label, optional, path_completable: true }
}

/// The origin kinds a vault can be built with.
#[derive(Debug, Clone, Copy, PartialEq, Eq, Structural)]
pub enum OriginKind {
    /// A directory on disk.
    Fs,
    /// A REST-ish HTTP API.
    Http,
    /// A shell command per operation.
    Command,
    /// Another vault's config file.
    Vault,
}

/// The number of origin kinds offered.
pub const KIND_COUNT: usize = 4;

/// The kind at position `i` of the wizard's list.
pub open spec fn kind_at(i: int) -> OriginKind {
    if i == 0 {
        OriginKind::Fs
    } else if i == 1 {
        OriginKind::Http
    } else if i == 2 {
        OriginKind::Command
    } else {
        OriginKind::Vault
    }
}

/// The field keys of each kind, in prompt order.
pub open spec fn field_keys(kind: OriginKind) -> Seq<Seq<char>> {
    match kind {
        OriginKind::Fs => seq!["root"@],
        OriginKind::Http => seq!["base_url"@, "list_url"@, "fetch_url"@, "get_url"@, "put_url"@, "send_url"@, "delete_url"@],
        OriginKind::Command => seq!["list_cmd"@, "fetch_cmd"@, "get_cmd"@, "put_cmd"@, "send_cmd"@, "delete_cmd"@, "extras"@],
        OriginKind::Vault => seq!["path"@],
    }
}

/// Which fields of each kind may be left empty (the HTTP base URL and the command extras).
pub open spec fn field_optional(kind: OriginKind, i: int) -> bool {
    (kind == OriginKind::Http && i == 0) || (kind == OriginKind::Command && i == 6)
}

impl OriginKind {
    /// The kind at position `i` of the wizard's list (the last one past the end).
    pub fn at(i: usize) -> (r: OriginKind)
        ensures
            r == kind_at(i as int),
    {
        if i == 0 {
            OriginKind::Fs
        } else if i == 1 {
            OriginKind::Http
        } else if i == 2 {
            OriginKind::Command
        } else {
            OriginKind::Vault
        }
    }

    /// The kind's line in the wizard's list.
    pub open spec fn label_spec(self) -> Seq<char> {
        match self {
            OriginKind::Fs => "fs — a directory on disk"@,
            OriginKind::Http => "http — a REST-ish HTTP API"@,
            OriginKind::Command => "command — a shell command per operation"@,
            OriginKind::Vault => "vault — another vault's config file"@,
        }
    }

    /// The kind's line in the wizard's list.
    pub fn label(&self) -> (r: &'static str)
        ensures
            r@ == self.label_spec(),
    {
        match self {
            OriginKind::Fs => "fs — a directory on disk",
            OriginKind::Http => "http — a REST-ish HTTP API",
            OriginKind::Command => "command — a shell command per operation",
            OriginKind::Vault => "vault — another vault's config file",
        }
    }

    /// The fields the wizard must collect for this kind, in prompt order.
    pub fn fields(&self) -> (r: Vec<FieldSpec>)
        ensures
            r@.len() == field_keys(*self).len(),
            forall|i: int| 0 <= i < r@.len() ==> (#[trigger] r@[i]).key@ == field_keys(*self)[i] && r@[i].optional == field_optional(*self, i)
                && r@[i].path_completable == (*self == OriginKind::Fs),
    {
        match self {
            OriginKind::Fs => vec![path_field("root", "root directory (tab to complete)", false)],
            OriginKind::Http => vec![
                field("base_url", "base url (optional)", true),
                field("list_url", "list url ({id}-templated)", false),
                field("fetch_url", "fetch url ({id}-templated)", false),
                field("get_url", "get url ({id}-templated)", false),
                field("put_url", "put url ({id}-templated)", false),
                field("send_url", "send url ({id}-templated)", false),
                field("delete_url", "delete url ({id}-templated)", false),
            ],
            OriginKind::Command => vec![
                field("list_cmd", "list command", false),
                field("fetch_cmd", "fetch command", false),
                field("get_cmd", "get command", false),
                field("put_cmd", "put command", false),
                field("send_cmd", "send command", false),
                field("delete_cmd", "delete command", false),
                field("extras", "extra vars, k=v,k2=v2 (optional)", true),
            ],
            OriginKind::Vault => vec![field("path", "inner vault config path", false)],
        }
    }
}

/// Scanning state after `s`: the pieces closed by a `sep`, and the piece being read.
pub open spec fn scan_pieces(s: Seq<char>, sep: char) -> (Seq<Seq<char>>, Seq<char>)
    decreases s.len(),
{
    if s.len() == 0 {
        (Seq::empty(), Seq::empty())
    } else {
        let (done, cur) = scan_pieces(s.drop_last(), sep);
        if s.last() == sep {
            (done.push(cur), Seq::empty())
        } else {
            (done, cur.push(s.last()))
        }
    }
}

/// `s` split at every `sep`, empty pieces included (the meaning of `str::split`).
pub open spec fn split_at_char(s: Seq<char>, sep: char) -> Seq<Seq<char>> {
    let (done, cur) = scan_pieces(s, sep);
    done.push(cur)
}

/// The key and value of one `k=v` piece: both trimmed, split at the first `=`; `None` when
/// there is no `=` or the key is blank.
pub open spec fn extra_pair(piece: Seq<char>) -> Option<(Seq<char>, Seq<char>)> {
    if exists|i: int| 0 <= i < piece.len() && piece[i] == '=' {
        let i = choose|i: int| 0 <= i < piece.len() && piece[i] == '=' && forall|j: int| 0 <= j < i ==> piece[j] != '=';
        let k = trimmed(piece.subrange(0, i));
        let v = trimmed(piece.subrange(i + 1, piece.len() as int));
        if k.len() == 0 {
            None
        } else {
            Some((k, v))
        }
    } else {
        None
    }
}

/// The variables of the pieces `ps`, a later piece overriding an earlier one with its key.
pub open spec fn extras_of(ps: Seq<Seq<char>>) -> Map<Seq<char>, Seq<char>>
    decreases ps.len(),
{
    if ps.len() == 0 {
        Map::empty()
    } else {
        match extra_pair(ps.last()) {
            Some((k, v)) => extras_of(ps.drop_last()).insert(k, v),
            None => extras_of(ps.drop_last()),
        }
    }
}

/// The pieces of `s` at each `sep`.
fn split_pieces_at(s: &Vec<char>, sep: char) -> (r: Vec<Vec<char>>)
    ensures
        r@.map_values(|v: Vec<char>| v@) == split_at_char(s@, sep),
{
    let mut done: Vec<Vec<char>> = Vec::new();
    let mut cur: Vec<char> = Vec::new();
    let mut i: usize = 0;
    while i < s.len()
        invariant
            i <= s@.len(),
            done@.map_values(|v: Vec<char>| v@) == scan_pieces(s@.subrange(0, i as int), sep).0,
            cur@ == scan_pieces(s@.subrange(0, i as int), sep).1,
        decreases s.len() - i,
    {
        assert(s@.subrange(0, i + 1).drop_last() =~= s@.subrange(0, i as int));
        let ghost before = done@.map_values(|v: Vec<char>| v@);
        if s[i] == sep {
            let mut w: Vec<char> = Vec::new();
            std::mem::swap(&mut w, &mut cur);
            done.push(w);
            assert(done@.map_values(|v: Vec<char>| v@) =~= before.push(scan_pieces(s@.subrange(0, i as int), sep).1));
        } else {
            cur.push(s[i]);
            assert(done@.map_values(|v: Vec<char>| v@) =~= before);
        }
        i = i + 1;
    }
    assert(s@.subrange(0, i as int) =~= s@);
    let ghost before = done@.map_values(|v: Vec<char>| v@);
    done.push(cur);
    assert(done@.map_values(|v: Vec<char>| v@) =~= before.push(scan_pieces(s@, sep).1));
    done
}

/// The characters of `v` from `a` up to `b`, as a string.
fn substring(v: &Vec<char>, a: usize, b: usize) -> (r: String)
    requires
        a <= b <= v@.len(),
    ensures
        r@ == v@.subrange(a as int, b as int),
{
    let mut out: Vec<char> = Vec::new();
    let mut i = a;
    while i < b
        invariant
            a <= i <= b <= v@.len(),
            out@ == v@.subrange(a as int, i as int),
        decreases b - i,
    {
        out.push(v[i]);
        i = i + 1;
        assert(out@ =~= v@.subrange(a as int, i as int));
    }
    string_of(&out)
}

/// The key and value of one `k=v` piece (see `extra_pair`).
fn parse_pair(piece: &Vec<char>) -> (r: Option<(String, String)>)
    ensures
        match r {
            Some((k, v)) => extra_pair(piece@) == Some((k@, v@)),
            None => extra_pair(piece@) is None,
        },
{
    let mut i: usize = 0;
    while i < piece.len() && piece[i] != '='
        invariant
            i <= piece@.len(),
            forall|j: int| 0 <= j < i ==> piece@[j] != '=',
        decreases piece.len() - i,
    {
        i = i + 1;
    }
    if i == piece.len() {
        return None;
    }
    assert((choose|k: int| 0 <= k < piece@.len() && piece@[k] == '=' && forall|j: int| 0 <= j < k ==> piece@[j] != '=') == i) by {
        let c = choose|k: int| 0 <= k < piece@.len() && piece@[k] == '=' && forall|j: int| 0 <= j < k ==> piece@[j] != '=';
        assert(piece@[i as int] == '=');
        if c < i {
        } else if c > i {
            assert(piece@[i as int] != '=');
        }
    }
    let k = crate::origin_command::trim(substring(piece, 0, i).as_str());
    let v = crate::origin_command::trim(substring(piece, i + 1, piece.len()).as_str());
    if k.as_str().unicode_len() == 0 {
        None
    } else {
        Some((k, v))
    }
}

impl OriginKind {
    /// The variables of a `k=v,k2=v2` answer: pieces split at `,`, each at its first `=`, keys
    /// and values trimmed; a piece without `=` or with a blank key is skipped, and a later
    /// key overrides an earlier one.
    pub fn parse_extras(raw: &str) -> (r: StrMap)
        ensures
            r@ == extras_of(split_at_char(raw@, ',')),
    {
        let chars = chars_of(raw);
        let pieces = split_pieces_at(&chars, ',');
        let ghost pv = pieces@.map_values(|v: Vec<char>| v@);
        let mut out = StrMap::new();
        let mut i: usize = 0;
        while i < pieces.len()
            invariant
                i <= pieces@.len(),
                pv == pieces@.map_values(|v: Vec<char>| v@),
                pv == split_at_char(raw@, ','),
                out@ == extras_of(pv.subrange(0, i as int)),
            decreases pieces.len() - i,
        {
            assert(pv.subrange(0, i + 1).drop_last() =~= pv.subrange(0, i as int));
            assert(pv[i as int] == pieces@[i as int]@);
            match parse_pair(&pieces[i]) {
                Some((k, v)) => {
                    out.insert(k, v);
                },
                None => {},
            }
            i = i + 1;
        }
        assert(pv.subrange(0, i as int) =~= pv);
        out
    }
}

/// The answer stored under `key`, or empty.
pub open spec fn answer(values: Map<Seq<char>, Seq<char>>, key: Seq<char>) -> Seq<char> {
    if values.contains_key(key) {
        values[key]
    } else {
        Seq::empty()
    }
}

/// The answer stored under `key`, or empty.
fn get_answer(values: &StrMap, key: &str) -> (r: String)
    ensures
        r@ == answer(values@, key@),
{
    match values.get(&String::from_str(key)) {
        Some(v) => v,
        None => String::new(),
    }
}

/// Whether `c` is the origin config that `kind` describes with the answers `values`.
pub open spec fn built_from(c: OriginConfig, kind: OriginKind, values: Map<Seq<char>, Seq<char>>) -> bool {
    match (kind, c) {
        (OriginKind::Fs, OriginConfig::Fs { root }) => root@ == answer(values, "root"@),
        (OriginKind::Vault, OriginConfig::Vault { path }) => path@ == answer(values, "path"@),
        (OriginKind::Http, OriginConfig::Http { base_url, list_url, fetch_url, get_url, put_url, send_url, delete_url, auth }) => {
            &&& (if answer(values, "base_url"@).len() == 0 { base_url is None } else { base_url matches Some(b) && b@ == answer(values, "base_url"@) })
            &&& list_url@ == answer(values, "list_url"@)
            &&& fetch_url@ == answer(values, "fetch_url"@)
            &&& get_url@ == answer(values, "get_url"@)
            &&& put_url@ == answer(values, "put_url"@)
            &&& send_url@ == answer(values, "send_url"@)
            &&& delete_url@ == answer(values, "delete_url"@)
            &&& auth is NoAuth
        },
        (OriginKind::Command, OriginConfig::Command { list_cmd, fetch_cmd, get_cmd, put_cmd, send_cmd, delete_cmd, extras }) => {
            &&& list_cmd@ == answer(values, "list_cmd"@)
            &&& fetch_cmd@ == answer(values, "fetch_cmd"@)
            &&& get_cmd@ == answer(values, "get_cmd"@)
            &&& put_cmd@ == answer(values, "put_cmd"@)
            &&& send_cmd@ == answer(values, "send_cmd"@)
            &&& delete_cmd@ == answer(values, "delete_cmd"@)
            &&& (if answer(values, "extras"@).len() == 0 { extras is None } else {
                extras matches Some(m) && m@ == extras_of(split_at_char(answer(values, "extras"@), ','))
            })
        },
        _ => false,
    }
}

/// Each answer lands in the setting of the same name: for every text field of a kind (all
/// but the command extras, which become a map), the config built for that kind has a setting
/// under the field's key, and it is the answer given under that key (a missing answer read as
/// empty). The optional HTTP base URL does so when it was answered.
pub proof fn lemma_each_answer_lands_under_its_key(c: OriginConfig, kind: OriginKind, values: Map<Seq<char>, Seq<char>>, i: int)
    requires
        built_from(c, kind, values),
        0 <= i < field_keys(kind).len(),
        !(kind == OriginKind::Command && i == 6),
        !field_optional(kind, i) || answer(values, field_keys(kind)[i]).len() > 0,
    ensures
        c.setting(field_keys(kind)[i]) == Some(answer(values, field_keys(kind)[i])),
{
    reveal_strlit("base_url");
    reveal_strlit("delete_cmd");
    reveal_strlit("delete_url");
    reveal_strlit("fetch_cmd");
    reveal_strlit("fetch_url");
    reveal_strlit("get_cmd");
    reveal_strlit("get_url");
    reveal_strlit("list_cmd");
    reveal_strlit("list_url");
    reveal_strlit("path");
    reveal_strlit("put_cmd");
    reveal_strlit("put_url");
    reveal_strlit("root");
    reveal_strlit("send_cmd");
    reveal_strlit("send_url");
    let k = field_keys(kind)[i];
    match kind {
        OriginKind::Fs => {
            if i == 0 {
                assert(k == "root"@);
            }
        },
        OriginKind::Vault => {
            if i == 0 {
                assert(k == "path"@);
            }
        },
        OriginKind::Http => {
            if i == 0 {
                assert(k == "base_url"@);
            }
            if i == 1 {
                assert(k == "list_url"@);
                assert(k != "base_url"@) by { assert(k[0] != "base_url"@[0]); }
            }
            if i == 2 {
                assert(k == "fetch_url"@);
                assert(k != "base_url"@) by { assert(k[0] != "base_url"@[0]); }
                assert(k != "list_url"@) by { assert(k[0] != "list_url"@[0]); }
            }
            if i == 3 {
                assert(k == "get_url"@);
                assert(k != "base_url"@) by { assert(k[0] != "base_url"@[0]); }
                assert(k != "list_url"@) by { assert(k[0] != "list_url"@[0]); }
                assert(k != "fetch_url"@) by { assert(k[0] != "fetch_url"@[0]); }
            }
            if i == 4 {
                assert(k == "put_url"@);
                assert(k != "base_url"@) by { assert(k[0] != "base_url"@[0]); }
                assert(k != "list_url"@) by { assert(k[0] != "list_url"@[0]); }
                assert(k != "fetch_url"@) by { assert(k[0] != "fetch_url"@[0]); }
                assert(k != "get_url"@) by { assert(k[0] != "get_url"@[0]); }
            }
            if i == 5 {
                assert(k == "send_url"@);
                assert(k != "base_url"@) by { assert(k[0] != "base_url"@[0]); }
                assert(k != "list_url"@) by { assert(k[0] != "list_url"@[0]); }
                assert(k != "fetch_url"@) by { assert(k[0] != "fetch_url"@[0]); }
                assert(k != "get_url"@) by { assert(k[0] != "get_url"@[0]); }
                assert(k != "put_url"@) by { assert(k[0] != "put_url"@[0]); }
            }
            if i == 6 {
                assert(k == "delete_url"@);
                assert(k != "base_url"@) by { assert(k[0] != "base_url"@[0]); }
                assert(k != "list_url"@) by { assert(k[0] != "list_url"@[0]); }
                assert(k != "fetch_url"@) by { assert(k[0] != "fetch_url"@[0]); }
                assert(k != "get_url"@) by { assert(k[0] != "get_url"@[0]); }
                assert(k != "put_url"@) by { assert(k[0] != "put_url"@[0]); }
                assert(k != "send_url"@) by { assert(k[0] != "send_url"@[0]); }
            }
        },
        OriginKind::Command => {
            if i == 0 {
                assert(k == "list_cmd"@);
            }
            if i == 1 {
                assert(k == "fetch_cmd"@);
                assert(k != "list_cmd"@) by { assert(k[0] != "list_cmd"@[0]); }
            }
            if i == 2 {
                assert(k == "get_cmd"@);
                assert(k != "list_cmd"@) by { assert(k[0] != "list_cmd"@[0]); }
                assert(k != "fetch_cmd"@) by { assert(k[0] != "fetch_cmd"@[0]); }
            }
            if i == 3 {
                assert(k == "put_cmd"@);
                assert(k != "list_cmd"@) by { assert(k[0] != "list_cmd"@[0]); }
                assert(k != "fetch_cmd"@) by { assert(k[0] != "fetch_cmd"@[0]); }
                assert(k != "get_cmd"@) by { assert(k[0] != "get_cmd"@[0]); }
            }
            if i == 4 {
                assert(k == "send_cmd"@);
                assert(k != "list_cmd"@) by { assert(k[0] != "list_cmd"@[0]); }
                assert(k != "fetch_cmd"@) by { assert(k[0] != "fetch_cmd"@[0]); }
                assert(k != "get_cmd"@) by { assert(k[0] != "get_cmd"@[0]); }
                assert(k != "put_cmd"@) by { assert(k[0] != "put_cmd"@[0]); }
            }
            if i == 5 {
                assert(k == "delete_cmd"@);
                assert(k != "list_cmd"@) by { assert(k[0] != "list_cmd"@[0]); }
                assert(k != "fetch_cmd"@) by { assert(k[0] != "fetch_cmd"@[0]); }
                assert(k != "get_cmd"@) by { assert(k[0] != "get_cmd"@[0]); }
                assert(k != "put_cmd"@) by { assert(k[0] != "put_cmd"@[0]); }
                assert(k != "send_cmd"@) by { assert(k[0] != "send_cmd"@[0]); }
            }
        },
    }
}

impl OriginKind {
    /// Builds the origin config this kind describes out of the collected answers (a missing
    /// answer reads as empty; an empty base URL or extras answer is left out).
    pub fn build(&self, values: &StrMap) -> (r: OriginConfig)
        ensures
            built_from(r, *self, values@),
    {
        match self {
            OriginKind::Fs => OriginConfig::Fs { root: get_answer(values, "root") },
            OriginKind::Http => {
                let base_url = get_answer(values, "base_url");
                let base = if base_url.as_str().unicode_len() == 0 {
                    None
                } else {
                    Some(base_url)
                };
                OriginConfig::Http {
                    base_url: base,
                    list_url: get_answer(values, "list_url"),
                    fetch_url: get_answer(values, "fetch_url"),
                    get_url: get_answer(values, "get_url"),
                    put_url: get_answer(values, "put_url"),
                    send_url: get_answer(values, "send_url"),
                    delete_url: get_answer(values, "delete_url"),
                    auth: HttpAuth::NoAuth,
                }
            },
            OriginKind::Command => {
                let extras_raw = get_answer(values, "extras");
                let extras = if extras_raw.as_str().unicode_len() == 0 {
                    None
                } else {
                    Some(Self::parse_extras(extras_raw.as_str()))
                };
                OriginConfig::Command {
                    list_cmd: get_answer(values, "list_cmd"),
                    fetch_cmd: get_answer(values, "fetch_cmd"),
                    get_cmd: get_answer(values, "get_cmd"),
                    put_cmd: get_answer(values, "put_cmd"),
                    send_cmd: get_answer(values, "send_cmd"),
                    delete_cmd: get_answer(values, "delete_cmd"),
                    extras,
                }
            },
            OriginKind::Vault => OriginConfig::Vault { path: get_answer(values, "path") },
        }
    }
}

/// The longest common prefix of `a` and `b`.
pub open spec fn common_prefix(a: Seq<char>, b: Seq<char>) -> Seq<char>
    decreases a.len(),
{
    if a.len() == 0 || b.len() == 0 || a[0] != b[0] {
        Seq::empty()
    } else {
        seq![a[0]] + common_prefix(a.drop_first(), b.drop_first())
    }
}

/// The longest common prefix of `acc` and every one of `items`, taken in turn.
pub open spec fn prefix_of_all(acc: Seq<char>, items: Seq<Seq<char>>) -> Seq<char>
    decreases items.len(),
{
    if items.len() == 0 {
        acc
    } else {
        common_prefix(prefix_of_all(acc, items.drop_last()), items.last())
    }
}

/// The longest common prefix of `a` and `b`.
fn common_prefix_chars(a: &Vec<char>, b: &Vec<char>) -> (r: Vec<char>)
    ensures
        r@ == common_prefix(a@, b@),
{
    let mut i: usize = 0;
    assert(a@.subrange(0, a@.len() as int) =~= a@);
    assert(b@.subrange(0, b@.len() as int) =~= b@);
    while i < a.len() && i < b.len() && a[i] == b[i]
        invariant
            i <= a@.len(),
            i <= b@.len(),
            forall|j: int| 0 <= j < i ==> a@[j] == b@[j],
            common_prefix(a@, b@) == a@.subrange(0, i as int) + common_prefix(a@.subrange(i as int, a@.len() as int), b@.subrange(i as int, b@.len() as int)),
        decreases a.len() - i,
    {
        let ghost sa = a@.subrange(i as int, a@.len() as int);
        let ghost sb = b@.subrange(i as int, b@.len() as int);
        assert(sa.drop_first() =~= a@.subrange(i + 1, a@.len() as int));
        assert(sb.drop_first() =~= b@.subrange(i + 1, b@.len() as int));
        assert(a@.subrange(0, i + 1) =~= a@.subrange(0, i as int) + seq![sa[0]]);
        i = i + 1;
    }
    let mut out: Vec<char> = Vec::new();
    let mut k: usize = 0;
    while k < i
        invariant
            k <= i <= a@.len(),
            out@ == a@.subrange(0, k as int),
        decreases i - k,
    {
        out.push(a[k]);
        k = k + 1;
        assert(out@ =~= a@.subrange(0, k as int));
    }
    let ghost sa = a@.subrange(i as int, a@.len() as int);
    let ghost sb = b@.subrange(i as int, b@.len() as int);
    assert(common_prefix(sa, sb) =~= Seq::<char>::empty()) by {
        if sa.len() > 0 && sb.len() > 0 {
            assert(sa[0] == a@[i as int] && sb[0] == b@[i as int]);
        }
    }
    assert(out@ =~= common_prefix(a@, b@));
    out
}

/// The longest prefix every one of `items` shares (empty for no items).
pub fn longest_common_prefix(items: &Vec<String>) -> (r: String)
    ensures
        r@ == if items@.len() == 0 {
            Seq::empty()
        } else {
            prefix_of_all(items@[0]@, items@.subrange(1, items@.len() as int).map_values(|s: String| s@))
        },
{
    if items.len() == 0 {
        return String::new();
    }
    let ghost rest = items@.subrange(1, items@.len() as int).map_values(|s: String| s@);
    let mut prefix = chars_of(items[0].as_str());
    let mut i: usize = 1;
    while i < items.len()
        invariant
            1 <= i <= items@.len(),
            rest == items@.subrange(1, items@.len() as int).map_values(|s: String| s@),
            prefix@ == prefix_of_all(items@[0]@, rest.subrange(0, i - 1)),
        decreases items.len() - i,
    {
        assert(rest.subrange(0, i as int).drop_last() =~= rest.subrange(0, i - 1));
        assert(rest[i - 1] == items@[i as int]@);
        let item = chars_of(items[i].as_str());
        prefix = common_prefix_chars(&prefix, &item);
        i = i + 1;
    }
    assert(rest.subrange(0, i - 1) =~= rest);
    string_of(&prefix)
}

/// `input` with a leading `~` expanded to `home`: `~` alone (or `~/`) is `home`, and what
/// follows the `~` (less one `/`) is joined onto it; untouched without a leading `~` or
/// without a home directory.
pub open spec fn tilde_expanded(input: Seq<char>, home: Option<Seq<char>>) -> Seq<char> {
    if input.len() == 0 || input[0] != '~' {
        input
    } else {
        match home {
            None => input,
            Some(h) => {
                let rest0 = input.subrange(1, input.len() as int);
                let rest = if rest0.len() > 0 && rest0[0] == '/' { rest0.subrange(1, rest0.len() as int) } else { rest0 };
                if rest.len() == 0 {
                    h
                } else {
                    crate::origin_fs::path_join(h, rest)
                }
            },
        }
    }
}

/// `input` with a leading `~` expanded to `home` (see `tilde_expanded`).
pub fn expand_tilde_with(input: &str, home: Option<&str>) -> (r: String)
    ensures
        r@ == tilde_expanded(input@, match home {
            Some(h) => Some(h@),
            None => None,
        }),
{
    let v = chars_of(input);
    if v.len() == 0 || v[0] != '~' {
        return String::from_str(input);
    }
    let h = match home {
        Some(h) => h,
        None => return String::from_str(input),
    };
    let start: usize = if v.len() > 1 && v[1] == '/' { 2 } else { 1 };
    let ghost rest0 = v@.subrange(1, v@.len() as int);
    assert(start == 2 ==> rest0.subrange(1, rest0.len() as int) =~= v@.subrange(2, v@.len() as int));
    assert(start == 1 ==> rest0 =~= v@.subrange(1, v@.len() as int));
    let rest = substring(&v, start, v.len());
    if rest.as_str().unicode_len() == 0 {
        String::from_str(h)
    } else {
        crate::config::join(h, rest.as_str())
    }
}

/// The user's home directory, as `dirs::home_dir` reports it (from the environment), if any.
/// Nothing is claimed of the result: it depends on the environment.
#[verifier::external_body]
pub(crate) fn user_home_dir() -> (r: Option<String>) {
    dirs::home_dir().map(|p| p.to_string_lossy().into_owned())
}

/// `input` with a leading `~` expanded to the user's home directory.
pub fn expand_tilde(input: &str) -> (r: String)
    ensures
        exists|home: Option<Seq<char>>| r@ == tilde_expanded(input@, home),
{
    let home = user_home_dir();
    let r = match &home {
        Some(h) => expand_tilde_with(input, Some(h.as_str())),
        None => expand_tilde_with(input, None),
    };
    assert(r@ == tilde_expanded(input@, match home {
        Some(h) => Some(h@),
        None => None,
    }));
    r
}

/// The wizard's current step. There is no going back: Esc always cancels the whole wizard.
#[derive(Debug, Clone, Copy, PartialEq, Eq, Structural)]
pub enum Step {
    /// Typing the vault's name.
    Name,
    /// Typing the root id (blank for `/`).
    RootId,
    /// Choosing the origin kind.
    SelectOrigin,
    /// Typing the answer to field `i` of the chosen kind.
    Field(usize),
    /// Typing where the config is saved.
    SavePath,
    /// Confirming.
    Confirm,
}

/// Work a key press asks of the caller.
pub enum WizardAction {
    /// Nothing more to do.
    Nothing,
    /// List the directory entries matching the input and hand them to `apply_completion`.
    Complete,
    /// Save the config at the path, then report to `finish_save`.
    Save(VaultConfig, String),
}

/// The vault creation wizard's state.
pub struct App {
    /// The current step.
    pub step: Step,
    /// What is being typed.
    pub input: String,
    /// The vault's name.
    pub name: String,
    /// The root id typed (blank for the default).
    pub root_id: String,
    /// The cursor in the list of origin kinds.
    pub origin_idx: usize,
    /// The chosen origin kind.
    pub origin_kind: Option<OriginKind>,
    /// The fields of the chosen kind.
    pub fields: Vec<FieldSpec>,
    /// The answers so far, by field key.
    pub values: StrMap,
    /// Where the config is to be saved.
    pub save_path: String,
    /// The error shown under the prompt.
    pub error: Option<String>,
    /// The completions on offer.
    pub suggestions: Vec<String>,
    /// Whether the wizard is still up.
    pub running: bool,
    /// Where the config was saved, once it was.
    pub outcome: Option<String>,
}

/// The wizard `a` with its error cleared, as a key press first does.
pub open spec fn cleared(a: App) -> App {
    App { error: None, ..a }
}

/// Whether the answer `input` may not be committed at `step`: a name, a save path, or a
/// required field left blank.
pub open spec fn required_and_empty(step: Step, fields: Seq<FieldSpec>, input: Seq<char>) -> bool {
    match step {
        Step::Name => trimmed(input).len() == 0,
        Step::SavePath => trimmed(input).len() == 0,
        Step::Field(i) => i < fields.len() && !fields[i as int].optional && trimmed(input).len() == 0,
        _ => false,
    }
}

/// What committing the typed answer `a.input` does, from `a` to `b`: a required answer left
/// blank is refused with an error; otherwise the answer is stored (the name and the root id
/// trimmed, a field's answer under its key, the save path trimmed) and the wizard moves on:
/// after the last field, to the save path, pre-filled with `<name>.toml`.
pub open spec fn committed(a: App, b: App) -> bool {
    &&& required_and_empty(a.step, a.fields@, a.input@) ==> (b.error matches Some(e)
        && e@ == "this field is required"@) && b.step == a.step && b.input == a.input
        && b.name == a.name && b.root_id == a.root_id && b.values@ == a.values@ && b.save_path == a.save_path
    &&& !required_and_empty(a.step, a.fields@, a.input@) ==> match a.step {
        Step::Name => b.name@ == trimmed(a.input@) && b.input@.len() == 0 && b.step == Step::RootId
            && b.root_id == a.root_id && b.values@ == a.values@ && b.save_path == a.save_path,
        Step::RootId => b.root_id@ == trimmed(a.input@) && b.input@.len() == 0 && b.step == Step::SelectOrigin
            && b.name == a.name && b.values@ == a.values@ && b.save_path == a.save_path,
        Step::Field(i) => {
            &&& b.values@ == if i < a.fields@.len() {
                a.values@.insert(a.fields@[i as int].key@, a.input@)
            } else {
                a.values@
            }
            &&& b.name == a.name
            &&& b.root_id == a.root_id
            &&& if i + 1 < a.fields@.len() {
                b.input@.len() == 0 && b.step == Step::Field((i + 1) as usize) && b.save_path == a.save_path
            } else {
                b.save_path@ == a.name@ + ".toml"@ && b.input@ == b.save_path@ && b.step == Step::SavePath
            }
        },
        Step::SavePath => b.save_path@ == trimmed(a.input@) && b.input@.len() == 0 && b.step == Step::Confirm
            && b.name == a.name && b.root_id == a.root_id && b.values@ == a.values@,
        _ => b.step == a.step && b.input == a.input && b.name == a.name && b.root_id == a.root_id
            && b.values@ == a.values@ && b.save_path == a.save_path,
    }
    &&& !required_and_empty(a.step, a.fields@, a.input@) ==> b.error == a.error
    &&& b.fields@ == a.fields@
    &&& b.origin_kind == a.origin_kind
    &&& b.running == a.running
}

/// What a key does while the origin kind is chosen, from `a` to `b`: Esc closes the wizard,
/// Up and Down move through the kinds (stopping at either end), Enter takes the kind under
/// the cursor and goes to its first field.
pub open spec fn select_effect(a: App, key: Key, b: App) -> bool {
    &&& b.error == a.error
    &&& key == Key::Esc ==> !b.running && b.outcome is None
    &&& key == Key::Up ==> b.origin_idx == if a.origin_idx == 0 { 0 } else { (a.origin_idx - 1) as usize }
    &&& key == Key::Down ==> b.origin_idx == if a.origin_idx + 1 < KIND_COUNT { (a.origin_idx + 1) as usize } else { (KIND_COUNT - 1) as usize }
    &&& key == Key::Enter ==> b.origin_kind == Some(kind_at(a.origin_idx as int))
        && b.fields@.len() == field_keys(kind_at(a.origin_idx as int)).len()
        && b.step == Step::Field(0) && b.input@.len() == 0
}

/// What a key does at the confirmation, from `a` to `b` (`r` the work handed back): Esc
/// closes the wizard; Enter hands back the vault config built from the answers and the
/// path to save it at, or, with no origin kind chosen, an error.
pub open spec fn confirm_effect(a: App, key: Key, b: App, r: WizardAction) -> bool {
    &&& !(key == Key::Enter && a.origin_kind is None) ==> b.error == a.error
    &&& key == Key::Esc ==> !b.running && b.outcome is None && r is Nothing
    &&& key == Key::Enter ==> match a.origin_kind {
        None => r is Nothing && (b.error matches Some(e) && e@ == "no origin type selected"@),
        Some(kind) => r matches WizardAction::Save(config, path) && path@ == a.save_path@
            && config.name_spec() == a.name@
            && config.root_spec() == (if a.root_id@.len() == 0 { seq!['/'] } else { a.root_id@ })
            && built_from(*config.origin_config_spec(), kind, a.values@),
    }
}

/// What a key does at a typing step, from `a` to `b` (`r` the work handed back): Esc closes
/// the wizard, a character is typed, Backspace takes the last one back, Enter commits the
/// answer (see `committed`), and Tab asks for path completion where the field has it. Any
/// key but Tab drops the completions on offer.
pub open spec fn text_effect(a: App, key: Key, b: App, r: WizardAction) -> bool {
    &&& key != Key::Enter ==> b.error == a.error
    &&& key == Key::Esc ==> !b.running && b.outcome is None && r is Nothing
    &&& key matches Key::Char(c) ==> b.input@ == a.input@.push(c) && r is Nothing && b.step == a.step
    &&& key == Key::Backspace ==> b.input@ == (if a.input@.len() > 0 { a.input@.drop_last() } else { a.input@ })
        && r is Nothing && b.step == a.step
    &&& key == Key::Enter ==> committed(a, b) && r is Nothing
    &&& key == Key::Tab ==> (r is Complete <==> (match a.step {
        Step::Field(i) => i < a.fields@.len() && a.fields@[i as int].path_completable,
        _ => false,
    })) && b.suggestions@ == a.suggestions@ && b.input == a.input && b.step == a.step
    &&& key != Key::Tab ==> b.suggestions@.len() == 0
}

impl App {
    /// A wizard at its first step.
    pub fn new() -> (r: App)
        ensures
            r.step == Step::Name,
            r.input@.len() == 0,
            r.running,
            r.outcome is None,
            r.error is None,
            r.origin_idx == 0,
            r.origin_kind is None,
    {
        App {
            step: Step::Name,
            input: String::new(),
            name: String::new(),
            root_id: String::new(),
            origin_idx: 0,
            origin_kind: None,
            fields: Vec::new(),
            values: StrMap::new(),
            save_path: String::new(),
            error: None,
            suggestions: Vec::new(),
            running: true,
            outcome: None,
        }
    }

    /// Whether the wizard is still up.
    pub fn is_running(&self) -> (b: bool)
        ensures
            b == self.running,
    {
        self.running
    }

    /// The field being answered, if the step is a field's.
    pub fn current_field(&self) -> (r: Option<FieldSpec>)
        ensures
            r == match self.step {
                Step::Field(i) => if i < self.fields@.len() { Some(self.fields@[i as int]) } else { None },
                _ => None,
            },
    {
        match self.step {
            Step::Field(i) => if i < self.fields.len() {
                Some(self.fields[i])
            } else {
                None
            },
            _ => None,
        }
    }

    /// Closes the wizard without a result.
    pub fn cancel(&mut self)
        ensures
            !final(self).running,
            final(self).outcome is None,
            final(self).step == old(self).step,
            final(self).suggestions@ == old(self).suggestions@,
            final(self).error == old(self).error,
    {
        self.outcome = None;
        self.running = false;
    }

    /// Commits what was typed as the answer of the current step and moves on: the name and
    /// the root id trimmed, a field's answer as typed (the save path proposed as
    /// `<name>.toml` after the last field), the save path trimmed. A blank name, save path or
    /// required field is refused with an error instead.
    pub fn commit_text_input(&mut self)
        ensures
            committed(*old(self), *final(self)),
            final(self).suggestions@ == old(self).suggestions@,
    {
        let t = crate::origin_command::trim(self.input.as_str());
        let blank = t.as_str().unicode_len() == 0;
        let refused = match self.step {
            Step::Name => blank,
            Step::SavePath => blank,
            Step::Field(i) => i < self.fields.len() && !self.fields[i].optional && blank,
            _ => false,
        };
        if refused {
            self.error = Some(String::from_str("this field is required"));
            return;
        }
        match self.step {
            Step::Name => {
                self.name = t;
                self.input = String::new();
                self.step = Step::RootId;
            },
            Step::RootId => {
                self.root_id = t;
                self.input = String::new();
                self.step = Step::SelectOrigin;
            },
            Step::Field(i) => {
                if i < self.fields.len() {
                    let key = String::from_str(self.fields[i].key);
                    self.values.insert(key, self.input.clone());
                }
                if i < self.fields.len() && i + 1 < self.fields.len() {
                    self.input = String::new();
                    self.step = Step::Field(i + 1);
                } else {
                    self.save_path = cat(self.name.as_str(), ".toml");
                    self.input = self.save_path.clone();
                    self.step = Step::SavePath;
                }
            },
            Step::SavePath => {
                self.save_path = t;
                self.input = String::new();
                self.step = Step::Confirm;
            },
            _ => {},
        }
    }

    /// The keys of the origin list: up and down move (without wrapping), Enter chooses the
    /// kind under the cursor and moves on to its first field, Esc cancels.
    pub fn handle_select_origin(&mut self, key: Key)
        ensures
            select_effect(*old(self), key, *final(self)),
    {
        match key {
            Key::Esc => self.cancel(),
            Key::Up => {
                self.origin_idx = self.origin_idx.saturating_sub(1);
            },
            Key::Down => {
                self.origin_idx = if self.origin_idx < KIND_COUNT - 1 { self.origin_idx + 1 } else { KIND_COUNT - 1 };
            },
            Key::Enter => {
                let kind = OriginKind::at(self.origin_idx);
                self.origin_kind = Some(kind);
                self.fields = kind.fields();
                self.input = String::new();
                self.step = Step::Field(0);
            },
            _ => {},
        }
    }

    /// The keys of the last step: Enter asks for the config to be saved, Esc cancels.
    pub fn handle_confirm(&mut self, key: Key) -> (r: WizardAction)
        ensures
            confirm_effect(*old(self), key, *final(self), r),
    {
        match key {
            Key::Esc => {
                self.cancel();
                WizardAction::Nothing
            },
            Key::Enter => {
                let kind = match self.origin_kind {
                    Some(k) => k,
                    None => {
                        self.error = Some(String::from_str("no origin type selected"));
                        return WizardAction::Nothing;
                    },
                };
                let origin_config = kind.build(&self.values);
                let root_id = if self.root_id.as_str().unicode_len() == 0 {
                    ObjectId::root()
                } else {
                    ObjectId::new(self.root_id.clone())
                };
                let config = VaultConfig::new(self.name.clone(), root_id, origin_config);
                WizardAction::Save(config, self.save_path.clone())
            },
            _ => WizardAction::Nothing,
        }
    }

    /// After the config was saved (or not): the wizard closes with the path, or shows why.
    pub fn finish_save(&mut self, path: String, result: Result<(), String>)
        ensures
            result is Ok ==> !final(self).running && (final(self).outcome matches Some(p) && p@ == path@),
            result matches Err(e) ==> final(self).running == old(self).running && (final(self).error matches Some(m)
                && m@ == "failed to save: "@ + e@),
    {
        match result {
            Ok(()) => {
                self.outcome = Some(path);
                self.running = false;
            },
            Err(e) => {
                self.error = Some(cat("failed to save: ", e.as_str()));
            },
        }
    }

    /// Takes the completions found for the input: none is an error, one replaces the input,
    /// several extend the input to their common prefix (when that is longer) and are offered.
    pub fn apply_completion(&mut self, matches: Vec<String>)
        ensures
            matches@.len() == 0 ==> (final(self).error matches Some(e) && e@ == "no matches for '"@ + old(self).input@ + "'"@)
                && final(self).input == old(self).input,
            matches@.len() == 1 ==> final(self).input == matches@[0],
            matches@.len() > 1 ==> {
                let common = prefix_of_all(matches@[0]@, matches@.subrange(1, matches@.len() as int).map_values(|s: String| s@));
                &&& final(self).input@ == if common.len() > old(self).input@.len() { common } else { old(self).input@ }
                &&& final(self).suggestions@ == matches@
            },
    {
        if matches.len() == 0 {
            self.error = Some(cat3_q("no matches for '", self.input.as_str(), "'"));
            return;
        }
        if matches.len() == 1 {
            self.input = matches[0].clone();
            return;
        }
        let common = longest_common_prefix(&matches);
        if common.as_str().unicode_len() > self.input.as_str().unicode_len() {
            self.input = common;
        }
        self.suggestions = matches;
    }

    /// Types into the current text step: Esc cancels, Enter commits, Tab asks for path
    /// completion where the field offers it; any key but Tab drops the offered completions.
    pub fn handle_text_input(&mut self, key: Key) -> (r: WizardAction)
        ensures
            text_effect(*old(self), key, *final(self), r),
    {
        if key != Key::Tab {
            self.suggestions = Vec::new();
        }
        match key {
            Key::Esc => {
                self.cancel();
                WizardAction::Nothing
            },
            Key::Backspace => {
                pop_char(&mut self.input);
                WizardAction::Nothing
            },
            Key::Char(c) => {
                push_char(&mut self.input, c);
                WizardAction::Nothing
            },
            Key::Enter => {
                self.commit_text_input();
                WizardAction::Nothing
            },
            Key::Tab => {
                match self.current_field() {
                    Some(f) => if f.path_completable {
                        WizardAction::Complete
                    } else {
                        WizardAction::Nothing
                    },
                    None => WizardAction::Nothing,
                }
            },
            _ => WizardAction::Nothing,
        }
    }

    /// Applies a key press to the wizard: the error is cleared, then the step decides (see
    /// `cleared`); only a refused answer or a missing origin kind leaves an error behind.
    pub fn handle_key_event(&mut self, key: Key) -> (r: WizardAction)
        ensures
            match old(self).step {
                Step::SelectOrigin => r is Nothing && select_effect(cleared(*old(self)), key, *final(self)),
                Step::Confirm => confirm_effect(cleared(*old(self)), key, *final(self), r),
                _ => text_effect(cleared(*old(self)), key, *final(self), r),
            },
            final(self).error is Some <==> key == Key::Enter && match old(self).step {
                Step::SelectOrigin => false,
                Step::Confirm => old(self).origin_kind is None,
                _ => required_and_empty(old(self).step, old(self).fields@, old(self).input@),
            },
    {
        self.error = None;
        match self.step {
            Step::SelectOrigin => {
                self.handle_select_origin(key);
                WizardAction::Nothing
            },
            Step::Confirm => self.handle_confirm(key),
            _ => self.handle_text_input(key),
        }
    }
}

/// `a + b + c`, as a new string.
fn cat3_q(a: &str, b: &str, c: &str) -> (r: String)
    ensures
        r@ == a@ + b@ + c@,
{
    crate::text::cat3(a, b, c)
}

/// Where completion looks for `input`'s last component, and which prefix it completes: a
/// blank input or one ending in `/` lists that directory (`.` for blank) whole; otherwise the
/// text after the last `/` is the prefix, looked for in what precedes that `/` (the current
/// directory when there is none, `/` when it is the root).
pub open spec fn completion_query_spec(input: Seq<char>) -> (Seq<char>, bool, Seq<char>) {
    if input.len() == 0 {
        ("."@, true, Seq::empty())
    } else if input.last() == '/' {
        (input, false, Seq::empty())
    } else if exists|j: int| 0 <= j < input.len() && input[j] == '/' {
        let j = choose|j: int| 0 <= j < input.len() && input[j] == '/' && forall|k: int| j < k < input.len() ==> input[k] != '/';
        let parent = crate::origin_http::trim_slashes_end(input.subrange(0, j));
        let prefix = input.subrange(j + 1, input.len() as int);
        if parent.len() == 0 {
            (seq!['/'], false, prefix)
        } else {
            (parent, false, prefix)
        }
    } else {
        ("."@, true, input)
    }
}

/// Where completion looks for `input`'s last component (see `completion_query_spec`):
/// the directory, whether it is the implicit current directory, and the prefix.
pub fn completion_query(input: &str) -> (r: (String, bool, String))
    ensures
        (r.0@, r.1, r.2@) == completion_query_spec(input@),
{
    let v = chars_of(input);
    if v.len() == 0 {
        return (String::from_str("."), true, String::new());
    }
    if v[v.len() - 1] == '/' {
        return (String::from_str(input), false, String::new());
    }
    let mut j = v.len();
    while j > 0 && v[j - 1] != '/'
        invariant
            j <= v@.len(),
            v@ == input@,
            forall|k: int| j <= k < v@.len() ==> v@[k] != '/',
        decreases j,
    {
        j = j - 1;
    }
    if j == 0 {
        assert(!exists|k: int| 0 <= k < input@.len() && input@[k] == '/');
        return (String::from_str("."), true, String::from_str(input));
    }
    let slash = j - 1;
    assert((choose|k: int| 0 <= k < input@.len() && input@[k] == '/' && forall|m: int| k < m < input@.len() ==> input@[m] != '/') == slash) by {
        assert(input@[slash as int] == '/');
        let c = choose|k: int| 0 <= k < input@.len() && input@[k] == '/' && forall|m: int| k < m < input@.len() ==> input@[m] != '/';
        if c < slash {
        } else if c > slash {
        }
    }
    let mut end = slash;
    assert(v@.subrange(0, end as int) =~= v@.subrange(0, slash as int));
    while end > 0 && v[end - 1] == '/'
        invariant
            end <= slash < v@.len(),
            crate::origin_http::trim_slashes_end(v@.subrange(0, slash as int)) == crate::origin_http::trim_slashes_end(v@.subrange(0, end as int)),
        decreases end,
    {
        assert(v@.subrange(0, end - 1) =~= v@.subrange(0, end as int).drop_last());
        end = end - 1;
    }
    let prefix = substring(&v, slash + 1, v.len());
    if end == 0 {
        let root = vec!['/'];
        (string_of(&root), false, prefix)
    } else {
        (substring(&v, 0, end), false, prefix)
    }
}

/// The completions offered among the directory entries `entries` (name, and whether it is a
/// directory): those whose name starts with `prefix`, written as a path under `dir` (or bare
/// for the implicit current directory), a directory with a trailing `/`.
pub open spec fn candidates(dir: Seq<char>, dir_is_dot: bool, prefix: Seq<char>, entries: Seq<(Seq<char>, bool)>) -> Seq<Seq<char>>
    decreases entries.len(),
{
    if entries.len() == 0 {
        Seq::empty()
    } else {
        let rest = candidates(dir, dir_is_dot, prefix, entries.drop_last());
        let (name, is_dir) = entries.last();
        if prefix.len() <= name.len() && name.subrange(0, prefix.len() as int) == prefix {
            let full = if dir_is_dot { name } else { crate::origin_fs::path_join(dir, name) };
            rest.push(if is_dir { full.push('/') } else { full })
        } else {
            rest
        }
    }
}

/// The views of directory entries.
pub open spec fn entry_views(entries: Seq<(String, bool)>) -> Seq<(Seq<char>, bool)> {
    entries.map_values(|e: (String, bool)| (e.0@, e.1))
}

/// The completions offered among `entries`, sorted (see `candidates`).
pub fn suggestions_from(dir: &str, dir_is_dot: bool, prefix: &str, entries: &Vec<(String, bool)>) -> (r: Vec<String>)
    ensures
        crate::order::views(r@) == candidates(dir@, dir_is_dot, prefix@, entry_views(entries@)).sort_by(
            |a: Seq<char>, b: Seq<char>| crate::order::lex_le(a, b),
        ),
{
    let p = chars_of(prefix);
    let mut found: Vec<String> = Vec::new();
    let mut i: usize = 0;
    while i < entries.len()
        invariant
            i <= entries@.len(),
            p@ == prefix@,
            crate::order::views(found@) == candidates(dir@, dir_is_dot, prefix@, entry_views(entries@).subrange(0, i as int)),
        decreases entries.len() - i,
    {
        assert(entry_views(entries@).subrange(0, i + 1).drop_last() =~= entry_views(entries@).subrange(0, i as int));
        let name = chars_of(entries[i].0.as_str());
        if p.len() <= name.len() && crate::text::matches_at(&name, &p, 0) {
            assert(name@.subrange(0, p@.len() as int) == p@);
            let mut full = if dir_is_dot {
                entries[i].0.clone()
            } else {
                crate::config::join(dir, entries[i].0.as_str())
            };
            if entries[i].1 {
                push_char(&mut full, '/');
            }
            let ghost before = crate::order::views(found@);
            found.push(full);
            assert(crate::order::views(found@) =~= before.push(full@));
        } else {
            assert(!(p@.len() <= name@.len() && name@.subrange(0, p@.len() as int) == p@));
        }
        i = i + 1;
    }
    assert(entry_views(entries@).subrange(0, i as int) =~= entry_views(entries@));
    crate::order::sort_strings(found)
}


/// Whether the step is past the root id (so a root id typed shows in the summary).
pub open spec fn past_root_id(step: Step) -> bool {
    step is SelectOrigin || step is Field || step is SavePath || step is Confirm
}

/// The summary lines of the answers to `keys` found in `values`: `  key: value`, in order.
pub open spec fn value_lines(keys: Seq<Seq<char>>, values: Map<Seq<char>, Seq<char>>) -> Seq<Seq<char>>
    decreases keys.len(),
{
    if keys.len() == 0 {
        Seq::empty()
    } else {
        let rest = value_lines(keys.drop_last(), values);
        let k = keys.last();
        if values.contains_key(k) {
            rest.push("  "@ + k + ": "@ + values[k])
        } else {
            rest
        }
    }
}

/// What the wizard has gathered so far, a line each: the name, the root id once past it, the
/// origin kind with the answers given to its fields, and, when confirming, where it is saved.
pub open spec fn summary(app: &App) -> Seq<Seq<char>> {
    (if app.name@.len() > 0 { seq!["name: "@ + app.name@] } else { Seq::empty() })
        + (if past_root_id(app.step) && app.root_id@.len() > 0 { seq!["root_id: "@ + app.root_id@] } else { Seq::empty() })
        + (match app.origin_kind {
            Some(k) => seq!["origin: "@ + k.label_spec()] + value_lines(field_keys(k), app.values@),
            None => Seq::empty(),
        })
        + (if app.step == Step::Confirm && app.save_path@.len() > 0 { seq!["save to: "@ + app.save_path@] } else { Seq::empty() })
}

/// The prompt over the input at a typing step: the field's label at a field's step (`field`
/// when the step points past the fields); none for choosing the kind and confirming.
pub open spec fn prompt_spec(app: &App) -> Option<Seq<char>> {
    match app.step {
        Step::Name => Some("vault name"@),
        Step::RootId => Some("root id (optional, default '/')"@),
        Step::Field(i) => Some(if i < app.fields@.len() { app.fields@[i as int].label@ } else { "field"@ }),
        Step::SavePath => Some("save config to"@),
        _ => None,
    }
}

/// The line under the wizard: the error, in the error style; else the completions on offer;
/// else the keys, with Tab's path completion where the field has it.
pub open spec fn footer_spec(app: &App) -> (Seq<char>, bool) {
    match app.error {
        Some(e) => ("error: "@ + e@, true),
        None => if app.suggestions@.len() > 0 {
            ("tab: "@ + joined_with(crate::order::views(app.suggestions@), "  "@), false)
        } else if match app.step {
            Step::Field(i) => i < app.fields@.len() && app.fields@[i as int].path_completable,
            _ => false,
        } {
            ("enter confirm · esc cancel · tab complete path"@, false)
        } else {
            ("enter confirm · esc cancel"@, false)
        },
    }
}

/// `items` joined with `sep` between each two.
pub open spec fn joined_with(items: Seq<Seq<char>>, sep: Seq<char>) -> Seq<char>
    decreases items.len(),
{
    if items.len() == 0 {
        Seq::empty()
    } else if items.len() == 1 {
        items[0]
    } else {
        joined_with(items.drop_last(), sep) + sep + items.last()
    }
}

impl App {
    /// What the wizard has gathered so far (see `summary`).
    pub fn summary_lines(&self) -> (r: Vec<String>)
        ensures
            crate::order::views(r@) == summary(self),
    {
        let mut lines: Vec<String> = Vec::new();
        let ghost a = if self.name@.len() > 0 { seq!["name: "@ + self.name@] } else { Seq::<Seq<char>>::empty() };
        if self.name.as_str().unicode_len() > 0 {
            lines.push(cat("name: ", self.name.as_str()));
        }
        assert(crate::order::views(lines@) =~= a);
        let past = match self.step {
            Step::SelectOrigin | Step::Field(_) | Step::SavePath | Step::Confirm => true,
            _ => false,
        };
        let ghost b = if past_root_id(self.step) && self.root_id@.len() > 0 { seq!["root_id: "@ + self.root_id@] } else { Seq::<Seq<char>>::empty() };
        if past && self.root_id.as_str().unicode_len() > 0 {
            lines.push(cat("root_id: ", self.root_id.as_str()));
        }
        assert(crate::order::views(lines@) =~= a + b);
        let ghost c = match self.origin_kind {
            Some(k) => seq!["origin: "@ + k.label_spec()] + value_lines(field_keys(k), self.values@),
            None => Seq::<Seq<char>>::empty(),
        };
        if let Some(kind) = self.origin_kind {
            lines.push(cat("origin: ", kind.label()));
            let fs = kind.fields();
            let ghost keys = field_keys(kind);
            let ghost start = crate::order::views(lines@);
            assert(start =~= a + b + seq!["origin: "@ + kind.label_spec()]);
            let mut i: usize = 0;
            assert(keys.subrange(0, 0) =~= Seq::<Seq<char>>::empty());
            while i < fs.len()
                invariant
                    i <= fs@.len(),
                    fs@.len() == keys.len(),
                    keys == field_keys(kind),
                    forall|j: int| 0 <= j < fs@.len() ==> (#[trigger] fs@[j]).key@ == keys[j],
                    crate::order::views(lines@) == start + value_lines(keys.subrange(0, i as int), self.values@),
                decreases fs.len() - i,
            {
                assert(keys.subrange(0, i + 1).drop_last() =~= keys.subrange(0, i as int));
                let key = String::from_str(fs[i].key);
                assert(key@ == keys[i as int]);
                match self.values.get(&key) {
                    Some(v) => {
                        let ghost before = crate::order::views(lines@);
                        lines.push(cat3_owned("  ", fs[i].key, ": ", v.as_str()));
                        assert(crate::order::views(lines@) =~= before.push("  "@ + keys[i as int] + ": "@ + v@));
                    },
                    None => {},
                }
                i = i + 1;
            }
            assert(keys.subrange(0, keys.len() as int) =~= keys);
        }
        assert(crate::order::views(lines@) =~= a + b + c);
        let ghost d = if self.step == Step::Confirm && self.save_path@.len() > 0 { seq!["save to: "@ + self.save_path@] } else { Seq::<Seq<char>>::empty() };
        let confirming = match self.step {
            Step::Confirm => true,
            _ => false,
        };
        if confirming && self.save_path.as_str().unicode_len() > 0 {
            lines.push(cat("save to: ", self.save_path.as_str()));
        }
        assert(crate::order::views(lines@) =~= a + b + c + d);
        lines
    }

    /// How many rows the step area takes: one per origin kind (and the borders) when choosing
    /// one, so every kind shows without scrolling; one input line (and the borders) otherwise.
    pub fn step_area_height(&self) -> (r: u16)
        ensures
            r as int == if self.step is SelectOrigin { KIND_COUNT + 2 } else { 3 },
    {
        match self.step {
            Step::SelectOrigin => KIND_COUNT as u16 + 2,
            _ => 3,
        }
    }

    /// The prompt over the input (see `prompt_spec`).
    pub fn prompt(&self) -> (r: Option<&'static str>)
        ensures
            match r {
                Some(p) => prompt_spec(self) == Some(p@),
                None => prompt_spec(self) is None,
            },
    {
        match self.step {
            Step::Name => Some("vault name"),
            Step::RootId => Some("root id (optional, default '/')"),
            Step::Field(_) => Some(match self.current_field() {
                Some(f) => f.label,
                None => "field",
            }),
            Step::SavePath => Some("save config to"),
            _ => None,
        }
    }

    /// The line under the wizard and whether it is an error (see `footer_spec`).
    pub fn footer(&self) -> (r: (String, bool))
        ensures
            (r.0@, r.1) == footer_spec(self),
    {
        if let Some(e) = &self.error {
            return (cat("error: ", e.as_str()), true);
        }
        if self.suggestions.len() > 0 {
            let mut text = String::from_str("tab: ");
            let ghost sv = crate::order::views(self.suggestions@);
            let mut i: usize = 0;
            while i < self.suggestions.len()
                invariant
                    i <= self.suggestions@.len(),
                    sv == crate::order::views(self.suggestions@),
                    text@ == "tab: "@ + joined_with(sv.subrange(0, i as int), "  "@),
                decreases self.suggestions.len() - i,
            {
                assert(sv.subrange(0, i + 1).drop_last() =~= sv.subrange(0, i as int));
                if i > 0 {
                    text = text.concat("  ");
                }
                text = text.concat(self.suggestions[i].as_str());
                proof {
                    if i == 0 {
                        assert(sv.subrange(0, 1)[0] == sv[0]);
                    }
                }
                assert(text@ =~= "tab: "@ + joined_with(sv.subrange(0, i + 1), "  "@));
                i = i + 1;
            }
            assert(sv.subrange(0, sv.len() as int) =~= sv);
            return (text, false);
        }
        let completable = match self.current_field() {
            Some(f) => f.path_completable,
            None => false,
        };
        if completable {
            (String::from_str("enter confirm · esc cancel · tab complete path"), false)
        } else {
            (String::from_str("enter confirm · esc cancel"), false)
        }
    }
}

/// `a + b + c + d`, as a new string.
fn cat3_owned(a: &str, b: &str, c: &str, d: &str) -> (r: String)
    ensures
        r@ == a@ + b@ + c@ + d@,
{
    crate::text::cat3(a, b, c).concat(d)
}

} // verus!
