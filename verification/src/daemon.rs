//! The daemon's request checks: who may call it, which object ids it will serve, what a
//! refused request is answered, and how its settings are chosen.

use vstd::prelude::*;
use crate::error::VaultError;
use crate::object::ObjectId;
use crate::opener::ascii_lower;
use crate::text::{cat, cat3, chars_of, string_of};
use crate::wrap::is_space;

verus! {

/// How callers of the daemon must identify themselves.
#[derive(Debug, Clone, PartialEq, Eq)]
pub enum AuthConfig {
    /// Anyone may call.
    NoAuth,
    /// Callers present `Authorization: Bearer <token>` with this token.
    Bearer {
        /// The shared secret.
        token: String,
    },
}

impl Default for AuthConfig {
    /// No authentication.
    fn default() -> (r: AuthConfig)
        ensures
            r is NoAuth,
    {
        AuthConfig::NoAuth
    }
}

/// Who a request was authenticated as.
#[derive(Debug, Clone, PartialEq, Eq)]
pub struct Identity {
    /// The identity's name.
    pub name: String,
}

impl Identity {
    /// An identity named `name`.
    pub fn new(name: &str) -> (r: Identity)
        ensures
            r.name@ == name@,
    {
        Identity { name: String::from_str(name) }
    }

    /// The identity of a caller of an open daemon.
    pub fn anonymous() -> (r: Identity)
        ensures
            r.name@ == "anonymous"@,
    {
        Identity::new("anonymous")
    }
}

/// Why a request was not authenticated.
#[derive(Debug, Clone, Copy, PartialEq, Eq)]
pub enum AuthError {
    /// No bearer credentials were presented.
    Missing,
    /// The presented token is not the configured one.
    Invalid,
}

impl AuthError {
    /// The message of the refusal.
    pub open spec fn message_spec(self) -> Seq<char> {
        match self {
            AuthError::Missing => "missing credentials"@,
            AuthError::Invalid => "invalid credentials"@,
        }
    }

    /// The HTTP status and message a refused request is answered with (always 401, with a
    /// `WWW-Authenticate: Bearer` challenge).
    pub fn response(&self) -> (r: (u16, String))
        ensures
            r.0 == 401,
            r.1@ == self.message_spec(),
    {
        match self {
            AuthError::Missing => (401, String::from_str("missing credentials")),
            AuthError::Invalid => (401, String::from_str("invalid credentials")),
        }
    }
}

/// Whether `scheme` is `bearer`, ignoring ASCII case.
pub open spec fn is_bearer_scheme(scheme: Seq<char>) -> bool {
    scheme.len() == 6 && forall|i: int| 0 <= i < 6 ==> ascii_lower(#[trigger] scheme[i]) == "bearer"@[i]
}

/// The index of the first space in `s`, if any.
pub open spec fn first_space(s: Seq<char>) -> Option<int> {
    if exists|i: int| 0 <= i < s.len() && s[i] == ' ' {
        Some(choose|i: int| 0 <= i < s.len() && s[i] == ' ' && forall|j: int| 0 <= j < i ==> s[j] != ' ')
    } else {
        None
    }
}

/// `s` without its leading white space.
pub open spec fn trim_start(s: Seq<char>) -> Seq<char>
    decreases s.len(),
{
    if s.len() > 0 && is_space(s[0]) {
        trim_start(s.subrange(1, s.len() as int))
    } else {
        s
    }
}

/// The token of an `Authorization` header value: what follows the first space, leading
/// white space dropped, provided what precedes it is the `bearer` scheme in any case.
pub open spec fn bearer_of(value: Seq<char>) -> Option<Seq<char>> {
    match first_space(value) {
        Some(i) => if is_bearer_scheme(value.subrange(0, i)) {
            Some(trim_start(value.subrange(i + 1, value.len() as int)))
        } else {
            None
        },
        None => None,
    }
}

/// The bearer token of an `Authorization` header value, if it carries one.
pub fn bearer_token(value: &str) -> (r: Option<String>)
    ensures
        match r {
            Some(t) => bearer_of(value@) == Some(t@),
            None => bearer_of(value@) is None,
        },
{
    let v = chars_of(value);
    let mut i: usize = 0;
    while i < v.len() && v[i] != ' '
        invariant
            i <= v@.len(),
            forall|j: int| 0 <= j < i ==> v@[j] != ' ',
        decreases v.len() - i,
    {
        i = i + 1;
    }
    if i == v.len() {
        assert(!(exists|k: int| 0 <= k < value@.len() && value@[k] == ' '));
        return None;
    }
    let ghost fs = first_space(value@);
    assert(fs == Some(i as int)) by {
        assert(v@[i as int] == ' ');
        let c = choose|k: int| 0 <= k < value@.len() && value@[k] == ' ' && forall|j: int| 0 <= j < k ==> value@[j] != ' ';
        if c < i {
        } else if c > i {
            assert(value@[i as int] != ' ');
        }
    }
    if i != 6 {
        assert(value@.subrange(0, i as int).len() != 6);
        return None;
    }
    proof {
        reveal_strlit("bearer");
    }
    let word = ['b', 'e', 'a', 'r', 'e', 'r'];
    let mut k: usize = 0;
    while k < 6
        invariant
            i == 6,
            i < v@.len(),
            v@ == value@,
            first_space(value@) == Some(6int),
            k <= 6,
            word@ == "bearer"@,
            forall|j: int| 0 <= j < k ==> ascii_lower(#[trigger] v@[j]) == "bearer"@[j],
        decreases 6 - k,
    {
        let c = v[k];
        let lower = if 'A' <= c && c <= 'Z' {
            ((c as u32) + 32) as u8 as char
        } else {
            c
        };
        assert(lower == ascii_lower(c)) by {
            if 'A' <= c && c <= 'Z' {
                assert(((c as u32) + 32) as u8 as char == ((c as u32) + 32) as char);
            }
        }
        if lower != word[k] {
            assert(value@.subrange(0, 6)[k as int] == v@[k as int]);
            assert(!is_bearer_scheme(value@.subrange(0, 6)));
            return None;
        }
        k = k + 1;
    }
    assert(is_bearer_scheme(value@.subrange(0, 6))) by {
        assert forall|j: int| 0 <= j < 6 implies ascii_lower(#[trigger] value@.subrange(0, 6)[j]) == "bearer"@[j] by {
            assert(value@.subrange(0, 6)[j] == v@[j]);
        }
    }
    let mut s: usize = i + 1;
    while s < v.len() && is_space_char(v[s])
        invariant
            i + 1 <= s <= v@.len(),
            i == 6,
            v@ == value@,
            first_space(value@) == Some(6int),
            is_bearer_scheme(value@.subrange(0, 6)),
            trim_start(v@.subrange(i + 1, v@.len() as int)) == trim_start(v@.subrange(s as int, v@.len() as int)),
        decreases v.len() - s,
    {
        assert(v@.subrange(s + 1, v@.len() as int) =~= v@.subrange(s as int, v@.len() as int).subrange(1, v@.len() - s));
        s = s + 1;
    }
    let mut out: Vec<char> = Vec::new();
    let mut t = s;
    while t < v.len()
        invariant
            s <= t <= v@.len(),
            i + 1 <= s,
            i == 6,
            v@ == value@,
            first_space(value@) == Some(6int),
            is_bearer_scheme(value@.subrange(0, 6)),
            trim_start(v@.subrange(i + 1, v@.len() as int)) == trim_start(v@.subrange(s as int, v@.len() as int)),
            s == v@.len() || !is_space(v@[s as int]),
            out@ == v@.subrange(s as int, t as int),
        decreases v.len() - t,
    {
        out.push(v[t]);
        t = t + 1;
        assert(out@ =~= v@.subrange(s as int, t as int));
    }
    Some(string_of(&out))
}

/// Whether `c` is white space (see `is_space`).
pub fn is_space_char(c: char) -> (b: bool)
    ensures
        b == is_space(c),
{
    let n = c as u32;
    (9 <= n && n <= 13) || n == 32 || n == 0x85 || n == 0xA0 || n == 0x1680 || (0x2000 <= n && n
        <= 0x200A) || n == 0x2028 || n == 0x2029 || n == 0x202F || n == 0x205F || n == 0x3000
}

/// Compares two byte strings in time that depends on their length only, so a wrong token
/// does not reveal how much of it was right.
pub fn constant_time_eq(a: &[u8], b: &[u8]) -> (r: bool)
    ensures
        r == (a@ == b@),
{
    if a.len() != b.len() {
        return false;
    }
    let mut diff: u8 = 0;
    let mut i: usize = 0;
    while i < a.len()
        invariant
            a@.len() == b@.len(),
            i <= a@.len(),
            diff == 0 <==> forall|j: int| 0 <= j < i ==> a@[j] == b@[j],
        decreases a.len() - i,
    {
        let x = a[i];
        let y = b[i];
        let d = diff;
        assert((d | (x ^ y)) == 0 <==> (d == 0 && x == y)) by (bit_vector);
        diff = d | (x ^ y);
        i = i + 1;
    }
    if diff == 0 {
        assert(a@ =~= b@);
        true
    } else {
        false
    }
}

impl AuthConfig {
    /// Checks a request's `Authorization` header value (`None` when it has none).
    pub fn authenticate(&self, authorization: Option<&str>) -> (r: Result<Identity, AuthError>)
        ensures
            match self {
                AuthConfig::NoAuth => r matches Ok(id) && id.name@ == "anonymous"@,
                AuthConfig::Bearer { token } => match authorization {
                    None => r == Err::<Identity, AuthError>(AuthError::Missing),
                    Some(v) => match bearer_of(v@) {
                        None => r == Err::<Identity, AuthError>(AuthError::Missing),
                        Some(t) => if t == token@ {
                            r matches Ok(id) && id.name@ == "bearer"@
                        } else {
                            r == Err::<Identity, AuthError>(AuthError::Invalid)
                        },
                    },
                },
            },
    {
        match self {
            AuthConfig::NoAuth => Ok(Identity::anonymous()),
            AuthConfig::Bearer { token } => {
                let value = match authorization {
                    Some(v) => v,
                    None => return Err(AuthError::Missing),
                };
                let presented = match bearer_token(value) {
                    Some(t) => t,
                    None => return Err(AuthError::Missing),
                };
                let pc = chars_of(presented.as_str());
                let tc = chars_of(token.as_str());
                if chars_equal(&pc, &tc) {
                    Ok(Identity::new("bearer"))
                } else {
                    Err(AuthError::Invalid)
                }
            },
        }
    }

    /// A short description of the scheme, for the start-up log.
    pub fn describe(&self) -> (r: &'static str)
        ensures
            r@ == (if self is NoAuth { "none"@ } else { "bearer token"@ }),
    {
        match self {
            AuthConfig::NoAuth => "none",
            AuthConfig::Bearer { .. } => "bearer token",
        }
    }

    /// Whether the daemon accepts requests without credentials.
    pub fn is_open(&self) -> (b: bool)
        ensures
            b == (self is NoAuth),
    {
        matches!(self, AuthConfig::NoAuth)
    }
}

/// Compares two character vectors in time that depends on their lengths only.
fn chars_equal(a: &Vec<char>, b: &Vec<char>) -> (r: bool)
    ensures
        r == (a@ == b@),
{
    if a.len() != b.len() {
        return false;
    }
    let mut same = true;
    let mut i: usize = 0;
    while i < a.len()
        invariant
            a@.len() == b@.len(),
            i <= a@.len(),
            same <==> forall|j: int| 0 <= j < i ==> a@[j] == b@[j],
        decreases a.len() - i,
    {
        same = same && a[i] == b[i];
        i = i + 1;
    }
    if same {
        assert(a@ =~= b@);
    }
    same
}

/// The body of every error answer.
#[derive(Debug, Clone, PartialEq, Eq)]
pub struct ErrorBody {
    /// The message.
    pub error: String,
}

impl ErrorBody {
    /// A body carrying `message`.
    pub fn new(message: String) -> (r: ErrorBody)
        ensures
            r.error@ == message@,
    {
        ErrorBody { error: message }
    }
}

/// Why a request to the vault API failed.
#[derive(Debug, PartialEq, Eq)]
pub enum ApiError {
    /// No vault has this name.
    UnknownVault(String),
    /// The object id in the request is not one the daemon will serve.
    InvalidId(String),
    /// The daemon refuses every write.
    ReadOnly,
    /// The vault's origin failed.
    Vault(VaultError),
}

impl ApiError {
    /// The status of the answer.
    pub open spec fn status_spec(&self) -> u16 {
        match self {
            ApiError::UnknownVault(_) => 404,
            ApiError::InvalidId(_) => 400,
            ApiError::ReadOnly => 403,
            ApiError::Vault(VaultError::NotFound(_)) => 404,
            ApiError::Vault(_) => 500,
        }
    }

    /// The message of the answer. An origin's own failure is not passed on, since it can name a
    /// path on this host; a missing object is, being part of the protocol.
    pub open spec fn message_spec(&self) -> Seq<char> {
        match self {
            ApiError::UnknownVault(name) => "no vault named '"@ + name@ + "'"@,
            ApiError::InvalidId(reason) => reason@,
            ApiError::ReadOnly => "this daemon is serving read-only"@,
            ApiError::Vault(VaultError::NotFound(what)) => what@,
            ApiError::Vault(_) => "the vault's origin failed — see the daemon's log"@,
        }
    }

    /// The HTTP status and message the request is answered with.
    pub fn response(&self) -> (r: (u16, String))
        ensures
            r.0 == self.status_spec(),
            r.1@ == self.message_spec(),
    {
        match self {
            ApiError::UnknownVault(name) => (404, cat3("no vault named '", name.as_str(), "'")),
            ApiError::InvalidId(reason) => (400, reason.clone()),
            ApiError::ReadOnly => (403, String::from_str("this daemon is serving read-only")),
            ApiError::Vault(VaultError::NotFound(what)) => (404, what.clone()),
            ApiError::Vault(_) => (500, String::from_str("the vault's origin failed — see the daemon's log")),
        }
    }
}

/// `s` without its leading `/`s.
pub open spec fn strip_slashes(s: Seq<char>) -> Seq<char>
    decreases s.len(),
{
    if s.len() > 0 && s[0] == '/' {
        strip_slashes(s.subrange(1, s.len() as int))
    } else {
        s
    }
}

/// Whether `c` separates id segments (`/`, and `\` for ids meant for Windows hosts).
pub open spec fn is_separator(c: char) -> bool {
    c == '/' || c == '\\'
}

/// Whether a `..` segment of `s` starts at `i`.
pub open spec fn parent_segment_at(s: Seq<char>, i: int) -> bool {
    0 <= i && i + 2 <= s.len() && s[i] == '.' && s[i + 1] == '.' && (i == 0 || is_separator(s[i - 1]))
        && (i + 2 == s.len() || is_separator(s[i + 2]))
}

/// Whether some segment of `s`, split at `/` and `\`, is `..`.
pub open spec fn has_parent_segment(s: Seq<char>) -> bool {
    exists|i: int| #[trigger] parent_segment_at(s, i)
}

/// The id the daemon serves for the raw request path `raw`, or why it refuses it.
pub open spec fn object_id_spec(raw: Seq<char>) -> Result<Seq<char>, Seq<char>> {
    let relative = strip_slashes(raw);
    if relative.contains('\0') {
        Err("id contains a null byte"@)
    } else if has_parent_segment(relative) {
        Err("id '"@ + raw + "' escapes the vault"@)
    } else if raw.len() > 0 && raw[0] == '/' {
        Ok(seq!['/'] + relative)
    } else {
        Ok(relative)
    }
}

/// Stripping leading slashes leaves none, and stripping again changes nothing.
proof fn lemma_strip_slashes_stripped(s: Seq<char>)
    ensures
        strip_slashes(s).len() == 0 || strip_slashes(s)[0] != '/',
        strip_slashes(strip_slashes(s)) == strip_slashes(s),
    decreases s.len(),
{
    if s.len() > 0 && s[0] == '/' {
        lemma_strip_slashes_stripped(s.subrange(1, s.len() as int));
    }
}

/// An id the daemon serves is served as itself: passing it through again gives it back
/// unchanged. It never starts with two slashes, and none of its segments is `..`.
pub proof fn lemma_object_id_idempotent(raw: Seq<char>)
    requires
        object_id_spec(raw) is Ok,
    ensures
        ({
            let id = object_id_spec(raw)->Ok_0;
            &&& object_id_spec(id) == Ok::<Seq<char>, Seq<char>>(id)
            &&& !(id.len() >= 2 && id[0] == '/' && id[1] == '/')
            &&& !has_parent_segment(id)
        }),
{
    let rel = strip_slashes(raw);
    lemma_strip_slashes_stripped(raw);
    if raw.len() > 0 && raw[0] == '/' {
        let id = seq!['/'] + rel;
        assert(id.subrange(1, id.len() as int) =~= rel);
        assert(strip_slashes(id) == rel);
        assert forall|i: int| !#[trigger] parent_segment_at(id, i) by {
            if parent_segment_at(id, i) {
                assert(parent_segment_at(rel, i - 1));
            }
        }
    }
}

/// Turns the id part of a request path into an `ObjectId`, refusing anything that could climb
/// out of the vault (a `..` segment) or smuggle a null byte, and collapsing repeated leading
/// slashes into one.
pub fn object_id(raw: &str) -> (r: Result<ObjectId, ApiError>)
    ensures
        match object_id_spec(raw@) {
            Ok(id) => r matches Ok(o) && o@ == id,
            Err(reason) => r matches Err(ApiError::InvalidId(m)) && m@ == reason,
        },
{
    let v = chars_of(raw);
    let mut start: usize = 0;
    assert(v@.subrange(0, v@.len() as int) =~= v@);
    while start < v.len() && v[start] == '/'
        invariant
            start <= v@.len(),
            v@ == raw@,
            strip_slashes(v@) == strip_slashes(v@.subrange(start as int, v@.len() as int)),
        decreases v.len() - start,
    {
        assert(v@.subrange(start + 1, v@.len() as int) =~= v@.subrange(start as int, v@.len() as int).subrange(1, v@.len() - start));
        start = start + 1;
    }
    let mut rel: Vec<char> = Vec::new();
    let mut k = start;
    while k < v.len()
        invariant
            start <= k <= v@.len(),
            v@ == raw@,
            strip_slashes(v@) == strip_slashes(v@.subrange(start as int, v@.len() as int)),
            start == v@.len() || v@[start as int] != '/',
            rel@ == v@.subrange(start as int, k as int),
        decreases v.len() - k,
    {
        rel.push(v[k]);
        k = k + 1;
        assert(rel@ =~= v@.subrange(start as int, k as int));
    }
    assert(rel@ == strip_slashes(raw@));
    let n = rel.len();
    let mut i: usize = 0;
    while i < n
        invariant
            n == rel@.len(),
            rel@ == strip_slashes(raw@),
            v@ == raw@,
            i <= n,
            forall|j: int| 0 <= j < i ==> rel@[j] != '\0',
        decreases n - i,
    {
        if rel[i] == '\0' {
            assert(rel@.contains('\0'));
            return Err(ApiError::InvalidId(String::from_str("id contains a null byte")));
        }
        i = i + 1;
    }
    assert(!rel@.contains('\0'));
    let mut p: usize = 0;
    while n >= 2 && p <= n - 2
        invariant
            n == rel@.len(),
            rel@ == strip_slashes(raw@),
            !rel@.contains('\0'),
            v@ == raw@,
            forall|j: int| 0 <= j < p ==> !parent_segment_at(rel@, j),
        decreases n - p,
    {
        let before_ok = p == 0 || rel[p - 1] == '/' || rel[p - 1] == '\\';
        let after_ok = p + 2 == n || rel[p + 2] == '/' || rel[p + 2] == '\\';
        if rel[p] == '.' && rel[p + 1] == '.' && before_ok && after_ok {
            assert(parent_segment_at(rel@, p as int));
            return Err(ApiError::InvalidId(cat3("id '", raw, "' escapes the vault")));
        }
        p = p + 1;
    }
    assert(!has_parent_segment(rel@)) by {
        if has_parent_segment(rel@) {
            let j = choose|j: int| #[trigger] parent_segment_at(rel@, j);
            assert(j < p);
        }
    }
    if v.len() > 0 && v[0] == '/' {
        let mut out: Vec<char> = vec!['/'];
        crate::text::push_all(&mut out, &rel);
        Ok(ObjectId::new(string_of(&out)))
    } else {
        Ok(ObjectId::new(string_of(&rel)))
    }
}

/// The name of the daemon's config file in the config home.
pub const CONFIG_FILE_NAME: &'static str = "daemon_config.toml";

/// The address the daemon listens on unless told otherwise.
pub const DEFAULT_BIND: &'static str = "127.0.0.1:8080";

/// Command-line overrides. Every setting that also lives in the config file is an `Option`,
/// so "not passed" stays distinguishable from "passed the default".
#[derive(Debug, Default)]
pub struct Args {
    /// Config file to read.
    pub config: Option<String>,
    /// Directory scanned for vault configs.
    pub vaults: Option<String>,
    /// Address to listen on.
    pub bind: Option<String>,
    /// Refuse every write. Can only be turned on here, never off.
    pub read_only: bool,
    /// Require this bearer token, replacing whatever the file's `[auth]` says.
    pub token: Option<String>,
}

/// The settings a config file holds, each optional.
#[derive(Debug, Default)]
pub struct FileConfig {
    /// Directory scanned for vault configs.
    pub vaults_path: Option<String>,
    /// Address to listen on.
    pub bind: Option<String>,
    /// Refuse every write.
    pub read_only: Option<bool>,
    /// How callers must identify themselves.
    pub auth: Option<AuthConfig>,
}

/// The settings the daemon runs with.
#[derive(Debug)]
pub struct Config {
    /// Directory scanned for vault configs.
    pub vaults_path: String,
    /// Address to listen on.
    pub bind: String,
    /// Refuse every write.
    pub read_only: bool,
    /// How callers must identify themselves.
    pub auth: AuthConfig,
}

/// Where the daemon's config file is looked for by default: `daemon_config.toml` in the
/// nimbus config home.
pub fn default_config_path() -> (r: String)
    ensures
        exists|base: Seq<char>| r@ == crate::origin_fs::path_join(crate::config::config_home_under(base), "daemon_config.toml"@),
{
    let home = crate::config::config_home();
    let ghost base = choose|base: Seq<char>| home@ == crate::config::config_home_under(base);
    let r = crate::config::join(home.as_str(), CONFIG_FILE_NAME);
    assert(r@ == crate::origin_fs::path_join(crate::config::config_home_under(base), "daemon_config.toml"@));
    r
}

impl FileConfig {
    /// Whether this is the file written on first run: the vaults directory under the config
    /// home, the default address, writes allowed, no authentication.
    pub open spec fn is_initial(self) -> bool {
        &&& self.vaults_path matches Some(p) && exists|base: Seq<char>| p@ == crate::config::VaultConfig::dir_under(crate::config::config_home_under(base))
        &&& self.bind matches Some(b) && b@ == DEFAULT_BIND@
        &&& self.read_only == Some(false)
        &&& self.auth == Some(AuthConfig::NoAuth)
    }

    /// The file written on first run: every value what the daemon would have used anyway.
    pub fn initial() -> (r: FileConfig)
        ensures
            r.is_initial(),
    {
        FileConfig {
            vaults_path: Some(crate::config::VaultConfig::default_dir()),
            bind: Some(String::from_str(DEFAULT_BIND)),
            read_only: Some(false),
            auth: Some(AuthConfig::NoAuth),
        }
    }
}

/// The optional view of an optional string.
pub open spec fn opt_str(o: Option<String>) -> Option<Seq<char>> {
    match o {
        Some(s) => Some(s@),
        None => None,
    }
}

/// Whether neither the command line nor the file names a vaults directory.
pub open spec fn lacks_vaults(file: FileConfig, args: Args) -> bool {
    args.vaults is None && file.vaults_path is None
}

/// The error for a config with no vaults directory, read from `config_path`.
pub open spec fn no_vaults_message(config_path: Seq<char>) -> Seq<char> {
    "no vaults directory configured: set `vaults_path` in "@ + config_path + " or pass --vaults"@
}

/// Whether `c` is the file's settings with the command line's merged over them.
pub open spec fn merged(file: FileConfig, args: Args, c: Config) -> bool {
    &&& c.vaults_path@ == match opt_str(args.vaults) {
        Some(v) => v,
        None => opt_str(file.vaults_path)->Some_0,
    }
    &&& c.bind@ == match opt_str(args.bind) {
        Some(b) => b,
        None => match opt_str(file.bind) {
            Some(b) => b,
            None => DEFAULT_BIND@,
        },
    }
    &&& c.read_only == (args.read_only || file.read_only == Some(true))
    &&& c.auth == match args.token {
        Some(t) => AuthConfig::Bearer { token: t },
        None => match file.auth {
            Some(a) => a,
            None => AuthConfig::NoAuth,
        },
    }
}

impl Config {
    /// Combines the file's settings with the command line's, flags winning over the file and
    /// the file over the defaults. `read_only` is on if either side turns it on; `--token`
    /// replaces the file's `[auth]`. Without a vaults directory from either side there is no
    /// config.
    pub fn merge(file: FileConfig, args: &Args, config_path: &str) -> (r: Result<Config, String>)
        ensures
            lacks_vaults(file, *args) <==> r is Err,
            r matches Err(m) ==> m@ == no_vaults_message(config_path@),
            r matches Ok(c) ==> merged(file, *args, c),
    {
        let vaults_path = match &args.vaults {
            Some(v) => v.clone(),
            None => match file.vaults_path {
                Some(v) => v,
                None => {
                    return Err(cat3("no vaults directory configured: set `vaults_path` in ", config_path, " or pass --vaults"));
                },
            },
        };
        let auth = match &args.token {
            Some(t) => AuthConfig::Bearer { token: t.clone() },
            None => match file.auth {
                Some(a) => a,
                None => AuthConfig::NoAuth,
            },
        };
        let bind = match &args.bind {
            Some(b) => b.clone(),
            None => match file.bind {
                Some(b) => b,
                None => String::from_str(DEFAULT_BIND),
            },
        };
        let file_read_only = match file.read_only {
            Some(b) => b,
            None => false,
        };
        Ok(Config { vaults_path, bind, read_only: args.read_only || file_read_only, auth })
    }
}

impl Config {
    /// Which config file is read: the one passed with `--config` (then it must exist), else
    /// `daemon_config.toml` in the config home. Returns the path and whether it was passed.
    pub fn config_path(args: &Args) -> (r: (String, bool))
        ensures
            r.1 == args.config is Some,
            args.config matches Some(p) ==> r.0@ == p@,
            args.config is None ==> exists|base: Seq<char>| r.0@ == crate::origin_fs::path_join(crate::config::config_home_under(base), "daemon_config.toml"@),
    {
        match &args.config {
            Some(p) => (p.clone(), true),
            None => (default_config_path(), false),
        }
    }

    /// The daemon's settings, given what reading the config file at `path` gave (`loaded`:
    /// `None` when there is no file there; else the file's settings, or why they could not be
    /// read). A passed config file that does not exist is an error; with no file at the
    /// default path the first-run defaults are used, and the second value says to write them
    /// there. Either way the command line is then merged over the file (see `merge`).
    pub fn resolve(args: &Args, path: &str, explicit: bool, loaded: Option<Result<FileConfig, String>>) -> (r: Result<(Config, bool), String>)
        ensures
            match loaded {
                Some(Err(e)) => r == Err::<(Config, bool), String>(e),
                Some(Ok(file)) => if lacks_vaults(file, *args) {
                    r matches Err(e) && e@ == no_vaults_message(path@)
                } else {
                    r matches Ok((c, w)) && merged(file, *args, c) && !w
                },
                None => if explicit {
                    r matches Err(e) && e@ == "no config file at "@ + path@
                } else {
                    r matches Ok((c, w)) && w && exists|f: FileConfig| f.is_initial() && #[trigger] merged(f, *args, c)
                },
            },
    {
        let (file, first_run) = match loaded {
            Some(Err(e)) => return Err(e),
            Some(Ok(f)) => (f, false),
            None => {
                if explicit {
                    return Err(cat("no config file at ", path));
                }
                (FileConfig::initial(), true)
            },
        };
        match Config::merge(file, args, path) {
            Ok(c) => Ok((c, first_run)),
            Err(m) => Err(m),
        }
    }
}

/// The vault configs found so far while loading the vaults directory: each vault's name with
/// the config file that claimed it, in the order found.
pub struct VaultSources {
    /// (name, config file) of each vault, in the order found.
    pub claims: Vec<(String, String)>,
}

/// The claims as plain values.
pub open spec fn claim_views(c: Seq<(String, String)>) -> Seq<(Seq<char>, Seq<char>)> {
    c.map_values(|p: (String, String)| (p.0@, p.1@))
}

/// The message for two configs claiming one vault name.
pub open spec fn duplicate_claim_message(name: Seq<char>, previous: Seq<char>, path: Seq<char>) -> Seq<char> {
    "two vault configs claim the name '"@ + name + "': "@ + previous + " and "@ + path
}

impl VaultSources {
    /// No vaults found yet.
    pub fn new() -> (r: VaultSources)
        ensures
            r.claims@.len() == 0,
    {
        VaultSources { claims: Vec::new() }
    }

    /// Records that the config file `path` holds the vault `name`. A name another config file
    /// already claimed is fatal, naming both files (the first one found first), and nothing
    /// is recorded; two vaults cannot share a name in the daemon's routes.
    pub fn claim(&mut self, name: String, path: String) -> (r: Result<(), String>)
        ensures
            match r {
                Ok(()) => {
                    &&& forall|i: int| 0 <= i < old(self).claims@.len() ==> #[trigger] old(self).claims@[i].0@ != name@
                    &&& claim_views(final(self).claims@) == claim_views(old(self).claims@).push((name@, path@))
                },
                Err(m) => {
                    &&& exists|i: int| 0 <= i < old(self).claims@.len() && #[trigger] old(self).claims@[i].0@ == name@
                        && (forall|j: int| 0 <= j < i ==> old(self).claims@[j].0@ != name@)
                        && m@ == duplicate_claim_message(name@, old(self).claims@[i].1@, path@)
                    &&& final(self).claims@ == old(self).claims@
                },
            },
    {
        let target = chars_of(name.as_str());
        let mut i: usize = 0;
        while i < self.claims.len()
            invariant
                i <= self.claims@.len(),
                target@ == name@,
                forall|j: int| 0 <= j < i ==> #[trigger] self.claims@[j].0@ != name@,
            decreases self.claims.len() - i,
        {
            let c = chars_of(self.claims[i].0.as_str());
            if crate::text::chars_eq(&c, &target) {
                let m = cat3("two vault configs claim the name '", name.as_str(), "': ")
                    .concat(self.claims[i].1.as_str()).concat(" and ").concat(path.as_str());
                assert(m@ == duplicate_claim_message(name@, self.claims@[i as int].1@, path@));
                return Err(m);
            }
            i = i + 1;
        }
        let ghost before = claim_views(self.claims@);
        self.claims.push((name, path));
        assert(claim_views(self.claims@) =~= before.push((name@, path@)));
        Ok(())
    }

    /// The names found, in the order found.
    pub fn names(&self) -> (r: Vec<String>)
        ensures
            r@.map_values(|s: String| s@) == self.claims@.map_values(|p: (String, String)| p.0@),
    {
        let mut out: Vec<String> = Vec::new();
        let mut i: usize = 0;
        while i < self.claims.len()
            invariant
                i <= self.claims@.len(),
                out@.map_values(|s: String| s@) == self.claims@.subrange(0, i as int).map_values(|p: (String, String)| p.0@),
            decreases self.claims.len() - i,
        {
            let ghost before = out@.map_values(|s: String| s@);
            let n = self.claims[i].0.clone();
            assert(n@ == self.claims@[i as int].0@);
            out.push(n);
            assert(out@.map_values(|s: String| s@) =~= before.push(self.claims@[i as int].0@));
            assert(self.claims@.subrange(0, i + 1).map_values(|p: (String, String)| p.0@)
                =~= self.claims@.subrange(0, i as int).map_values(|p: (String, String)| p.0@).push(self.claims@[i as int].0@));
            i = i + 1;
        }
        assert(self.claims@.subrange(0, self.claims@.len() as int) =~= self.claims@);
        out
    }
}

/// Whether the file name `name` is a vault config: its extension (what follows its last
/// `.`, when that `.` does not start the name) is `toml`.
pub open spec fn is_vault_config_name(name: Seq<char>) -> bool {
    exists|i: int| 0 < i < name.len() && name[i] == '.'
        && (forall|j: int| i < j < name.len() ==> name[j] != '.')
        && name.subrange(i + 1, name.len() as int) == "toml"@
}

/// Whether the file name `name` is a vault config (see `is_vault_config_name`).
pub fn is_vault_config(name: &str) -> (b: bool)
    ensures
        b == is_vault_config_name(name@),
{
    let v = chars_of(name);
    let n = v.len();
    proof {
        reveal_strlit("toml");
    }
    if n < 6 {
        assert(!is_vault_config_name(name@)) by {
            if is_vault_config_name(name@) {
                let i = choose|i: int| 0 < i < name@.len() && name@[i] == '.'
                    && (forall|j: int| i < j < name@.len() ==> name@[j] != '.')
                    && name@.subrange(i + 1, name@.len() as int) == "toml"@;
                assert(name@.subrange(i + 1, name@.len() as int).len() == 4);
            }
        }
        return false;
    }
    let d = n - 5;
    let ok = v[d] == '.' && v[d + 1] == 't' && v[d + 2] == 'o' && v[d + 3] == 'm' && v[d + 4] == 'l';
    if ok {
        assert(name@.subrange(d + 1, n as int) =~= "toml"@);
        assert(forall|j: int| d < j < name@.len() ==> name@[j] != '.');
        return true;
    }
    assert(!is_vault_config_name(name@)) by {
        if is_vault_config_name(name@) {
            let i = choose|i: int| 0 < i < name@.len() && name@[i] == '.'
                && (forall|j: int| i < j < name@.len() ==> name@[j] != '.')
                && name@.subrange(i + 1, name@.len() as int) == "toml"@;
            assert(name@.subrange(i + 1, name@.len() as int).len() == 4);
            assert(i == d);
            assert(name@.subrange(i + 1, name@.len() as int)[0] == name@[d + 1]);
            assert(name@.subrange(i + 1, name@.len() as int)[1] == name@[d + 2]);
            assert(name@.subrange(i + 1, name@.len() as int)[2] == name@[d + 3]);
            assert(name@.subrange(i + 1, name@.len() as int)[3] == name@[d + 4]);
        }
    }
    false
}

/// A read-only daemon refuses every write; otherwise writes go through.
pub fn ensure_writable(read_only: bool) -> (r: Result<(), ApiError>)
    ensures
        read_only <==> r == Err::<(), ApiError>(ApiError::ReadOnly),
        !read_only <==> r is Ok,
{
    if read_only {
        Err(ApiError::ReadOnly)
    } else {
        Ok(())
    }
}

/// What the daemon serves: the names of its vaults (their origins are held by the caller, in
/// this order), whether writes are refused, and who may call.
pub struct AppState {
    /// The names of the served vaults.
    pub names: Vec<String>,
    /// Whether every write is refused.
    pub read_only: bool,
    /// How callers must identify themselves.
    pub auth: AuthConfig,
}

impl AppState {
    /// The names of the vaults served, in the caller's order.
    pub open spec fn names_spec(&self) -> Seq<Seq<char>> {
        self.names@.map_values(|s: String| s@)
    }

    /// A state serving the vaults named `names` (in that order).
    pub fn from_parts(names: Vec<String>, read_only: bool, auth: AuthConfig) -> (r: AppState)
        ensures
            r.names_spec() == names@.map_values(|s: String| s@),
            r.read_only == read_only,
            r.auth == auth,
    {
        AppState { names, read_only, auth }
    }

    /// Which of the served vaults is called `name`: its position, or `UnknownVault`.
    pub fn vault(&self, name: &str) -> (r: Result<usize, ApiError>)
        ensures
            match r {
                Ok(i) => i < self.names_spec().len() && self.names_spec()[i as int] == name@ && forall|j: int| 0 <= j < i ==> self.names_spec()[j] != name@,
                Err(e) => (e matches ApiError::UnknownVault(n) && n@ == name@) && forall|j: int| 0 <= j < self.names_spec().len() ==> self.names_spec()[j] != name@,
            },
    {
        let target = chars_of(name);
        let mut i: usize = 0;
        while i < self.names.len()
            invariant
                i <= self.names@.len(),
                target@ == name@,
                forall|j: int| 0 <= j < i ==> self.names_spec()[j] != name@,
            decreases self.names.len() - i,
        {
            let c = chars_of(self.names[i].as_str());
            assert(c@ == self.names_spec()[i as int]);
            if crate::text::chars_eq(&c, &target) {
                return Ok(i);
            }
            i = i + 1;
        }
        Err(ApiError::UnknownVault(String::from_str(name)))
    }

    /// What a request addresses, from the `vault` and `id` parts of its path: the served
    /// vault (its position) and the object, `None` meaning the vault's root (no id, an empty
    /// one, or `/`). A request without a vault, naming none served, or with an id that is
    /// refused (see `object_id`) is an error.
    pub fn target(&self, vault: Option<&str>, id: Option<&str>) -> (r: Result<(usize, Option<ObjectId>), ApiError>)
        ensures
            vault is None ==> (r matches Err(ApiError::InvalidId(m)) && m@ == "no vault in the request path"@),
            vault matches Some(name) ==> {
                let found = exists|i: int| 0 <= i < self.names_spec().len() && self.names_spec()[i] == name@;
                &&& !found ==> (r matches Err(ApiError::UnknownVault(n)) && n@ == name@)
                &&& found ==> match r {
                    Ok((i, o)) => i < self.names_spec().len() && self.names_spec()[i as int] == name@
                        && (forall|j: int| 0 <= j < i ==> self.names_spec()[j] != name@)
                        && match id {
                            None => o is None,
                            Some(raw) => if raw@.len() == 0 || raw@ == seq!['/'] {
                                o is None
                            } else {
                                object_id_spec(raw@) matches Ok(x) && o matches Some(oid) && oid@ == x
                            },
                        },
                    Err(e) => {
                        &&& id matches Some(raw)
                        &&& id->Some_0@.len() != 0 && id->Some_0@ != seq!['/']
                        &&& object_id_spec(id->Some_0@) matches Err(reason)
                        &&& e matches ApiError::InvalidId(m)
                        &&& m@ == object_id_spec(id->Some_0@)->Err_0
                    },
                }
            },
    {
        let name = match vault {
            Some(n) => n,
            None => return Err(ApiError::InvalidId(String::from_str("no vault in the request path"))),
        };
        let i = match self.vault(name) {
            Ok(i) => i,
            Err(e) => return Err(e),
        };
        match id {
            None => Ok((i, None)),
            Some(raw) => {
                let v = chars_of(raw);
                if v.len() == 0 || (v.len() == 1 && v[0] == '/') {
                    assert(v@.len() == 1 ==> v@ =~= seq!['/']);
                    Ok((i, None))
                } else {
                    assert(raw@ != seq!['/']) by {
                        if raw@ == seq!['/'] {
                            assert(v@.len() == 1);
                        }
                    }
                    match object_id(raw) {
                        Ok(o) => Ok((i, Some(o))),
                        Err(e) => Err(e),
                    }
                }
            },
        }
    }

    /// The names of the served vaults, sorted.
    pub fn vault_names(&self) -> (r: Vec<String>)
        ensures
            crate::order::views(r@) == self.names_spec().sort_by(|a: Seq<char>, b: Seq<char>| crate::order::lex_le(a, b)),
    {
        let mut copy: Vec<String> = Vec::new();
        let mut i: usize = 0;
        while i < self.names.len()
            invariant
                i <= self.names@.len(),
                crate::order::views(copy@) == self.names_spec().subrange(0, i as int),
            decreases self.names.len() - i,
        {
            let ghost before = crate::order::views(copy@);
            copy.push(self.names[i].clone());
            assert(crate::order::views(copy@) =~= before.push(self.names@[i as int]@));
            i = i + 1;
            assert(crate::order::views(copy@) =~= self.names_spec().subrange(0, i as int));
        }
        assert(self.names_spec().subrange(0, i as int) =~= self.names_spec());
        crate::order::sort_strings(copy)
    }

    /// Refuses a write when the daemon is read-only.
    pub fn ensure_writable(&self) -> (r: Result<(), ApiError>)
        ensures
            self.read_only <==> r == Err::<(), ApiError>(ApiError::ReadOnly),
            !self.read_only <==> r is Ok,
    {
        ensure_writable(self.read_only)
    }
}

} // verus!
