//! The HTTP origin's decisions: where each request goes, which credentials it carries, and
//! what an answer's status means. Sending the requests is the caller's part.

use vstd::prelude::*;
use crate::error::VaultError;
use crate::object::{opt_chars, ObjectId};
use crate::text::{cat, cat3, chars_of, decimal, decimal_chars, push_all, replace_all, replaced, string_of};

verus! {

/// Where a bearer secret is to be read from.
#[derive(Debug, Clone, PartialEq, Eq)]
pub enum SecretSource {
    /// Written out in the config.
    Literal(String),
    /// The named environment variable.
    Env(String),
    /// The file at this path.
    File(String),
}

/// The credentials an HTTP origin presents on every request.
///
/// The secret comes from exactly one of three places: the config itself (`token`), an
/// environment variable (`token_env`), or a file (`token_file`).
#[derive(Debug, Clone, PartialEq, Eq)]
pub enum HttpAuth {
    /// Send nothing: an origin that needs no credentials.
    NoAuth,
    /// A shared secret sent as `Authorization: Bearer <token>`.
    Bearer {
        /// The token, written out in the config.
        token: Option<String>,
        /// Name of an environment variable holding the token.
        token_env: Option<String>,
        /// Path to a file holding the token; a trailing newline is not part of it.
        token_file: Option<String>,
    },
}

impl Default for HttpAuth {
    /// No credentials.
    fn default() -> (r: HttpAuth)
        ensures
            r is NoAuth,
    {
        HttpAuth::NoAuth
    }
}

/// Which source a bearer configuration names, or why it names none or several.
pub open spec fn source_of(token: Option<String>, token_env: Option<String>, token_file: Option<String>) -> Result<SecretSource, Seq<char>> {
    match (token, token_env, token_file) {
        (Some(t), None, None) => Ok(SecretSource::Literal(t)),
        (None, Some(n), None) => Ok(SecretSource::Env(n)),
        (None, None, Some(p)) => Ok(SecretSource::File(p)),
        (None, None, None) => Err("auth: set one of token, token_env or token_file"@),
        _ => Err("auth: set only one of token, token_env or token_file"@),
    }
}

/// `s` without trailing `\r` and `\n`.
pub open spec fn trim_newlines(s: Seq<char>) -> Seq<char>
    decreases s.len(),
{
    if s.len() > 0 && (s.last() == '\r' || s.last() == '\n') {
        trim_newlines(s.drop_last())
    } else {
        s
    }
}

/// The secret read from `source`, given what reading it gave (`raw`: the variable's value or
/// the file's content, or the failure's message), or the message of why there is none.
pub open spec fn secret_of(source: SecretSource, raw: Result<Seq<char>, Seq<char>>) -> Result<Seq<char>, Seq<char>> {
    let read: Result<Seq<char>, Seq<char>> = match source {
        SecretSource::Literal(t) => Ok(t@),
        SecretSource::Env(name) => match raw {
            Ok(v) => Ok(v),
            Err(_) => Err("auth: environment variable '"@ + name@ + "' is not set"@),
        },
        SecretSource::File(path) => match raw {
            Ok(content) => Ok(trim_newlines(content)),
            Err(e) => Err("auth: reading "@ + path@ + ": "@ + e),
        },
    };
    match read {
        Ok(secret) => if secret.len() == 0 {
            Err("auth: the configured token is empty"@)
        } else {
            Ok(secret)
        },
        Err(m) => Err(m),
    }
}

/// The view of a read result.
pub open spec fn raw_view(raw: Result<String, String>) -> Result<Seq<char>, Seq<char>> {
    match raw {
        Ok(v) => Ok(v@),
        Err(e) => Err(e@),
    }
}

/// `s` without trailing `\r` and `\n`.
fn strip_newlines(s: &str) -> (r: String)
    ensures
        r@ == trim_newlines(s@),
{
    let v = chars_of(s);
    let mut b = v.len();
    assert(v@.subrange(0, b as int) =~= v@);
    while b > 0 && (v[b - 1] == '\r' || v[b - 1] == '\n')
        invariant
            b <= v@.len(),
            trim_newlines(v@) == trim_newlines(v@.subrange(0, b as int)),
        decreases b,
    {
        assert(v@.subrange(0, b - 1) =~= v@.subrange(0, b as int).drop_last());
        b = b - 1;
    }
    let mut out: Vec<char> = Vec::new();
    let mut i: usize = 0;
    while i < b
        invariant
            i <= b <= v@.len(),
            out@ == v@.subrange(0, i as int),
        decreases b - i,
    {
        out.push(v[i]);
        i = i + 1;
        assert(out@ =~= v@.subrange(0, i as int));
    }
    string_of(&out)
}

impl HttpAuth {
    /// Where the secret is to be read from: `None` when no credentials are configured.
    pub fn secret_source(&self) -> (r: Result<Option<SecretSource>, VaultError>)
        ensures
            match self {
                HttpAuth::NoAuth => r == Ok::<Option<SecretSource>, VaultError>(None),
                HttpAuth::Bearer { token, token_env, token_file } => match source_of(*token, *token_env, *token_file) {
                    Ok(s) => r == Ok::<Option<SecretSource>, VaultError>(Some(s)),
                    Err(m) => r matches Err(VaultError::Generic(g)) && g@ == m,
                },
            },
    {
        match self {
            HttpAuth::NoAuth => Ok(None),
            HttpAuth::Bearer { token, token_env, token_file } => {
                match (token, token_env, token_file) {
                    (Some(t), None, None) => Ok(Some(SecretSource::Literal(t.clone()))),
                    (None, Some(n), None) => Ok(Some(SecretSource::Env(n.clone()))),
                    (None, None, Some(p)) => Ok(Some(SecretSource::File(p.clone()))),
                    (None, None, None) => Err(VaultError::Generic(String::from_str("auth: set one of token, token_env or token_file"))),
                    _ => Err(VaultError::Generic(String::from_str("auth: set only one of token, token_env or token_file"))),
                }
            },
        }
    }

    /// The secret read from `source`, given what reading it gave: the variable's value or the
    /// file's content, or the failure's message. A literal token ignores `raw`.
    pub fn secret_from(source: &SecretSource, raw: Result<String, String>) -> (r: Result<String, VaultError>)
        ensures
            match secret_of(*source, raw_view(raw)) {
                Ok(s) => r matches Ok(t) && t@ == s,
                Err(m) => r matches Err(VaultError::Generic(g)) && g@ == m,
            },
    {
        let secret = match source {
            SecretSource::Literal(t) => t.clone(),
            SecretSource::Env(name) => match raw {
                Ok(v) => v,
                Err(_) => return Err(VaultError::Generic(cat3("auth: environment variable '", name.as_str(), "' is not set"))),
            },
            SecretSource::File(path) => match raw {
                Ok(content) => strip_newlines(content.as_str()),
                Err(e) => return Err(VaultError::Generic(cat3("auth: reading ", path.as_str(), ": ").concat(e.as_str()))),
            },
        };
        if secret.as_str().unicode_len() == 0 {
            return Err(VaultError::Generic(String::from_str("auth: the configured token is empty")));
        }
        Ok(secret)
    }

    /// The `Authorization` header value to send, or `None` when no credentials are configured.
    /// `read` is asked for the content of an environment variable or a file source (and gives
    /// the failure's message when it cannot); a literal token is used as written.
    pub fn header_value<F: Fn(&SecretSource) -> Result<String, String>>(&self, read: F) -> (r: Result<Option<String>, VaultError>)
        requires
            forall|s: &SecretSource| #[trigger] read.requires((s,)),
        ensures
            match self {
                HttpAuth::NoAuth => r == Ok::<Option<String>, VaultError>(None),
                HttpAuth::Bearer { token, token_env, token_file } => match source_of(*token, *token_env, *token_file) {
                    Err(m) => r matches Err(VaultError::Generic(g)) && g@ == m,
                    Ok(src) => exists|raw: Result<String, String>| #![trigger raw_view(raw)]
                        (!(src is Literal) ==> read.ensures((&src,), raw)) && match secret_of(src, raw_view(raw)) {
                            Ok(s) => r matches Ok(Some(h)) && h@ == "Bearer "@ + s,
                            Err(m) => r matches Err(VaultError::Generic(g)) && g@ == m,
                        },
                },
            },
    {
        let source = match self.secret_source() {
            Ok(Some(s)) => s,
            Ok(None) => return Ok(None),
            Err(e) => return Err(e),
        };
        let raw = match &source {
            SecretSource::Literal(t) => Ok(t.clone()),
            _ => read(&source),
        };
        let ghost raw_seen = raw;
        let r = match Self::secret_from(&source, raw) {
            Ok(secret) => Ok(Some(cat("Bearer ", secret.as_str()))),
            Err(e) => Err(e),
        };
        assert((!(source is Literal) ==> read.ensures((&source,), raw_seen)) && match secret_of(source, raw_view(raw_seen)) {
            Ok(s) => r matches Ok(Some(h)) && h@ == "Bearer "@ + s,
            Err(m) => r matches Err(VaultError::Generic(g)) && g@ == m,
        });
        r
    }
}

/// Whether every character of `s` may appear in an HTTP header value.
pub open spec fn header_safe(s: Seq<char>) -> bool {
    forall|i: int| 0 <= i < s.len() ==> ((#[trigger] s[i] as u32) >= 32 && s[i] as u32 != 127) || s[i] == '\t'
}

/// Whether `http::HeaderValue::from_str` accepts `s`. Claimed: it takes every byte from 32 up
/// except 127, and the tab, which over UTF-8 text means every character but the other controls.
#[verifier::external_body]
fn header_value_accepted(s: &str) -> (b: bool)
    ensures
        b == header_safe(s@),
{
    reqwest::header::HeaderValue::from_str(s).is_ok()
}

/// The reason phrase `http` knows for a status code, if any.
pub uninterp spec fn canonical_reason(code: u16) -> Option<Seq<char>>;

/// Calls `http::StatusCode::from_u16(code)`, which accepts every code from 100 to 999, and its
/// `canonical_reason`. Claimed: the phrase is `canonical_reason(code)`, a function of the code
/// alone.
#[verifier::external_body]
fn reason_phrase(code: u16) -> (r: Option<&'static str>)
    requires
        100 <= code <= 999,
    ensures
        match r {
            Some(s) => canonical_reason(code) == Some(s@),
            None => canonical_reason(code) is None,
        },
{
    reqwest::StatusCode::from_u16(code).ok().and_then(|s| s.canonical_reason())
}

/// A status as `http` displays it: the code, a space, and its reason phrase.
pub open spec fn status_text(code: u16, reason: Option<Seq<char>>) -> Seq<char> {
    decimal(code as nat) + seq![' '] + match reason {
        Some(r) => r,
        None => "<unknown status code>"@,
    }
}

/// The message of a failed answer (for every status but 2xx and 404).
pub open spec fn failure_message(code: u16, url: Seq<char>, reason: Option<Seq<char>>) -> Seq<char> {
    if code == 401 || code == 403 {
        "request to "@ + url + " was refused with status "@ + status_text(code, reason) + " — check this vault's [origin_config.auth]"@
    } else {
        "request to "@ + url + " failed with status "@ + status_text(code, reason)
    }
}

/// What an answer with status `code` to a request for `url` means, given the status's reason
/// phrase.
pub fn classify_status(code: u16, url: &str, reason: Option<&str>) -> (r: Result<(), VaultError>)
    ensures
        200 <= code <= 299 ==> r is Ok,
        code == 404 ==> (r matches Err(VaultError::NotFound(u)) && u@ == url@),
        !(200 <= code <= 299) && code != 404 ==> (r matches Err(VaultError::OriginError(m)) && m@ == failure_message(code, url@, match reason {
            Some(s) => Some(s@),
            None => None,
        })),
{
    if 200 <= code && code <= 299 {
        return Ok(());
    }
    if code == 404 {
        return Err(VaultError::NotFound(String::from_str(url)));
    }
    let mut st = decimal_chars(code as u64);
    st.push(' ');
    match reason {
        Some(r) => {
            let rc = chars_of(r);
            push_all(&mut st, &rc);
        },
        None => {
            let rc = chars_of("<unknown status code>");
            push_all(&mut st, &rc);
        },
    }
    let status = string_of(&st);
    if code == 401 || code == 403 {
        Err(VaultError::OriginError(cat3("request to ", url, " was refused with status ").concat(status.as_str()).concat(
            " — check this vault's [origin_config.auth]",
        )))
    } else {
        Err(VaultError::OriginError(cat3("request to ", url, " failed with status ").concat(status.as_str())))
    }
}

/// What an answer with status `code` to a request for `url` means (see `classify_status`).
pub fn status_error(code: u16, url: &str) -> (r: Result<(), VaultError>)
    requires
        100 <= code <= 999,
    ensures
        200 <= code <= 299 ==> r is Ok,
        code == 404 ==> (r matches Err(VaultError::NotFound(u)) && u@ == url@),
        !(200 <= code <= 299) && code != 404 ==> (r matches Err(VaultError::OriginError(m)) && m@ == failure_message(code, url@, canonical_reason(code))),
{
    let reason = reason_phrase(code);
    classify_status(code, url, reason)
}

/// An origin backed by a REST-ish HTTP API: each operation is a `{id}`-templated path appended
/// to `base_url`.
pub struct OriginHTTP {
    base_url: String,
    fetch_url: String,
    list_url: String,
    get_url: String,
    put_url: String,
    send_url: String,
    delete_url: String,
    auth: Option<String>,
}

/// The operation a request is for.
#[derive(Debug, Clone, Copy, PartialEq, Eq)]
pub enum HttpOp {
    /// Stream an object's content.
    Fetch,
    /// List a branch's children.
    List,
    /// Describe one object.
    Get,
    /// Create an object under a destination.
    Put,
    /// Upload an object's content.
    Send,
    /// Remove an object.
    Delete,
}

/// `s` without trailing `/`s.
pub open spec fn trim_slashes_end(s: Seq<char>) -> Seq<char>
    decreases s.len(),
{
    if s.len() > 0 && s.last() == '/' {
        trim_slashes_end(s.drop_last())
    } else {
        s
    }
}

impl OriginHTTP {
    /// The base URL.
    pub closed spec fn base(&self) -> Seq<char> {
        self.base_url@
    }

    /// The path template of operation `op`.
    pub closed spec fn template(&self, op: HttpOp) -> Seq<char> {
        match op {
            HttpOp::Fetch => self.fetch_url@,
            HttpOp::List => self.list_url@,
            HttpOp::Get => self.get_url@,
            HttpOp::Put => self.put_url@,
            HttpOp::Send => self.send_url@,
            HttpOp::Delete => self.delete_url@,
        }
    }

    /// The `Authorization` header value sent with every request.
    pub closed spec fn auth_header(&self) -> Option<Seq<char>> {
        opt_chars(self.auth)
    }

    /// An origin with the given base URL and path templates, sending no credentials.
    pub fn new(
        base_url: String,
        fetch_url: String,
        list_url: String,
        get_url: String,
        put_url: String,
        send_url: String,
        delete_url: String,
    ) -> (r: OriginHTTP)
        ensures
            r.base() == base_url@,
            r.template(HttpOp::Fetch) == fetch_url@,
            r.template(HttpOp::List) == list_url@,
            r.template(HttpOp::Get) == get_url@,
            r.template(HttpOp::Put) == put_url@,
            r.template(HttpOp::Send) == send_url@,
            r.template(HttpOp::Delete) == delete_url@,
            r.auth_header() is None,
    {
        OriginHTTP { base_url, fetch_url, list_url, get_url, put_url, send_url, delete_url, auth: None }
    }

    /// Sets the credentials to send, given the header value `HttpAuth::header_value` resolved;
    /// a value that cannot be sent in a header is refused.
    pub fn with_auth(self, header: Option<String>) -> (r: Result<OriginHTTP, VaultError>)
        ensures
            match header {
                Some(h) => if header_safe(h@) {
                    r matches Ok(o) && o.auth_header() == Some(h@) && o.base() == self.base() && forall|op: HttpOp| #[trigger] o.template(op) == self.template(op)
                } else {
                    r matches Err(VaultError::Generic(m)) && m@ == "auth: the token contains characters that can't be sent in a header"@
                },
                None => r matches Ok(o) && o.auth_header() is None && o.base() == self.base() && forall|op: HttpOp| #[trigger] o.template(op) == self.template(op),
            },
    {
        let mut me = self;
        match header {
            Some(h) => {
                if !header_value_accepted(h.as_str()) {
                    return Err(VaultError::Generic(String::from_str("auth: the token contains characters that can't be sent in a header")));
                }
                me.auth = Some(h);
            },
            None => {
                me.auth = None;
            },
        }
        Ok(me)
    }

    /// The header value sent with every request.
    pub fn authorization(&self) -> (r: Option<String>)
        ensures
            opt_chars(r) == self.auth_header(),
    {
        match &self.auth {
            Some(h) => Some(h.clone()),
            None => None,
        }
    }

    /// The URL of operation `op` on `id`: the base URL without trailing slashes, then the
    /// operation's template with `{id}` replaced.
    pub open spec fn url_spec(&self, op: HttpOp, id: Seq<char>) -> Seq<char> {
        trim_slashes_end(self.base()) + replaced(self.template(op), "{id}"@, id)
    }

    /// The URL of operation `op` on `id`.
    pub fn url(&self, op: HttpOp, id: &ObjectId) -> (r: String)
        ensures
            r@ == self.url_spec(op, id@),
    {
        let template = match op {
            HttpOp::Fetch => &self.fetch_url,
            HttpOp::List => &self.list_url,
            HttpOp::Get => &self.get_url,
            HttpOp::Put => &self.put_url,
            HttpOp::Send => &self.send_url,
            HttpOp::Delete => &self.delete_url,
        };
        let b = chars_of(self.base_url.as_str());
        let mut n = b.len();
        assert(b@.subrange(0, n as int) =~= b@);
        while n > 0 && b[n - 1] == '/'
            invariant
                n <= b@.len(),
                trim_slashes_end(b@) == trim_slashes_end(b@.subrange(0, n as int)),
            decreases n,
        {
            assert(b@.subrange(0, n - 1) =~= b@.subrange(0, n as int).drop_last());
            n = n - 1;
        }
        let mut out: Vec<char> = Vec::new();
        let mut i: usize = 0;
        while i < n
            invariant
                i <= n <= b@.len(),
                out@ == b@.subrange(0, i as int),
            decreases n - i,
        {
            out.push(b[i]);
            i = i + 1;
            assert(out@ =~= b@.subrange(0, i as int));
        }
        let t = chars_of(template.as_str());
        let p = chars_of("{id}");
        proof {
            reveal_strlit("{id}");
        }
        let v = chars_of(id.as_str());
        let rep = replace_all(&t, &p, &v);
        push_all(&mut out, &rep);
        string_of(&out)
    }
}

/// Every operation reads its own template: the URL of `op` on `id` is the base URL (without
/// trailing slashes) followed by the template configured for `op` itself, with each `{id}`
/// replaced by the id. So fetching, listing, describing, creating, uploading and deleting each
/// go to the URL their own setting names, whatever the other templates say.
pub proof fn lemma_each_operation_uses_its_own_template(o: OriginHTTP, id: Seq<char>)
    ensures
        o.url_spec(HttpOp::Fetch, id) == trim_slashes_end(o.base()) + replaced(o.template(HttpOp::Fetch), "{id}"@, id),
        o.url_spec(HttpOp::List, id) == trim_slashes_end(o.base()) + replaced(o.template(HttpOp::List), "{id}"@, id),
        o.url_spec(HttpOp::Get, id) == trim_slashes_end(o.base()) + replaced(o.template(HttpOp::Get), "{id}"@, id),
        o.url_spec(HttpOp::Put, id) == trim_slashes_end(o.base()) + replaced(o.template(HttpOp::Put), "{id}"@, id),
        o.url_spec(HttpOp::Send, id) == trim_slashes_end(o.base()) + replaced(o.template(HttpOp::Send), "{id}"@, id),
        o.url_spec(HttpOp::Delete, id) == trim_slashes_end(o.base()) + replaced(o.template(HttpOp::Delete), "{id}"@, id),
{
}


/// The id an object put under `destination` gets: `destination/name`.
pub fn put_id(destination: &ObjectId, name: &str) -> (r: ObjectId)
    ensures
        r@ == destination@ + seq!['/'] + name@,
{
    proof {
        reveal_strlit("/");
    }
    ObjectId::new(cat3(destination.as_str(), "/", name))
}

} // verus!
