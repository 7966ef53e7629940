//! What a vault is made of, as its TOML file describes it, and where such files live.

use vstd::prelude::*;
use crate::object::ObjectId;
use crate::origin_fs::path_join;
use crate::origin_http::HttpAuth;
use crate::strmap::StrMap;
use crate::text::{cat, chars_of, push_all, string_of};

verus! {

/// How a vault reaches its storage.
pub enum OriginConfig {
    /// A shell command per operation.
    Command {
        /// Lists a branch.
        list_cmd: String,
        /// Streams an object's content.
        fetch_cmd: String,
        /// Describes one object.
        get_cmd: String,
        /// Creates an object under a destination.
        put_cmd: String,
        /// Uploads an object's content.
        send_cmd: String,
        /// Removes an object.
        delete_cmd: String,
        /// Variables available to every command.
        extras: Option<StrMap>,
    },
    /// A directory on disk.
    Fs {
        /// The directory.
        root: String,
    },
    /// A REST-ish HTTP API.
    Http {
        /// Prefix of every URL.
        base_url: Option<String>,
        /// Lists a branch.
        list_url: String,
        /// Streams an object's content.
        fetch_url: String,
        /// Describes one object.
        get_url: String,
        /// Creates an object under a destination.
        put_url: String,
        /// Uploads an object's content.
        send_url: String,
        /// Removes an object.
        delete_url: String,
        /// Credentials sent with every request.
        auth: HttpAuth,
    },
    /// Another vault, by the path of its config file.
    Vault {
        /// The other vault's config file.
        path: String,
    },
}

impl OriginConfig {
    /// The text setting called `key` in an origin config file, when this config has one:
    /// `root` and `path`; the HTTP `base_url` (when set) and the six `*_url` templates; the six
    /// `*_cmd` templates.
    pub open spec fn setting(self, key: Seq<char>) -> Option<Seq<char>> {
        match self {
            OriginConfig::Fs { root } => if key == "root"@ { Some(root@) } else { None },
            OriginConfig::Vault { path } => if key == "path"@ { Some(path@) } else { None },
            OriginConfig::Http { base_url, list_url, fetch_url, get_url, put_url, send_url, delete_url, .. } => {
                if key == "base_url"@ {
                    match base_url {
                        Some(b) => Some(b@),
                        None => None,
                    }
                } else if key == "list_url"@ {
                    Some(list_url@)
                } else if key == "fetch_url"@ {
                    Some(fetch_url@)
                } else if key == "get_url"@ {
                    Some(get_url@)
                } else if key == "put_url"@ {
                    Some(put_url@)
                } else if key == "send_url"@ {
                    Some(send_url@)
                } else if key == "delete_url"@ {
                    Some(delete_url@)
                } else {
                    None
                }
            },
            OriginConfig::Command { list_cmd, fetch_cmd, get_cmd, put_cmd, send_cmd, delete_cmd, .. } => {
                if key == "list_cmd"@ {
                    Some(list_cmd@)
                } else if key == "fetch_cmd"@ {
                    Some(fetch_cmd@)
                } else if key == "get_cmd"@ {
                    Some(get_cmd@)
                } else if key == "put_cmd"@ {
                    Some(put_cmd@)
                } else if key == "send_cmd"@ {
                    Some(send_cmd@)
                } else if key == "delete_cmd"@ {
                    Some(delete_cmd@)
                } else {
                    None
                }
            },
        }
    }
}

/// A vault's name, root and origin.
pub struct VaultConfig {
    name: String,
    root_id: ObjectId,
    origin_config: OriginConfig,
}

impl VaultConfig {
    /// The vault's name.
    pub closed spec fn name_spec(&self) -> Seq<char> {
        self.name@
    }

    /// The id of the vault's root.
    pub closed spec fn root_spec(&self) -> Seq<char> {
        self.root_id@
    }

    /// A config from its parts.
    pub fn new(name: String, root_id: ObjectId, origin_config: OriginConfig) -> (r: VaultConfig)
        ensures
            r.name_spec() == name@,
            r.root_spec() == root_id@,
            *r.origin_config_spec() == origin_config,
    {
        VaultConfig { name, root_id, origin_config }
    }

    /// The vault's name.
    pub fn name(&self) -> (r: &String)
        ensures
            r@ == self.name_spec(),
    {
        &self.name
    }

    /// The id of the vault's root.
    pub fn root_id(&self) -> (r: &ObjectId)
        ensures
            r@ == self.root_spec(),
    {
        &self.root_id
    }

    /// How the vault reaches its storage.
    pub closed spec fn origin_config_spec(&self) -> &OriginConfig {
        &self.origin_config
    }

    /// How the vault reaches its storage.
    pub fn origin_config(&self) -> (r: &OriginConfig)
        ensures
            r == self.origin_config_spec(),
    {
        &self.origin_config
    }

    /// Gives up the parts: name, root id and origin.
    pub fn into_parts(self) -> (r: (String, ObjectId, OriginConfig))
        ensures
            r.0@ == self.name_spec(),
            r.1@ == self.root_spec(),
    {
        (self.name, self.root_id, self.origin_config)
    }

    /// The directory that holds vault configs, under `home` (the nimbus config home).
    pub open spec fn dir_under(home: Seq<char>) -> Seq<char> {
        path_join(home, "vaults"@)
    }

    /// The conventional place for vault configs: `vaults` in the nimbus config home.
    pub fn default_dir() -> (r: String)
        ensures
            exists|base: Seq<char>| r@ == Self::dir_under(config_home_under(base)),
    {
        let home = config_home();
        let ghost base = choose|base: Seq<char>| home@ == config_home_under(base);
        let r = join(home.as_str(), "vaults");
        assert(r@ == Self::dir_under(config_home_under(base)));
        r
    }

    /// Where a new vault called `name` is saved by default: `<name>.toml` in `default_dir`.
    pub fn default_path(name: &str) -> (r: String)
        ensures
            exists|base: Seq<char>| r@ == path_join(Self::dir_under(config_home_under(base)), name@ + ".toml"@),
    {
        let dir = Self::default_dir();
        let ghost base = choose|base: Seq<char>| dir@ == Self::dir_under(config_home_under(base));
        let file = cat(name, ".toml");
        let r = join(dir.as_str(), file.as_str());
        assert(r@ == path_join(Self::dir_under(config_home_under(base)), name@ + ".toml"@));
        r
    }
}

/// `rel` joined onto `base` (see `path_join`).
pub fn join(base: &str, rel: &str) -> (r: String)
    ensures
        r@ == path_join(base@, rel@),
{
    let rc = chars_of(rel);
    if rc.len() > 0 && rc[0] == '/' {
        return String::from_str(rel);
    }
    let mut out = chars_of(base);
    if out.len() > 0 && out[out.len() - 1] != '/' {
        out.push('/');
    }
    push_all(&mut out, &rc);
    string_of(&out)
}

/// The directory name nimbus keeps its configuration under, inside the user's config directory.
pub open spec fn config_home_under(base: Seq<char>) -> Seq<char> {
    path_join(base, ".nimbus"@)
}

/// The user's configuration directory, as `dirs::config_dir` reports it (from the
/// environment: `$XDG_CONFIG_HOME` or `~/.config` on Linux), if there is one. Nothing is
/// claimed of the result: it depends on the environment.
#[verifier::external_body]
fn user_config_dir() -> (r: Option<String>) {
    dirs::config_dir().map(|p| p.to_string_lossy().into_owned())
}

/// The base directory of the nimbus config home, given what the system names as the user's
/// configuration directory: that directory, or the current one when it names none.
pub open spec fn config_base(dir: Option<Seq<char>>) -> Seq<char> {
    match dir {
        Some(b) => b,
        None => "."@,
    }
}

/// Where nimbus keeps its configuration, given the user's configuration directory `dir` as the
/// system reports it: `.nimbus` in it, or in the current directory when there is none.
pub fn config_home_from(dir: Option<String>) -> (r: String)
    ensures
        r@ == config_home_under(config_base(match dir {
            Some(b) => Some(b@),
            None => None,
        })),
{
    let base = match dir {
        Some(b) => b,
        None => String::from_str("."),
    };
    join(base.as_str(), ".nimbus")
}

/// Where nimbus keeps its configuration: `.nimbus` in the user's configuration directory, or
/// in the current directory when the system names none.
pub fn config_home() -> (r: String)
    ensures
        exists|base: Seq<char>| r@ == config_home_under(base),
{
    let dir = user_config_dir();
    let ghost d = match &dir {
        Some(b) => Some(b@),
        None => None,
    };
    let r = config_home_from(dir);
    assert(r@ == config_home_under(config_base(d)));
    r
}

} // verus!
