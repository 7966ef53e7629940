//! The frontends' own settings: whether the user's files are opened as the local vault, and
//! from where.

use vstd::prelude::*;
use crate::origin_fs::path_join;

verus! {

/// The frontends' settings, as `cli_config.toml` holds them.
#[derive(Debug, Clone, PartialEq, Eq)]
pub struct CliConfig {
    /// Whether a local vault over the user's files is opened (on unless the file says no).
    pub default_local_vault: bool,
    /// The directory the local vault covers; the home directory when unset.
    pub local_vault_path: Option<String>,
}

/// The value `default_local_vault` takes when the file leaves it out.
pub fn default_true() -> (b: bool)
    ensures
        b,
{
    true
}

impl Default for CliConfig {
    /// The settings used when there is no config file: a local vault over the home directory.
    fn default() -> (r: CliConfig)
        ensures
            r.default_local_vault,
            r.local_vault_path is None,
    {
        CliConfig { default_local_vault: true, local_vault_path: None }
    }
}

impl CliConfig {
    /// Where the config file lives under the configuration directory `base`:
    /// `.nimbus/cli_config.toml`.
    pub fn path_under(base: &str) -> (r: String)
        ensures
            r@ == path_join(path_join(base@, ".nimbus"@), "cli_config.toml"@),
    {
        let home = crate::config::join(base, ".nimbus");
        crate::config::join(home.as_str(), "cli_config.toml")
    }

    /// The directory the local vault covers, given the home directory: the configured path,
    /// else the home directory, else `/`.
    pub fn local_path_with(&self, home: Option<&str>) -> (r: String)
        ensures
            r@ == match self.local_vault_path {
                Some(p) => p@,
                None => match home {
                    Some(h) => h@,
                    None => seq!['/'],
                },
            },
    {
        match &self.local_vault_path {
            Some(p) => p.clone(),
            None => match home {
                Some(h) => String::from_str(h),
                None => crate::text::string_of(&vec!['/']),
            },
        }
    }

    /// The directory the local vault covers: the configured path, else the user's home
    /// directory, else `/`.
    pub fn local_path(&self) -> (r: String)
        ensures
            self.local_vault_path matches Some(p) ==> r@ == p@,
    {
        match crate::creator::user_home_dir() {
            Some(h) => self.local_path_with(Some(h.as_str())),
            None => self.local_path_with(None),
        }
    }
}

} // verus!
