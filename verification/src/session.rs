//! The session shared by the command-line and terminal frontends: which vaults are open,
//! which config file each registered one came from, the vault being browsed and the
//! directory inside it — and the planning of every command against that state. The vaults'
//! own I/O (finding, listing, copying) is carried out by the caller on the plans made here.

use vstd::prelude::*;
use crate::object::{Object, ObjectId};
use crate::path::{
    file_name, file_name_of, is_within, join_name, joined, parent, parent_of, within,
    dot_dot, is_absolute, is_clean_segment, kept_segments, normalize, normalized, render,
    resolve_relative, resolved, split_segments, walk_segments, kept, render_stack,
};
use crate::strmap::StrMap;
use crate::vault::has_children;
use crate::text::{cat, cat3, chars_of, copy_chars, push_all, string_of};
use crate::order::{views, lex_le, sort_strings, str_le};
use vstd::relations::sorted_by;

verus! {

/// Name of the vault over the user's own filesystem.
pub const LOCAL_VAULT_NAME: &'static str = "LOCAL";
/// Id of the top level above all vaults.
pub const APP_ROOT_ID: &'static str = "#APP_ROOT#";

/// Why a session command was refused.
#[derive(Debug, PartialEq, Eq)]
pub enum AppError {
    /// No vault has this name.
    UnknownVault(String),
    /// The local vault is managed by the CLI config and cannot be forgotten.
    LocalVaultManaged,
    /// The name is already registered from another config file (name, existing config).
    AlreadyRegistered(String, String),
    /// The command needs a vault and none was named or selected.
    NoVaultSelected,
    /// A `cd` from the top level named no vault.
    InvalidCdPath,
    /// A copy or move into the object's own subtree (destination, source).
    IntoItself(String, String),
    /// A copy or move into the directory the object is already in (source, destination).
    AlreadyIn(String, String),
    /// A new name that is empty or holds `/`.
    InvalidName(String),
    /// The vault root has no name to change.
    RenameRoot,
    /// The vault root cannot be deleted.
    DeleteRoot,
    /// A path with no last component to create.
    InvalidPath(String),
    /// Something already exists at the path.
    AlreadyExists(String),
    /// A copy or move destination with no parent or name.
    InvalidDestination(String),
    /// The destination's parent does not exist.
    NoSuchDirectory(String),
    /// The destination's parent is not a directory.
    NotADirectory(String),
    /// A directory with contents, deleted without `--force`.
    NotEmpty(String),
    /// The named vault has no configuration.
    NoConfiguration(String),
    /// The local vault is not open.
    NoLocalVault,
    /// The local vault is switched off, so no local path can be resolved.
    LocalRootUnset,
    /// A local path that does not exist or cannot be read (the system's reason).
    PathInaccessible(String),
    /// A local path outside the local vault (the path as given, the vault's root).
    OutsideLocalVault(String, String),
}

impl AppError {
    /// The message shown to the user.
    pub open spec fn message_spec(&self) -> Seq<char> {
        match self {
            AppError::UnknownVault(n) => "VAULT '"@ + n@ + "' DOESN'T EXITS"@,
            AppError::LocalVaultManaged =>
                "'LOCAL' IS MANAGED BY cli_config — SET default_local_vault = false TO DROP IT"@,
            AppError::AlreadyRegistered(n, e) => "VAULT '"@ + n@ + "' IS ALREADY REGISTERED (config: "@ + e@
                + ") — FORGET IT FIRST OR PICK ANOTHER NAME"@,
            AppError::NoVaultSelected => "NO VAULT SPECIFIED AND NO CURRENT VAULT SELECTED"@,
            AppError::InvalidCdPath => "INVALID PATH PROVIDED FOR 'cd'"@,
            AppError::IntoItself(d, s) => "'"@ + d@ + "' is inside '"@ + s@
                + "' — cannot copy or move an object into itself"@,
            AppError::AlreadyIn(s, d) => "'"@ + s@ + "' is already in '"@ + d@ + "'"@,
            AppError::InvalidName(n) => "INVALID NAME '"@ + n@ + "': a name cannot be empty or contain '/'"@,
            AppError::RenameRoot => "CANNOT RENAME THE VAULT ROOT"@,
            AppError::DeleteRoot => "CANNOT DELETE THE VAULT ROOT"@,
            AppError::InvalidPath(p) => "INVALID PATH '"@ + p@ + "'"@,
            AppError::AlreadyExists(p) => "'"@ + p@ + "' already exists"@,
            AppError::InvalidDestination(p) => "INVALID DESTINATION '"@ + p@ + "'"@,
            AppError::NoSuchDirectory(p) => "'"@ + p@ + "' doesn't exist"@,
            AppError::NotADirectory(p) => "'"@ + p@ + "' is not a directory"@,
            AppError::NotEmpty(p) => "'"@ + p@ + "' is not empty — use --force to delete recursively"@,
            AppError::NoConfiguration(v) => "COULDN'T FIND CONFIGURATION FOR VAULT '"@ + v@ + "'"@,
            AppError::NoLocalVault => "NO LOCAL VAULT CONFIGURED"@,
            AppError::LocalRootUnset => "no local vault configured (default_local_vault is disabled)"@,
            AppError::PathInaccessible(e) => "PATH DOESN'T EXIST OR IT IS INACCESSIBLE: "@ + e@,
            AppError::OutsideLocalVault(p, r) => "path '"@ + p@ + "' is outside the local vault (root: "@ + r@ + ")"@,
        }
    }

    /// The message shown to the user.
    pub fn message(&self) -> (r: String)
        ensures
            r@ == self.message_spec(),
    {
        match self {
            AppError::UnknownVault(n) => cat3("VAULT '", n.as_str(), "' DOESN'T EXITS"),
            AppError::LocalVaultManaged => String::from_str(
                "'LOCAL' IS MANAGED BY cli_config — SET default_local_vault = false TO DROP IT",
            ),
            AppError::AlreadyRegistered(n, e) => cat3("VAULT '", n.as_str(), "' IS ALREADY REGISTERED (config: ")
                .concat(e.as_str()).concat(") — FORGET IT FIRST OR PICK ANOTHER NAME"),
            AppError::NoVaultSelected => String::from_str("NO VAULT SPECIFIED AND NO CURRENT VAULT SELECTED"),
            AppError::InvalidCdPath => String::from_str("INVALID PATH PROVIDED FOR 'cd'"),
            AppError::IntoItself(d, s) => cat3("'", d.as_str(), "' is inside '").concat(s.as_str())
                .concat("' — cannot copy or move an object into itself"),
            AppError::AlreadyIn(s, d) => cat3("'", s.as_str(), "' is already in '").concat(d.as_str()).concat("'"),
            AppError::InvalidName(n) => cat3("INVALID NAME '", n.as_str(), "': a name cannot be empty or contain '/'"),
            AppError::RenameRoot => String::from_str("CANNOT RENAME THE VAULT ROOT"),
            AppError::DeleteRoot => String::from_str("CANNOT DELETE THE VAULT ROOT"),
            AppError::InvalidPath(p) => cat3("INVALID PATH '", p.as_str(), "'"),
            AppError::AlreadyExists(p) => cat3("'", p.as_str(), "' already exists"),
            AppError::InvalidDestination(p) => cat3("INVALID DESTINATION '", p.as_str(), "'"),
            AppError::NoSuchDirectory(p) => cat3("'", p.as_str(), "' doesn't exist"),
            AppError::NotADirectory(p) => cat3("'", p.as_str(), "' is not a directory"),
            AppError::NotEmpty(p) => cat3("'", p.as_str(), "' is not empty — use --force to delete recursively"),
            AppError::NoConfiguration(v) => cat3("COULDN'T FIND CONFIGURATION FOR VAULT '", v.as_str(), "'"),
            AppError::NoLocalVault => String::from_str("NO LOCAL VAULT CONFIGURED"),
            AppError::LocalRootUnset => String::from_str("no local vault configured (default_local_vault is disabled)"),
            AppError::PathInaccessible(e) => String::from_str("PATH DOESN'T EXIST OR IT IS INACCESSIBLE: ").concat(e.as_str()),
            AppError::OutsideLocalVault(p, r) => cat3("path '", p.as_str(), "' is outside the local vault (root: ")
                .concat(r.as_str()).concat(")"),
        }
    }
}

/// Whether registering config `cfg` under `name` is refused: the name is held by another file.
pub open spec fn registration_refused(configs: Map<Seq<char>, Seq<char>>, name: Seq<char>, cfg: Seq<char>) -> bool {
    configs.contains_key(name) && configs[name] != cfg
}

/// The session state.
pub struct App {
    vaults: StrMap,
    vault_configs: StrMap,
    cwd: ObjectId,
    cwd_path: String,
    current_vault: Option<String>,
    local_root: Option<String>,
}

/// The views of an optional string.
pub open spec fn opt_view(o: Option<String>) -> Option<Seq<char>> {
    match o {
        Some(s) => Some(s@),
        None => None,
    }
}

impl App {
    /// The open vaults, by name, each with its root id.
    pub closed spec fn vaults_view(&self) -> Map<Seq<char>, Seq<char>> {
        self.vaults@
    }

    /// The registered vaults, by name, each with the config file it came from.
    pub closed spec fn configs_view(&self) -> Map<Seq<char>, Seq<char>> {
        self.vault_configs@
    }

    /// The id of the directory being browsed.
    pub closed spec fn cwd_view(&self) -> Seq<char> {
        self.cwd@
    }

    /// The path of the directory being browsed.
    pub closed spec fn cwd_path_view(&self) -> Seq<char> {
        self.cwd_path@
    }

    /// The vault being browsed, if any.
    pub closed spec fn current_view(&self) -> Option<Seq<char>> {
        opt_view(self.current_vault)
    }

    /// The canonical root of the local vault, if one is configured.
    pub closed spec fn local_root_view(&self) -> Option<Seq<char>> {
        opt_view(self.local_root)
    }

    /// Whether the session is at the top level, above every vault.
    pub open spec fn at_top_level(&self) -> bool {
        &&& self.current_view() is None
        &&& self.cwd_view() == APP_ROOT_ID@
        &&& self.cwd_path_view() == seq!['/']
    }

    fn app_root_state() -> (r: (ObjectId, String))
        ensures
            r.0@ == APP_ROOT_ID@,
            r.1@ == seq!['/'],
    {
        (ObjectId::from_str(APP_ROOT_ID), string_of(&vec!['/']))
    }

    /// A session with no vaults, at the top level.
    pub fn new() -> (r: App)
        ensures
            r.vaults_view() == Map::<Seq<char>, Seq<char>>::empty(),
            r.configs_view() == Map::<Seq<char>, Seq<char>>::empty(),
            r.at_top_level(),
    {
        let (cwd, cwd_path) = Self::app_root_state();
        App { vaults: StrMap::new(), vault_configs: StrMap::new(), cwd, cwd_path, current_vault: None, local_root: None }
    }

    /// The path of the directory being browsed.
    pub fn pwd(&self) -> (r: String)
        ensures
            r@ == self.cwd_path_view(),
    {
        self.cwd_path.clone()
    }

    /// The id of the directory being browsed.
    pub fn cwd(&self) -> (r: ObjectId)
        ensures
            r@ == self.cwd_view(),
    {
        self.cwd.clone()
    }

    /// The vault being browsed, if any.
    pub fn current_vault(&self) -> (r: Option<String>)
        ensures
            opt_view(r) == self.current_view(),
    {
        match &self.current_vault {
            Some(v) => Some(v.clone()),
            None => None,
        }
    }

    /// Whether a vault of this name is open.
    pub fn has_vault(&self, name: &String) -> (b: bool)
        ensures
            b == self.vaults_view().contains_key(name@),
    {
        self.vaults.contains_key(name)
    }

    /// The root id of the open vault `name`.
    pub fn vault_root(&self, name: &String) -> (r: Option<ObjectId>)
        ensures
            match r {
                Some(id) => self.vaults_view().contains_key(name@) && id@ == self.vaults_view()[name@],
                None => !self.vaults_view().contains_key(name@),
            },
    {
        match self.vaults.get(name) {
            Some(root) => Some(ObjectId::new(root)),
            None => None,
        }
    }

    /// The config file `name` was registered from.
    pub fn vault_config(&self, name: &String) -> (r: Option<String>)
        ensures
            match r {
                Some(p) => self.configs_view().contains_key(name@) && p@ == self.configs_view()[name@],
                None => !self.configs_view().contains_key(name@),
            },
    {
        self.vault_configs.get(name)
    }

    /// The registered vaults' names, sorted (what the saved session records).
    pub fn registered_names(&self) -> (r: Vec<String>)
        ensures
            views(r@).to_set() == self.configs_view().dom(),
            views(r@).no_duplicates(),
    {
        self.vault_configs.sorted_keys()
    }

    /// The open vaults' names, sorted.
    pub fn vault_names(&self) -> (r: Vec<String>)
        ensures
            views(r@).to_set() == self.vaults_view().dom(),
            views(r@) == views(r@).sort_by(|a: Seq<char>, b: Seq<char>| lex_le(a, b)),
            views(r@).no_duplicates(),
    {
        self.vaults.sorted_keys()
    }

    /// Opens a vault without registering a config file for it (the local vault, or one the
    /// caller opened itself).
    pub fn add_vault(&mut self, name: String, root: ObjectId)
        ensures
            final(self).vaults_view() == old(self).vaults_view().insert(name@, root@),
            final(self).configs_view() == old(self).configs_view(),
            final(self).cwd_view() == old(self).cwd_view(),
            final(self).cwd_path_view() == old(self).cwd_path_view(),
            final(self).current_view() == old(self).current_view(),
    {
        self.vaults.insert(name, root.into_string());
    }

    /// Registers the vault `name` (root id `root`) read from the config file `cfg`.
    ///
    /// Re-registering the same config file is allowed and reloads it; a different file claiming
    /// a name that is already registered is refused, leaving the session as it was.
    pub fn new_vault(&mut self, name: String, root: ObjectId, cfg: String) -> (r: Result<(), AppError>)
        ensures
            registration_refused(old(self).configs_view(), name@, cfg@) ==> {
                &&& r matches Err(AppError::AlreadyRegistered(n, e))
                &&& n@ == name@
                &&& e@ == old(self).configs_view()[name@]
                &&& final(self).vaults_view() == old(self).vaults_view()
                &&& final(self).configs_view() == old(self).configs_view()
            },
            !registration_refused(old(self).configs_view(), name@, cfg@) ==> {
                &&& r is Ok
                &&& final(self).vaults_view() == old(self).vaults_view().insert(name@, root@)
                &&& final(self).configs_view() == old(self).configs_view().insert(name@, cfg@)
            },
            final(self).cwd_view() == old(self).cwd_view(),
            final(self).cwd_path_view() == old(self).cwd_path_view(),
            final(self).current_view() == old(self).current_view(),
    {
        if let Some(existing) = self.vault_configs.get(&name) {
            if existing != cfg {
                return Err(AppError::AlreadyRegistered(name, existing));
            }
        }
        self.vault_configs.insert(name.clone(), cfg);
        self.vaults.insert(name, root.into_string());
        Ok(())
    }

    /// Leaves any vault, back to the top level.
    pub fn leave(&mut self)
        ensures
            final(self).at_top_level(),
            final(self).vaults_view() == old(self).vaults_view(),
            final(self).configs_view() == old(self).configs_view(),
    {
        let (cwd, cwd_path) = Self::app_root_state();
        self.cwd = cwd;
        self.cwd_path = cwd_path;
        self.current_vault = None;
    }

    /// Stops tracking the vault `name`. The local vault is refused (its config recreates it),
    /// as is a name no vault has. Forgetting the vault being browsed returns to the top level.
    pub fn forget_vault(&mut self, name: String) -> (r: Result<(), AppError>)
        ensures
            name@ == LOCAL_VAULT_NAME@ ==> r == Err::<(), AppError>(AppError::LocalVaultManaged),
            name@ != LOCAL_VAULT_NAME@ && !old(self).vaults_view().contains_key(name@) ==> {
                &&& r matches Err(AppError::UnknownVault(n))
                &&& n@ == name@
            },
            r is Err ==> {
                &&& final(self).vaults_view() == old(self).vaults_view()
                &&& final(self).configs_view() == old(self).configs_view()
                &&& final(self).cwd_view() == old(self).cwd_view()
                &&& final(self).cwd_path_view() == old(self).cwd_path_view()
                &&& final(self).current_view() == old(self).current_view()
            },
            name@ != LOCAL_VAULT_NAME@ && old(self).vaults_view().contains_key(name@) ==> {
                &&& r is Ok
                &&& final(self).vaults_view() == old(self).vaults_view().remove(name@)
                &&& final(self).configs_view() == old(self).configs_view().remove(name@)
                &&& if old(self).current_view() == Some(name@) {
                    final(self).at_top_level()
                } else {
                    &&& final(self).cwd_view() == old(self).cwd_view()
                    &&& final(self).cwd_path_view() == old(self).cwd_path_view()
                    &&& final(self).current_view() == old(self).current_view()
                }
            },
    {
        let local = String::from_str(LOCAL_VAULT_NAME);
        if name == local {
            return Err(AppError::LocalVaultManaged);
        }
        if !self.vaults.contains_key(&name) {
            return Err(AppError::UnknownVault(name));
        }
        self.vaults.remove(&name);
        self.vault_configs.remove(&name);
        let is_current = match &self.current_vault {
            Some(c) => *c == name,
            None => false,
        };
        if is_current {
            self.leave();
        }
        Ok(())
    }

    /// Makes `name` the vault being browsed, at its root.
    pub fn select(&mut self, name: String) -> (r: Result<(), AppError>)
        ensures
            old(self).vaults_view().contains_key(name@) ==> {
                &&& r is Ok
                &&& final(self).current_view() == Some(name@)
                &&& final(self).cwd_view() == old(self).vaults_view()[name@]
                &&& final(self).cwd_path_view() == seq!['/']
            },
            !old(self).vaults_view().contains_key(name@) ==> {
                &&& r matches Err(AppError::UnknownVault(n))
                &&& n@ == name@
                &&& final(self).cwd_view() == old(self).cwd_view()
                &&& final(self).cwd_path_view() == old(self).cwd_path_view()
                &&& final(self).current_view() == old(self).current_view()
            },
            final(self).vaults_view() == old(self).vaults_view(),
            final(self).configs_view() == old(self).configs_view(),
    {
        match self.vaults.get(&name) {
            None => Err(AppError::UnknownVault(name)),
            Some(root) => {
                self.current_vault = Some(name);
                self.cwd = ObjectId::new(root);
                self.cwd_path = string_of(&vec!['/']);
                Ok(())
            },
        }
    }

    /// Moves into the directory `path` (id `id`) of the vault being browsed, once the caller
    /// has found it there.
    pub fn enter(&mut self, id: ObjectId, path: String)
        ensures
            final(self).cwd_view() == id@,
            final(self).cwd_path_view() == path@,
            final(self).current_view() == old(self).current_view(),
            final(self).vaults_view() == old(self).vaults_view(),
            final(self).configs_view() == old(self).configs_view(),
    {
        self.cwd = id;
        self.cwd_path = path;
    }
}

/// Where the local file at the canonical path `canonical` sits in the local vault whose
/// canonical root is `root`: its components below the root, as an absolute vault path.
pub open spec fn local_vault_path_of(canonical: Seq<char>, root: Seq<char>) -> Seq<char> {
    let a = kept_segments(canonical);
    render(a.subrange(kept_segments(root).len() as int, a.len() as int))
}

/// The components of `canonical` below `root`, as an absolute path.
fn below_root(canonical: &Vec<char>, root: &Vec<char>) -> (r: Vec<char>)
    requires
        within(canonical@, root@),
    ensures
        r@ == local_vault_path_of(canonical@, root@),
{
    let a = kept(canonical);
    let c = kept(root);
    let ghost av = kept_segments(canonical@);
    let start = c.len();
    let mut rest: Vec<Vec<char>> = Vec::new();
    let mut i = start;
    assert(rest@.map_values(|v: Vec<char>| v@) =~= av.subrange(start as int, i as int));
    while i < a.len()
        invariant
            start <= i <= a@.len(),
            a@.len() == av.len(),
            forall|j: int| 0 <= j < a@.len() ==> #[trigger] a@[j]@ == av[j],
            rest@.map_values(|v: Vec<char>| v@) == av.subrange(start as int, i as int),
        decreases a.len() - i,
    {
        let seg = copy_chars(&a[i]);
        assert(seg@ == av[i as int]);
        let ghost before = rest@.map_values(|v: Vec<char>| v@);
        rest.push(seg);
        assert(rest@.map_values(|v: Vec<char>| v@) =~= before.push(av[i as int]));
        i = i + 1;
        assert(rest@.map_values(|v: Vec<char>| v@) =~= av.subrange(start as int, i as int));
    }
    render_stack(&rest)
}

impl App {
    /// Where `input` leads from the directory `current`: an absolute input alone, a relative
    /// one appended to `current`, with `.` and `..` worked out (`..` at the root stays there).
    pub fn resolve_relative(current: &str, input: &str) -> (r: String)
        ensures
            r@ == resolved(current@, input@),
    {
        string_of(&resolve_relative(&chars_of(current), &chars_of(input)))
    }

    /// Where `put` places a local object in the target vault: the destination typed, resolved
    /// from the working directory, or else the working directory itself.
    pub fn put_destination(&self, dest: Option<&str>) -> (r: String)
        ensures
            r@ == match dest {
                Some(d) => resolved(self.cwd_path_view(), d@),
                None => self.cwd_path_view(),
            },
    {
        match dest {
            Some(d) => string_of(&resolve_relative(&chars_of(self.cwd_path.as_str()), &chars_of(d))),
            None => self.cwd_path.clone(),
        }
    }

    /// The local vault, which `put`, `get`, `push` and `pull` need open: its root id.
    pub fn local_vault_root(&self) -> (r: Result<ObjectId, AppError>)
        ensures
            match r {
                Ok(id) => self.vaults_view().contains_key(LOCAL_VAULT_NAME@) && id@ == self.vaults_view()[LOCAL_VAULT_NAME@],
                Err(e) => !self.vaults_view().contains_key(LOCAL_VAULT_NAME@) && e == AppError::NoLocalVault,
            },
    {
        match self.vault_root(&String::from_str(LOCAL_VAULT_NAME)) {
            Some(id) => Ok(id),
            None => Err(AppError::NoLocalVault),
        }
    }

    /// Sets the canonical root of the local vault (`None`: no local vault).
    pub fn set_local_root(&mut self, root: Option<String>)
        ensures
            final(self).local_root_view() == opt_view(root),
            final(self).vaults_view() == old(self).vaults_view(),
            final(self).configs_view() == old(self).configs_view(),
            final(self).cwd_view() == old(self).cwd_view(),
            final(self).cwd_path_view() == old(self).cwd_path_view(),
            final(self).current_view() == old(self).current_view(),
    {
        self.local_root = root;
    }

    /// Whether a local vault is configured.
    pub fn has_local_root(&self) -> (b: bool)
        ensures
            b == self.local_root_view() is Some,
    {
        self.local_root.is_some()
    }

    /// The local vault path of the user's local path `user_path`, given what making it
    /// canonical gave (`canonical`: the canonical path, or the system's reason it could not be
    /// found). Refused with no local vault, for a path that could not be found, and for one
    /// outside the local vault's root.
    pub fn resolve_local_path(&self, user_path: &str, canonical: Result<String, String>) -> (r: Result<String, AppError>)
        ensures
            self.local_root_view() is None ==> r == Err::<String, AppError>(AppError::LocalRootUnset),
            self.local_root_view() matches Some(root) ==> match canonical {
                Err(e) => r matches Err(AppError::PathInaccessible(m)) && m@ == e@,
                Ok(c) => if within(c@, root) {
                    r matches Ok(p) && p@ == local_vault_path_of(c@, root)
                } else {
                    r matches Err(AppError::OutsideLocalVault(u, q)) && u@ == user_path@ && q@ == root
                },
            },
    {
        match &self.local_root {
            None => Err(AppError::LocalRootUnset),
            Some(root) => match canonical {
                Err(e) => Err(AppError::PathInaccessible(e)),
                Ok(c) => {
                    let cv = chars_of(c.as_str());
                    let rv = chars_of(root.as_str());
                    if is_within(&cv, &rv) {
                        Ok(string_of(&below_root(&cv, &rv)))
                    } else {
                        Err(AppError::OutsideLocalVault(String::from_str(user_path), root.clone()))
                    }
                },
            },
        }
    }
}

/// The index of the first `c` in `s`, if any.
pub open spec fn first_index(s: Seq<char>, c: char) -> Option<int> {
    if exists|i: int| 0 <= i < s.len() && s[i] == c {
        Some(choose|i: int| 0 <= i < s.len() && s[i] == c && forall|j: int| 0 <= j < i ==> s[j] != c)
    } else {
        None
    }
}

/// The index of the first `c` in `v`.
fn find_first(v: &Vec<char>, c: char) -> (r: Option<usize>)
    ensures
        match r {
            Some(i) => first_index(v@, c) == Some(i as int) && i < v@.len() && v@[i as int] == c,
            None => first_index(v@, c) is None,
        },
{
    let mut i: usize = 0;
    while i < v.len()
        invariant
            i <= v@.len(),
            forall|j: int| 0 <= j < i ==> v@[j] != c,
        decreases v.len() - i,
    {
        if v[i] == c {
            assert((choose|k: int| 0 <= k < v@.len() && v@[k] == c && forall|j: int| 0 <= j < k ==> v@[j] != c) == i) by {
                let k = choose|k: int| 0 <= k < v@.len() && v@[k] == c && forall|j: int| 0 <= j < k ==> v@[j] != c;
                if k < i {
                } else if k > i {
                }
            }
            return Some(i);
        }
        i = i + 1;
    }
    None
}

/// The characters of `v` from `a` up to `b`, as a string.
fn slice_string(v: &Vec<char>, a: usize, b: usize) -> (r: String)
    requires
        a <= b <= v@.len(),
    ensures
        r@ == v@.subrange(a as int, b as int),
{
    let mut out: Vec<char> = Vec::new();
    let mut i = a;
    while i < b
        invariant
            a <= i <= b <= v@.len(),
            out@ == v@.subrange(a as int, i as int),
        decreases b - i,
    {
        out.push(v[i]);
        i = i + 1;
        assert(out@ =~= v@.subrange(a as int, i as int));
    }
    string_of(&out)
}

/// Where a copy or move goes from and to: each side's vault and absolute path.
pub struct TransferPlan {
    /// The vault holding the object.
    pub source_vault: String,
    /// The object's path there.
    pub source_path: String,
    /// The vault it goes to.
    pub dest_vault: String,
    /// The destination path there.
    pub dest_path: String,
}

/// The vault and path of a create, rename or delete.
pub struct Target {
    /// The vault.
    pub vault: String,
    /// The absolute path in it.
    pub path: String,
}

impl App {
    /// How `spec` splits into a vault and a path: `vault:path` when the text before the first
    /// `:` names an open vault, otherwise no vault and the whole spec as the path.
    pub open spec fn split_spec(&self, spec: Seq<char>) -> (Option<Seq<char>>, Seq<char>) {
        match first_index(spec, ':') {
            Some(i) => if self.vaults_view().contains_key(spec.subrange(0, i)) {
                (Some(spec.subrange(0, i)), spec.subrange(i + 1, spec.len() as int))
            } else {
                (None, spec)
            },
            None => (None, spec),
        }
    }

    /// Splits a `vault:path` spec into the vault it names and the path within it. The
    /// `vault:` prefix is what tells a vault from a sibling directory of the same name; a
    /// prefix naming no open vault leaves the spec whole, so a colon in an object's name is
    /// not taken for one.
    pub fn split_vault_spec(&self, spec: &str) -> (r: (Option<String>, String))
        ensures
            (opt_view(r.0), r.1@) == self.split_spec(spec@),
    {
        let v = chars_of(spec);
        let n = v.len();
        match find_first(&v, ':') {
            Some(i) => {
                let prefix = slice_string(&v, 0, i);
                if self.vaults.contains_key(&prefix) {
                    let rest = slice_string(&v, i + 1, n);
                    (Some(prefix), rest)
                } else {
                    (None, String::from_str(spec))
                }
            },
            None => (None, String::from_str(spec)),
        }
    }

    /// The vault and absolute path `spec` addresses: a vault-qualified spec from that vault's
    /// root; an unqualified one relative to the working directory, in `fallback` or else the
    /// vault being browsed.
    pub open spec fn spec_target(&self, spec: Seq<char>, fallback: Option<Seq<char>>) -> Result<(Seq<char>, Seq<char>), ()> {
        match self.split_spec(spec) {
            (Some(v), p) => Ok((v, resolved(seq!['/'], p))),
            (None, p) => match (if fallback is Some { fallback } else { self.current_view() }) {
                Some(v) => Ok((v, resolved(self.cwd_path_view(), p))),
                None => Err(()),
            },
        }
    }

    /// Resolves a `vault:path` spec to its vault and absolute path (see `spec_target`).
    pub fn resolve_spec(&self, spec: &str, fallback: Option<&str>) -> (r: Result<(String, String), AppError>)
        ensures
            match self.spec_target(spec@, match fallback {
                Some(f) => Some(f@),
                None => None,
            }) {
                Ok((v, p)) => r matches Ok((rv, rp)) && rv@ == v && rp@ == p,
                Err(()) => r == Err::<(String, String), AppError>(AppError::NoVaultSelected),
            },
    {
        let (vault, path) = self.split_vault_spec(spec);
        let pc = chars_of(path.as_str());
        match vault {
            Some(v) => {
                let root = vec!['/'];
                assert(root@ =~= seq!['/']);
                let p = resolve_relative(&root, &pc);
                Ok((v, string_of(&p)))
            },
            None => {
                let v = match fallback {
                    Some(f) => String::from_str(f),
                    None => match &self.current_vault {
                        Some(c) => c.clone(),
                        None => return Err(AppError::NoVaultSelected),
                    },
                };
                let cwd = chars_of(self.cwd_path.as_str());
                let p = resolve_relative(&cwd, &pc);
                Ok((v, string_of(&p)))
            },
        }
    }

    /// The vault an operation on `vault` acts on: the one named, or else the one being browsed.
    pub fn target_vault(&self, vault: Option<String>) -> (r: Result<String, AppError>)
        ensures
            match vault {
                Some(v) => r == Ok::<String, AppError>(v),
                None => match self.current_view() {
                    Some(c) => r matches Ok(s) && s@ == c,
                    None => r == Err::<String, AppError>(AppError::NoVaultSelected),
                },
            },
    {
        match vault {
            Some(v) => Ok(v),
            None => match &self.current_vault {
                Some(c) => Ok(c.clone()),
                None => Err(AppError::NoVaultSelected),
            },
        }
    }

    /// Plans a copy or move of `name` to `destination`, both `vault:path` specs resolved in
    /// `vault` (see `resolve_spec`). Copying an object into its own subtree is refused: the copy
    /// would recurse into itself forever. The comparison is by whole path components.
    pub fn plan_transfer(&self, name: &str, destination: &str, vault: Option<&str>) -> (r: Result<TransferPlan, AppError>)
        ensures
            ({
                let f = match vault {
                    Some(v) => Some(v@),
                    None => None,
                };
                match (self.spec_target(name@, f), self.spec_target(destination@, f)) {
                    (Ok((sv, sp)), Ok((dv, dp))) => if sv == dv && within(dp, sp) {
                        r matches Err(AppError::IntoItself(d, s)) && d@ == dp && s@ == sp
                    } else {
                        r matches Ok(plan) && plan.source_vault@ == sv && plan.source_path@ == sp && plan.dest_vault@ == dv
                            && plan.dest_path@ == dp
                    },
                    _ => r == Err::<TransferPlan, AppError>(AppError::NoVaultSelected),
                }
            }),
    {
        let (sv, sp) = match self.resolve_spec(name, vault) {
            Ok(x) => x,
            Err(e) => return Err(e),
        };
        let (dv, dp) = match self.resolve_spec(destination, vault) {
            Ok(x) => x,
            Err(e) => return Err(e),
        };
        let svc = chars_of(sv.as_str());
        let dvc = chars_of(dv.as_str());
        let spc = chars_of(sp.as_str());
        let dpc = chars_of(dp.as_str());
        if crate::text::chars_eq(&svc, &dvc) && is_within(&dpc, &spc) {
            return Err(AppError::IntoItself(dp, sp));
        }
        Ok(TransferPlan { source_vault: sv, source_path: sp, dest_vault: dv, dest_path: dp })
    }

    /// Plans a create of the object `path` (a `vault:path` spec): its vault, full path, name and
    /// parent directory. A path with no last component (the root) is refused.
    pub fn plan_create(&self, path: &str, vault: Option<&str>) -> (r: Result<(Target, String, String), AppError>)
        ensures
            match self.spec_target(path@, match vault {
                Some(v) => Some(v@),
                None => None,
            }) {
                Err(()) => r == Err::<(Target, String, String), AppError>(AppError::NoVaultSelected),
                Ok((v, p)) => match file_name_of(p) {
                    None => r matches Err(AppError::InvalidPath(q)) && q@ == p,
                    Some(n) => r matches Ok((t, name, parent)) && t.vault@ == v && t.path@ == p && name@ == n
                        && parent@ == parent_of(p)->Some_0,
                },
            },
    {
        let (v, p) = match self.resolve_spec(path, vault) {
            Ok(x) => x,
            Err(e) => return Err(e),
        };
        let pc = chars_of(p.as_str());
        let name = match file_name(&pc) {
            Some(n) => string_of(&n),
            None => return Err(AppError::InvalidPath(p)),
        };
        let parent = match parent(&pc) {
            Some(q) => string_of(&q),
            None => return Err(AppError::InvalidPath(p)),
        };
        Ok((Target { vault: v, path: p }, name, parent))
    }

    /// Plans a rename of `path` (a `vault:path` spec) to `new_name`: the object's vault, its
    /// path, and the path it will have. A blank name or one holding `/` is refused, and so is
    /// renaming the root.
    pub fn plan_rename(&self, path: &str, new_name: &str, vault: Option<&str>) -> (r: Result<(Target, String), AppError>)
        ensures
            (new_name@.len() == 0 || new_name@.contains('/')) ==> (r matches Err(AppError::InvalidName(n)) && n@ == new_name@),
            !(new_name@.len() == 0 || new_name@.contains('/')) ==> match self.spec_target(path@, match vault {
                Some(v) => Some(v@),
                None => None,
            }) {
                Err(()) => r == Err::<(Target, String), AppError>(AppError::NoVaultSelected),
                Ok((v, p)) => match parent_of(p) {
                    None => r == Err::<(Target, String), AppError>(AppError::RenameRoot),
                    Some(q) => r matches Ok((t, to)) && t.vault@ == v && t.path@ == p && to@ == joined(q, new_name@),
                },
            },
    {
        let nc = chars_of(new_name);
        if nc.len() == 0 {
            return Err(AppError::InvalidName(String::from_str(new_name)));
        }
        match find_first(&nc, '/') {
            Some(_) => return Err(AppError::InvalidName(String::from_str(new_name))),
            None => {},
        }
        let (v, p) = match self.resolve_spec(path, vault) {
            Ok(x) => x,
            Err(e) => return Err(e),
        };
        let pc = chars_of(p.as_str());
        let q = match parent(&pc) {
            Some(q) => q,
            None => return Err(AppError::RenameRoot),
        };
        let to = join_name(&q, &nc);
        Ok((Target { vault: v, path: p }, string_of(&to)))
    }

    /// Plans a delete of `path` (a `vault:path` spec). The vault root cannot be deleted.
    pub fn plan_delete(&self, path: &str, vault: Option<&str>) -> (r: Result<Target, AppError>)
        ensures
            match self.spec_target(path@, match vault {
                Some(v) => Some(v@),
                None => None,
            }) {
                Err(()) => r == Err::<Target, AppError>(AppError::NoVaultSelected),
                Ok((v, p)) => if p == seq!['/'] {
                    r == Err::<Target, AppError>(AppError::DeleteRoot)
                } else {
                    r matches Ok(t) && t.vault@ == v && t.path@ == p
                },
            },
    {
        let (v, p) = match self.resolve_spec(path, vault) {
            Ok(x) => x,
            Err(e) => return Err(e),
        };
        let pc = chars_of(p.as_str());
        if pc.len() == 1 && pc[0] == '/' {
            assert(pc@ =~= seq!['/']);
            return Err(AppError::DeleteRoot);
        }
        Ok(Target { vault: v, path: p })
    }
}

/// Whether a copy that keeps its name (a destination that is an existing directory) would land
/// in the directory the object already is in: refused within one vault, since the origin's
/// `put` would truncate the file before it could be read.
pub fn check_already_in(plan: &TransferPlan, into_existing_directory: bool) -> (r: Result<(), AppError>)
    ensures
        (plan.source_vault@ == plan.dest_vault@ && into_existing_directory && parent_of(plan.source_path@) == Some(plan.dest_path@))
            ==> (r matches Err(AppError::AlreadyIn(s, d)) && s@ == plan.source_path@ && d@ == plan.dest_path@),
        !(plan.source_vault@ == plan.dest_vault@ && into_existing_directory && parent_of(plan.source_path@) == Some(plan.dest_path@))
            ==> r is Ok,
{
    let sv = chars_of(plan.source_vault.as_str());
    let dv = chars_of(plan.dest_vault.as_str());
    if !crate::text::chars_eq(&sv, &dv) || !into_existing_directory {
        return Ok(());
    }
    let sp = chars_of(plan.source_path.as_str());
    let dp = chars_of(plan.dest_path.as_str());
    match parent(&sp) {
        Some(q) => if crate::text::chars_eq(&q, &dp) {
            Err(AppError::AlreadyIn(plan.source_path.clone(), plan.dest_path.clone()))
        } else {
            Ok(())
        },
        None => Ok(()),
    }
}

/// Where a copy to a path that does not exist yet lands: that path's parent directory, under
/// its last component. A destination without one (the root) is refused.
pub fn destination_parts(dest_path: &str) -> (r: Result<(String, String), AppError>)
    ensures
        match (parent_of(dest_path@), file_name_of(dest_path@)) {
            (Some(q), Some(n)) => r matches Ok((p, name)) && p@ == q && name@ == n,
            _ => r matches Err(AppError::InvalidDestination(d)) && d@ == dest_path@,
        },
{
    let pc = chars_of(dest_path);
    match (parent(&pc), file_name(&pc)) {
        (Some(q), Some(n)) => Ok((string_of(&q), string_of(&n))),
        _ => Err(AppError::InvalidDestination(String::from_str(dest_path))),
    }
}

/// Where a copy or move lands.
pub enum Destination {
    /// An existing directory: the object goes inside it under its own name.
    Into(ObjectId),
    /// A path not there yet: the object goes into this directory under this name.
    As(ObjectId, String),
}

/// What a copy or move destination that exists means: a directory (`found`, with id `id`) is
/// copied into; anything else is refused, since an origin's `put` truncates and a mistyped
/// destination would be destroyed.
pub fn existing_destination(dest_path: &str, id: ObjectId, found: &Object) -> (r: Result<Destination, AppError>)
    ensures
        has_children(*found) ==> r == Ok::<Destination, AppError>(Destination::Into(id)),
        !has_children(*found) ==> (r matches Err(AppError::AlreadyExists(p)) && p@ == dest_path@),
{
    match found {
        Object::Leaf { .. } => Err(AppError::AlreadyExists(String::from_str(dest_path))),
        _ => Ok(Destination::Into(id)),
    }
}

/// What a copy or move destination that does not exist yet means: it lands in `parent` under
/// `name` (see `destination_parts`) when that parent was found (its id and object) and is a
/// directory.
pub fn new_destination(parent: String, name: String, parent_found: Option<(ObjectId, Object)>) -> (r: Result<
    Destination,
    AppError,
>)
    ensures
        match parent_found {
            None => r == Err::<Destination, AppError>(AppError::NoSuchDirectory(parent)),
            Some((id, o)) => if has_children(o) {
                r == Ok::<Destination, AppError>(Destination::As(id, name))
            } else {
                r == Err::<Destination, AppError>(AppError::NotADirectory(parent))
            },
        },
{
    match parent_found {
        None => Err(AppError::NoSuchDirectory(parent)),
        Some((id, o)) => match o {
            Object::Leaf { .. } => Err(AppError::NotADirectory(parent)),
            _ => Ok(Destination::As(id, name)),
        },
    }
}

/// Whether a delete of `found` must first learn if it is empty: only a directory deleted
/// without `force` must, since a leaf cannot be listed.
pub fn delete_needs_listing(force: bool, found: &Object) -> (b: bool)
    ensures
        b == (!force && has_children(*found)),
{
    !force && !matches!(found, Object::Leaf { .. })
}

/// A delete of the directory `path`, which holds `children` objects, without `force`: refused
/// unless it is empty, so a mistyped path cannot take a subtree with it.
pub fn check_empty(path: &str, children: usize) -> (r: Result<(), AppError>)
    ensures
        children == 0 ==> r is Ok,
        children > 0 ==> (r matches Err(AppError::NotEmpty(p)) && p@ == path@),
{
    if children == 0 {
        Ok(())
    } else {
        Err(AppError::NotEmpty(String::from_str(path)))
    }
}

/// Registering a config file is never refused right after that same file was registered
/// under that name: re-registering reloads.
pub proof fn lemma_reregistering_is_allowed(configs: Map<Seq<char>, Seq<char>>, name: Seq<char>, cfg: Seq<char>)
    ensures
        !registration_refused(configs.insert(name, cfg), name, cfg),
{
}

/// Once a vault is forgotten, its name is free: registering any config file under it is
/// not refused.
pub proof fn lemma_forgotten_name_is_free(configs: Map<Seq<char>, Seq<char>>, name: Seq<char>, cfg: Seq<char>)
    ensures
        !registration_refused(configs.remove(name), name, cfg),
{
}

/// A vault-qualified spec ignores the working directory and the fallback vault: it always
/// resolves from that vault's root.
pub proof fn lemma_qualified_spec_ignores_context(s: &App, spec: Seq<char>, f1: Option<Seq<char>>, f2: Option<Seq<char>>)
    requires
        s.split_spec(spec).0 is Some,
    ensures
        s.spec_target(spec, f1) == s.spec_target(spec, f2),
        s.spec_target(spec, f1) matches Ok((_, p)) && is_absolute(p),
{
    crate::path::lemma_resolved_is_normal(seq!['/'], s.split_spec(spec).1);
}

/// An unqualified spec is resolved in the vault the command names when it names one, whatever
/// vault is being browsed; only without one does the vault being browsed stand in (and with
/// neither there is no target). Either way the path is the spec taken from the working
/// directory.
pub proof fn lemma_named_vault_wins(s: &App, spec: Seq<char>, f: Seq<char>)
    requires
        s.split_spec(spec).0 is None,
    ensures
        s.spec_target(spec, Some(f)) == Ok::<(Seq<char>, Seq<char>), ()>((f, resolved(s.cwd_path_view(), spec))),
        s.spec_target(spec, None) == match s.current_view() {
            Some(c) => Ok::<(Seq<char>, Seq<char>), ()>((c, resolved(s.cwd_path_view(), spec))),
            None => Err(()),
        },
{
}

/// Every path a spec resolves to is absolute and already normal.
pub proof fn lemma_spec_paths_are_normal(s: &App, spec: Seq<char>, f: Option<Seq<char>>)
    ensures
        s.spec_target(spec, f) matches Ok((_, p)) ==> is_absolute(p) && normalized(p) == p,
{
    let (v, p) = s.split_spec(spec);
    if v is Some {
        crate::path::lemma_resolved_is_normal(seq!['/'], p);
    } else {
        crate::path::lemma_resolved_is_normal(s.cwd_path_view(), p);
    }
}

/// What a `cd` asks of the caller.
pub enum CdPlan {
    /// Back at the top level; nothing to look up.
    Done,
    /// Select this vault, then (if given) `cd` into the rest of the path inside it.
    Select(String, Option<String>),
    /// Find this absolute path in the vault being browsed and `enter` it.
    Find(String),
}

/// How a `cd` argument splits at the top level: the first component names the vault (`/` for
/// a path starting at the root), the rest (leading `/`s dropped) is a path inside it.
pub open spec fn cd_split(path: Seq<char>) -> (Seq<char>, Seq<char>) {
    if path.len() > 0 && path[0] == '/' {
        (seq!['/'], crate::daemon::strip_slashes(path))
    } else {
        match first_index(path, '/') {
            Some(i) => (path.subrange(0, i), crate::daemon::strip_slashes(path.subrange(i, path.len() as int))),
            None => (path, Seq::empty()),
        }
    }
}

/// How a `cd` argument splits at the top level (see `cd_split`).
fn split_cd(pc: &Vec<char>) -> (r: (String, String))
    requires
        pc@.len() > 0,
    ensures
        (r.0@, r.1@) == cd_split(pc@),
{
    let (first, start) = if pc[0] == '/' {
        (string_of(&vec!['/']), 0usize)
    } else {
        match find_first(pc, '/') {
            Some(i) => (slice_string(pc, 0, i), i),
            None => (slice_string(pc, 0, pc.len()), pc.len()),
        }
    };
    assert(pc@.subrange(0, pc@.len() as int) =~= pc@);
    let mut k = start;
    while k < pc.len() && pc[k] == '/'
        invariant
            start <= k <= pc@.len(),
            crate::daemon::strip_slashes(pc@.subrange(start as int, pc@.len() as int)) == crate::daemon::strip_slashes(
                pc@.subrange(k as int, pc@.len() as int),
            ),
        decreases pc.len() - k,
    {
        assert(pc@.subrange(k + 1, pc@.len() as int) =~= pc@.subrange(k as int, pc@.len() as int).subrange(1, pc@.len() - k));
        k = k + 1;
    }
    let rest = slice_string(pc, k, pc.len());
    assert(k == pc@.len() || pc@[k as int] != '/');
    proof {
        if start == pc@.len() {
            assert(rest@ =~= Seq::<char>::empty());
        }
    }
    (first, rest)
}

impl App {
    /// Plans a `cd`: no argument returns to the top level; at the top level the argument's
    /// first component selects a vault and the rest is entered inside it; inside a vault the
    /// argument is resolved against the working directory and has to be found there.
    pub fn cd_plan(&mut self, path: Option<String>) -> (r: Result<CdPlan, AppError>)
        ensures
            path is None ==> final(self).at_top_level() && r matches Ok(CdPlan::Done),
            path matches Some(p) ==> (old(self).current_view() is None ==> if p@.len() == 0 {
                r == Err::<CdPlan, AppError>(AppError::InvalidCdPath)
            } else {
                r matches Ok(CdPlan::Select(v, rest)) && v@ == cd_split(p@).0 && match rest {
                    Some(q) => q@ == cd_split(p@).1 && q@.len() > 0,
                    None => cd_split(p@).1.len() == 0,
                }
            }),
            path matches Some(p) ==> (old(self).current_view() is Some ==> (r matches Ok(CdPlan::Find(q)) && q@ == resolved(
                old(self).cwd_path_view(),
                p@,
            ))),
            path is Some ==> final(self).cwd_view() == old(self).cwd_view() && final(self).current_view() == old(self).current_view()
                && final(self).cwd_path_view() == old(self).cwd_path_view() && *final(self) == *old(self),
            final(self).vaults_view() == old(self).vaults_view(),
            final(self).configs_view() == old(self).configs_view(),
    {
        let p = match path {
            Some(p) => p,
            None => {
                self.leave();
                return Ok(CdPlan::Done);
            },
        };
        let pc = chars_of(p.as_str());
        if self.current_vault.is_none() {
            if pc.len() == 0 {
                return Err(AppError::InvalidCdPath);
            }
            let (first, rest) = split_cd(&pc);
            if rest.as_str().unicode_len() == 0 {
                return Ok(CdPlan::Select(first, None));
            }
            return Ok(CdPlan::Select(first, Some(rest)));
        }
        let cwd = chars_of(self.cwd_path.as_str());
        let q = resolve_relative(&cwd, &pc);
        Ok(CdPlan::Find(string_of(&q)))
    }

    /// The vault names a partial `cd` argument completes to at the top level: those starting
    /// with `word`, sorted, each once.
    #[verifier::spinoff_prover]
    pub fn vault_name_completions(&self, word: &str) -> (r: Vec<String>)
        ensures
            self.vault_completions(word@, views(r@)),
    {
        let names = self.vaults.sorted_keys();
        let w = chars_of(word);
        let ghost all = views(names@);
        let ghost leq = |a: Seq<char>, b: Seq<char>| lex_le(a, b);
        proof {
            crate::order::lemma_lex_le_total_ordering();
            all.lemma_sort_by_ensures(leq);
        }
        let mut out: Vec<String> = Vec::new();
        let mut i: usize = 0;
        while i < names.len()
            invariant
                i <= names@.len(),
                all == views(names@),
                w@ == word@,
                sorted_by(all, leq),
                all.no_duplicates(),
                leq == (|a: Seq<char>, b: Seq<char>| lex_le(a, b)),
                forall|x: Seq<char>| views(out@).contains(x) <==> (exists|j: int| 0 <= j < i && all[j] == x && starts_with_text(x, word@)),
                sorted_by(views(out@), leq),
                views(out@).no_duplicates(),
            decreases names.len() - i,
        {
            let c = chars_of(names[i].as_str());
            assert(c@ == all[i as int]);
            if w.len() <= c.len() && crate::text::matches_at(&c, &w, 0) {
                let ghost before = views(out@);
                out.push(names[i].clone());
                let ghost x = all[i as int];
                assert(views(out@) =~= before.push(x));
                assert forall|k: int| 0 <= k < before.len() implies #[trigger] lex_le(before[k], x) && before[k] != x by {
                    assert(before.contains(before[k]));
                    let j = choose|j: int| 0 <= j < i && all[j] == before[k] && starts_with_text(before[k], word@);
                    assert(leq(all[j], all[i as int]));
                }
                assert forall|a: int, b: int| 0 <= a < b < views(out@).len() implies views(out@)[a] != views(out@)[b] by {
                    if b < before.len() {
                        assert(before[a] != before[b]);
                    } else {
                        assert(views(out@)[a] == before[a]);
                        assert(views(out@)[b] == x);
                        assert(before.contains(before[a]));
                        let j = choose|j: int| 0 <= j < i && all[j] == before[a] && starts_with_text(before[a], word@);
                        assert(all[j] != all[i as int]);
                    }
                }
                assert forall|y: Seq<char>| views(out@).contains(y) <==> (exists|j: int| 0 <= j < i + 1 && all[j] == y && starts_with_text(y, word@)) by {
                    if views(out@).contains(y) && y != x {
                        let k = choose|k: int| 0 <= k < views(out@).len() && views(out@)[k] == y;
                        assert(before.contains(y)) by {
                            assert(before[k] == y);
                        }
                    }
                    if exists|j: int| 0 <= j < i + 1 && all[j] == y && starts_with_text(y, word@) {
                        let j = choose|j: int| 0 <= j < i + 1 && all[j] == y && starts_with_text(y, word@);
                        if j < i {
                            assert(before.contains(y));
                            let k = choose|k: int| 0 <= k < before.len() && before[k] == y;
                            assert(views(out@)[k] == y);
                        } else {
                            assert(views(out@)[before.len() as int] == y);
                        }
                    }
                }
            } else {
                assert(!starts_with_text(all[i as int], word@));
                assert forall|y: Seq<char>| views(out@).contains(y) <==> (exists|j: int| 0 <= j < i + 1 && all[j] == y && starts_with_text(y, word@)) by {
                    if exists|j: int| 0 <= j < i + 1 && all[j] == y && starts_with_text(y, word@) {
                        let j = choose|j: int| 0 <= j < i + 1 && all[j] == y && starts_with_text(y, word@);
                        assert(j < i);
                    }
                }
            }
            i = i + 1;
        }
        assert forall|n: Seq<char>| views(out@).contains(n) <==> (self.vaults_view().contains_key(n) && starts_with_text(n, word@)) by {
            assert(all.to_set().contains(n) <==> all.contains(n));
            if self.vaults_view().contains_key(n) && starts_with_text(n, word@) {
                assert(all.to_set().contains(n));
                let j = choose|j: int| 0 <= j < all.len() && all[j] == n;
            }
        }
        out
    }

    /// Whether `v` is what the partial `cd` argument `word` completes to at the top level:
    /// the open vaults' names that start with `word`, sorted, each once.
    pub open spec fn vault_completions(&self, word: Seq<char>, v: Seq<Seq<char>>) -> bool {
        &&& forall|n: Seq<char>| v.contains(n) <==> (self.vaults_view().contains_key(n) && starts_with_text(n, word))
        &&& sorted_by(v, |a: Seq<char>, b: Seq<char>| lex_le(a, b))
        &&& v.no_duplicates()
    }
}

/// Whether `s` starts with `prefix`.
pub open spec fn starts_with_text(s: Seq<char>, prefix: Seq<char>) -> bool {
    prefix.len() <= s.len() && s.subrange(0, prefix.len() as int) == prefix
}


/// The index of the last `c` in `s`, if any.
pub open spec fn last_index(s: Seq<char>, c: char) -> Option<int> {
    if exists|i: int| 0 <= i < s.len() && s[i] == c {
        Some(choose|i: int| 0 <= i < s.len() && s[i] == c && forall|j: int| i < j < s.len() ==> s[j] != c)
    } else {
        None
    }
}

/// The index of the last `c` in `v`.
fn find_last(v: &Vec<char>, c: char) -> (r: Option<usize>)
    ensures
        match r {
            Some(i) => last_index(v@, c) == Some(i as int) && i < v@.len() && v@[i as int] == c,
            None => last_index(v@, c) is None,
        },
{
    let mut k: usize = v.len();
    while k > 0
        invariant
            k <= v@.len(),
            forall|j: int| k <= j < v@.len() ==> v@[j] != c,
        decreases k,
    {
        let i = k - 1;
        if v[i] == c {
            assert((choose|m: int| 0 <= m < v@.len() && v@[m] == c && forall|j: int| m < j < v@.len() ==> v@[j] != c) == i) by {
                let m = choose|m: int| 0 <= m < v@.len() && v@[m] == c && forall|j: int| m < j < v@.len() ==> v@[j] != c;
                if m < i {
                } else if m > i {
                }
            }
            return Some(i);
        }
        k = i;
    }
    None
}

/// How a partial `cd` argument splits for listing: the directory part before its last `/`
/// and the name prefix after it (no directory part without a `/`).
pub open spec fn dir_and_prefix(word: Seq<char>) -> (Seq<char>, Seq<char>) {
    match last_index(word, '/') {
        Some(i) => (word.subrange(0, i), word.subrange(i + 1, word.len() as int)),
        None => (Seq::empty(), word),
    }
}

/// What is written before each directory name offered under the directory part `dir`.
pub open spec fn shown_dir(dir: Seq<char>) -> Seq<char> {
    if dir.len() == 0 {
        Seq::empty()
    } else {
        dir + seq!['/']
    }
}

/// What a partial `cd` argument completes to.
#[derive(Debug, PartialEq, Eq)]
pub enum CdCompletion {
    /// These names.
    Names(Vec<String>),
    /// The directories of `dir` in `vault` whose names start with `prefix`, each written
    /// behind `shown` (see `branch_completions`).
    Branches { vault: String, dir: String, prefix: String, shown: String },
}

/// The directory names among `children` that start with `prefix`, each behind `shown`, in
/// listing order.
pub open spec fn branch_names(children: Seq<Object>, prefix: Seq<char>, shown: Seq<char>) -> Seq<Seq<char>>
    decreases children.len(),
{
    if children.len() == 0 {
        Seq::empty()
    } else {
        let rest = branch_names(children.drop_last(), prefix, shown);
        let o = children.last();
        if o is Branch && starts_with_text(o.name_spec(), prefix) {
            rest.push(shown + o.name_spec())
        } else {
            rest
        }
    }
}

/// Whether `p` begins `s`.
fn begins_with(s: &Vec<char>, p: &Vec<char>) -> (b: bool)
    ensures
        b == starts_with_text(s@, p@),
{
    if p.len() > s.len() {
        return false;
    }
    let mut i: usize = 0;
    while i < p.len()
        invariant
            p@.len() <= s@.len(),
            i <= p@.len(),
            forall|j: int| 0 <= j < i ==> p@[j] == s@[j],
        decreases p.len() - i,
    {
        if p[i] != s[i] {
            assert(s@.subrange(0, p@.len() as int)[i as int] != p@[i as int]);
            return false;
        }
        i = i + 1;
    }
    assert(p@ =~= s@.subrange(0, p@.len() as int));
    true
}

/// The completions a listed directory gives: the names of its subdirectories that start with
/// `prefix`, each written behind `shown`, sorted.
pub fn branch_completions(children: &Vec<Object>, prefix: &str, shown: &str) -> (r: Vec<String>)
    ensures
        views(r@) == branch_names(children@, prefix@, shown@).sort_by(|a: Seq<char>, b: Seq<char>| lex_le(a, b)),
{
    let p = chars_of(prefix);
    let mut out: Vec<String> = Vec::new();
    let mut i: usize = 0;
    proof {
        assert(children@.subrange(0, 0) =~= Seq::<Object>::empty());
        assert(views(out@) =~= Seq::<Seq<char>>::empty());
    }
    while i < children.len()
        invariant
            i <= children@.len(),
            p@ == prefix@,
            views(out@) == branch_names(children@.subrange(0, i as int), prefix@, shown@),
        decreases children.len() - i,
    {
        assert(children@.subrange(0, i + 1).drop_last() =~= children@.subrange(0, i as int));
        let o = &children[i];
        if o.is_branch() {
            let name = o.get_name();
            if begins_with(&chars_of(name.as_str()), &p) {
                let ghost before = views(out@);
                out.push(cat(shown, name.as_str()));
                assert(views(out@) =~= before.push(shown@ + name@));
            }
        }
        i = i + 1;
    }
    assert(children@.subrange(0, children@.len() as int) =~= children@);
    sort_strings(out)
}

impl App {
    /// What the partial `cd` argument `word` completes to. At the top level: the vault names
    /// it starts, or, past a `vault/`, the directories of that vault (from its root) that the
    /// rest starts, written behind `vault/`. Inside a vault: the directories, from the working
    /// directory, that the word starts. The directory part of what is typed (up to its last
    /// `/`) says which directory is listed, and is written before each name offered. A vault
    /// that is not open offers nothing.
    #[verifier::spinoff_prover]
    #[verifier::rlimit(40)]
    pub fn cd_completions(&self, word: &str) -> (r: CdCompletion)
        ensures
            match self.current_view() {
                None => match first_index(word@, '/') {
                    None => r matches CdCompletion::Names(v) && self.vault_completions(word@, views(v@)),
                    Some(i) => {
                        let name = word@.subrange(0, i);
                        let rest = word@.subrange(i + 1, word@.len() as int);
                        if self.vaults_view().contains_key(name) {
                            r matches CdCompletion::Branches { vault, dir, prefix, shown } && {
                                &&& vault@ == name
                                &&& dir@ == resolved(seq!['/'], dir_and_prefix(rest).0)
                                &&& prefix@ == dir_and_prefix(rest).1
                                &&& shown@ == name + seq!['/'] + shown_dir(dir_and_prefix(rest).0)
                            }
                        } else {
                            r matches CdCompletion::Names(v) && v@.len() == 0
                        }
                    },
                },
                Some(current) => if self.vaults_view().contains_key(current) {
                    r matches CdCompletion::Branches { vault, dir, prefix, shown } && {
                        &&& vault@ == current
                        &&& dir@ == resolved(self.cwd_path_view(), dir_and_prefix(word@).0)
                        &&& prefix@ == dir_and_prefix(word@).1
                        &&& shown@ == shown_dir(dir_and_prefix(word@).0)
                    }
                } else {
                    r matches CdCompletion::Names(v) && v@.len() == 0
                },
            },
    {
        let w = chars_of(word);
        match &self.current_vault {
            None => match find_first(&w, '/') {
                None => {
                    CdCompletion::Names(self.vault_name_completions(word))
                },
                Some(i) => {
                    let name = slice_string(&w, 0, i);
                    if !self.vaults.contains_key(&name) {
                        return CdCompletion::Names(Vec::new());
                    }
                    let n = w.len();
                    let rest = chars_between(&w, i + 1, n);
                    let root = vec!['/'];
                    assert(root@ =~= seq!['/']);
                    let (dir, prefix, shown) = Self::listing_of(&root, &rest);
                    let mut full = chars_of(name.as_str());
                    full.push('/');
                    push_all(&mut full, &shown);
                    assert(full@ =~= name@ + seq!['/'] + shown@);
                    CdCompletion::Branches { vault: name, dir: string_of(&dir), prefix: string_of(&prefix), shown: string_of(&full) }
                },
            },
            Some(current) => {
                if !self.vaults.contains_key(current) {
                    return CdCompletion::Names(Vec::new());
                }
                let base = chars_of(self.cwd_path.as_str());
                let (dir, prefix, shown) = Self::listing_of(&base, &w);
                CdCompletion::Branches {
                    vault: current.clone(),
                    dir: string_of(&dir),
                    prefix: string_of(&prefix),
                    shown: string_of(&shown),
                }
            },
        }
    }

    /// For a partial name `w` typed from the directory `base`: the directory to list, the
    /// name prefix, and what to write before each name offered.
    fn listing_of(base: &Vec<char>, w: &Vec<char>) -> (r: (Vec<char>, Vec<char>, Vec<char>))
        ensures
            r.0@ == resolved(base@, dir_and_prefix(w@).0),
            r.1@ == dir_and_prefix(w@).1,
            r.2@ == shown_dir(dir_and_prefix(w@).0),
    {
        match find_last(w, '/') {
            Some(i) => {
                let dir = chars_between(w, 0, i);
                let n = w.len();
                let prefix = chars_between(w, i + 1, n);
                let mut shown = copy_chars(&dir);
                if dir.len() > 0 {
                    shown.push('/');
                } else {
                    assert(shown@ =~= Seq::<char>::empty());
                }
                (resolve_relative(base, &dir), prefix, shown)
            },
            None => {
                let empty: Vec<char> = Vec::new();
                assert(empty@ =~= Seq::<char>::empty());
                (resolve_relative(base, &empty), copy_chars(w), Vec::new())
            },
        }
    }
}

/// The characters of `v` from `a` up to `b`.
fn chars_between(v: &Vec<char>, a: usize, b: usize) -> (r: Vec<char>)
    requires
        a <= b <= v@.len(),
    ensures
        r@ == v@.subrange(a as int, b as int),
{
    let mut out: Vec<char> = Vec::new();
    let mut i = a;
    while i < b
        invariant
            a <= i <= b <= v@.len(),
            out@ == v@.subrange(a as int, i as int),
        decreases b - i,
    {
        out.push(v[i]);
        i = i + 1;
        assert(out@ =~= v@.subrange(a as int, i as int));
    }
    out
}

} // verus!
