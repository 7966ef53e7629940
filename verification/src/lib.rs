//! Nimbus: a tree of objects (a vault) whose storage lives behind a pluggable origin.
//!
//! This crate holds the logic of the vault model, its origins' command and URL templating,
//! the session registry shared by the command-line and terminal frontends, the daemon's
//! request checks, and the vault-creation wizard. Every operation here is a plain
//! computation over the library's own types; the I/O that drives it lives with the caller.

pub mod browser;
pub mod cli_config;
pub mod completion;
pub mod config;
pub mod creator;
pub mod daemon;
pub mod error;
pub mod frontend;
pub mod grammar;
pub mod object;
pub mod opener;
pub mod order;
pub mod origin_command;
pub mod origin_fs;
pub mod origin_http;
pub mod path;
pub mod session;
pub mod strmap;
pub mod text;
pub mod ui;
pub mod vault;
pub mod widgets;
pub mod wrap;

use vstd::prelude::*;

verus! {

/// Conventional root id, used by `ObjectId::default` and `Object::root`.
pub const ROOT_ID: &'static str = "/";

/// The version of the nimbus tools.
pub const VERSION: &'static str = "0.2.0";

} // verus!
