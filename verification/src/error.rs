//! The error type of vault operations.

use vstd::prelude::*;
use crate::text::{cat, cat3};

verus! {

/// What went wrong in a vault operation. Failures of outside libraries (I/O, JSON, HTTP, TOML)
/// are carried as their messages.
#[derive(Debug, PartialEq, Eq)]
pub enum VaultError {
    /// A catch-all error for conditions that don't fit a more specific variant.
    Generic(String),
    /// The requested object/id/url/name doesn't exist at the origin.
    NotFound(String),
    /// A method was called on an object or vault in a state that doesn't support it.
    InvalidMethodCall,
    /// `fetch` was called on a vault that has no origin configured.
    FetchToVaultWithNoOrigin(String),
    /// The vault being created already exists.
    AlreadyExists,
    /// A code path that should be statically unreachable was reached.
    Unreachable,
    /// The vault is locked and can't be operated on.
    Locked,
    /// The vault is unlocked when a locked state was expected.
    Unlocked,
    /// An origin-specific operation failed; the string carries the origin's own detail.
    OriginError(String),
    /// An I/O failure, by its message.
    Io(String),
    /// A JSON failure, by its message.
    Json(String),
    /// An HTTP client failure, by its message.
    HTTP(String),
    /// A TOML parse failure, by its message.
    Toml(String),
    /// A TOML serialisation failure, by its message.
    TomlSer(String),
}

impl VaultError {
    /// The error's message.
    pub open spec fn message_spec(&self) -> Seq<char> {
        match self {
            VaultError::Generic(s) => "Vault error: "@ + s@,
            VaultError::NotFound(s) => "Object not found: "@ + s@,
            VaultError::InvalidMethodCall => "Invalid method call"@,
            VaultError::FetchToVaultWithNoOrigin(n) => "Called fetch on vault "@ + n@ + ", but "@ + n@
                + " has no Origin defined"@,
            VaultError::AlreadyExists => "Vault already exists"@,
            VaultError::Unreachable => "Unreachable pattern reached"@,
            VaultError::Locked => "Vault is locked"@,
            VaultError::Unlocked => "Vault is unlocked"@,
            VaultError::OriginError(s) => "Origin Error: "@ + s@,
            VaultError::Io(s) => "io error:"@ + s@,
            VaultError::Json(s) => "json error:"@ + s@,
            VaultError::HTTP(s) => "HTTP Error"@ + s@,
            VaultError::Toml(s) => "Toml Error:"@ + s@,
            VaultError::TomlSer(s) => "Toml Error:"@ + s@,
        }
    }

    /// The error's message.
    pub fn message(&self) -> (r: String)
        ensures
            r@ == self.message_spec(),
    {
        match self {
            VaultError::Generic(s) => cat("Vault error: ", s.as_str()),
            VaultError::NotFound(s) => cat("Object not found: ", s.as_str()),
            VaultError::InvalidMethodCall => String::from_str("Invalid method call"),
            VaultError::FetchToVaultWithNoOrigin(n) => cat3("Called fetch on vault ", n.as_str(), ", but ")
                .concat(n.as_str()).concat(" has no Origin defined"),
            VaultError::AlreadyExists => String::from_str("Vault already exists"),
            VaultError::Unreachable => String::from_str("Unreachable pattern reached"),
            VaultError::Locked => String::from_str("Vault is locked"),
            VaultError::Unlocked => String::from_str("Vault is unlocked"),
            VaultError::OriginError(s) => cat("Origin Error: ", s.as_str()),
            VaultError::Io(s) => cat("io error:", s.as_str()),
            VaultError::Json(s) => cat("json error:", s.as_str()),
            VaultError::HTTP(s) => cat("HTTP Error", s.as_str()),
            VaultError::Toml(s) => cat("Toml Error:", s.as_str()),
            VaultError::TomlSer(s) => cat("Toml Error:", s.as_str()),
        }
    }

    /// Whether this is `NotFound`: the "doesn't exist yet" answer that decides whether an
    /// object needs to be created.
    pub fn is_not_found(&self) -> (b: bool)
        ensures
            b == (self is NotFound),
    {
        matches!(self, VaultError::NotFound(_))
    }
}

} // verus!
