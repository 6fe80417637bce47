use vstd::prelude::*;

pub mod extract;
pub mod json;
pub mod runner;
pub mod server;
pub mod store;
pub mod text;

verus! {

/// Where persisted records live: nowhere, or in a database file at a path.
#[derive(Debug, Clone)]
pub enum PersistenceMode {
    Disabled,
    Path(String),
}

/// Why a call failed. Execution-path failures abort the call; the two
/// persistence conditions are only ever reported beside a tool result,
/// never in place of one.
#[derive(Debug)]
pub enum ToolError {
    /// The workspace could not be set up; carries the underlying cause.
    ProvisioningFailed(String),
    /// The external process could not be started; carries the underlying cause.
    SpawnFailed(String),
    /// The deadline passed and the process was killed.
    TimedOut,
    /// A stream-reading task itself failed.
    DrainFailed,
    /// Persistence was asked for but no store is available.
    PersistenceUnavailable,
    /// A record pointed at an analysis that does not exist.
    ForeignKeyViolation,
    /// The store could not be read or written.
    StorageError,
}

} // verus!
