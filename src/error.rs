//! Failures that the engine reports.
use vstd::prelude::*;
use crate::agent::Agent;

verus! {

/// Why a command could not be carried out.
#[derive(Debug, Clone, PartialEq, Eq)]
pub enum CommandError {
    /// No `package.json` in the directory or any of its ancestors.
    ManifestNotFound { dir: String },
    /// The `package.json` at `path` could not be read or is not JSON.
    ManifestParse { path: String },
    /// The agent has no counterpart of the flag.
    UnsupportedFlag { agent: Agent, flag: String },
}

} // verus!
