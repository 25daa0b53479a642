//! Package-manager agnostic command dispatching for JavaScript projects:
//! recognizes the project's package manager, and plans `install`, `run` and
//! `add` in its own words, with the declaration packages that an `add` in a
//! TypeScript project lacks.
pub mod add;
pub mod agent;
pub mod cli;
pub mod error;
pub mod execute;
pub mod fs;
pub mod http;
pub mod install;
pub mod install_ts_types;
pub mod json;
pub mod run;
pub mod run_optimized;
pub mod text;
