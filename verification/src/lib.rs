//! Transforms the line-delimited JSON event logs of a build toolchain's test
//! runner, linter and dependency-audit tools into the structured report
//! formats a CI dashboard consumes.
//!
//! The stateful heart of the crate is the run correlator in [`correlate`],
//! which rebuilds a tree of suites and testcases from a flat event stream,
//! and the plaintext record scanner in [`plaintext`], which splits a
//! human-readable audit report into vulnerability records.  The remaining
//! modules are the data models of the input and output schemas and the
//! stateless mappings between them.

pub mod audit;
pub mod cargo;
pub mod clippy;
pub mod code_climate;
pub mod correlate;
pub mod errors;
pub mod fingerprint;
pub mod generate;
pub mod geiger;
pub mod gitlab_security_report;
pub mod junit;
pub mod plaintext;
pub mod sast;
pub mod timestamp;
pub mod textfmt;
