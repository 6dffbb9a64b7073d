//! Integration of generated RPC stub packages into a destination WIT tree.
//!
//! The crate reconciles two resolved WIT package trees: a generated stub
//! package (with its transitive interface dependencies) and a destination
//! project. It classifies every package of the stub tree relative to the
//! destination, breaks the self-referential dependency cycle, plans a list
//! of overwrite-safe file actions, and executes them against an in-memory
//! snapshot of file contents. All filesystem reads and writes stay with the
//! caller, which hands in the snapshots and applies the returned writes.

pub mod action;
pub mod error;
pub mod integrate;
pub mod names;
pub mod paths;
pub mod planner;
pub mod report;
pub mod resolved;
pub mod runner;
pub mod rewrite;
pub mod tree;

pub use action::{Action, ActionPlan};
pub use error::Error;
pub use integrate::{add_stub_dependency, IntegrationOutcome, UpdateCargoToml};
pub use names::PackageName;
pub use resolved::{PackageClass, PackageSources, ResolvedDir};
pub use tree::FileTree;
