//! Storage for Magent runs, checkpoints, memory and background jobs.
//!
//! A [`Store`] is the state, as tables of rows. Every operation on it is a method whose
//! contract says which rows it leaves and what it answers. Every mutation that carries an
//! operation identifier is idempotent on it, so that a caller which retries after a crash
//! cannot duplicate state.
//!
//! An operation that needs a new identifier or the time of day stands here twice: once under
//! its own name, which takes both from the outside, and once under a name that ends in `_at`,
//! which is given them and whose answer is therefore fixed.

// The vocabulary.
pub mod text;
pub mod order;
pub mod outside;
pub mod ids;
pub mod states;
pub mod moment;
pub mod domain;
pub mod error;
pub mod values;
pub mod paths;

// The tables.
pub mod rows;
pub mod tables;
pub mod keys;
pub mod migrations;
pub mod operations;

// Runs, sessions and background jobs.
pub mod git;
pub mod repositories;
pub mod plan;
pub mod store;
pub mod sessions;
pub mod ledger;
pub mod jobs;

// Memory.
pub mod facts;
pub mod retrieval;
pub mod toolchain;
pub mod curation;

// Workspaces and what they depend on.
pub mod grouping;
pub mod setup;
pub mod deps;

// The spec-driven process.
pub mod sdd;

// What holds across operations.
pub mod text_laws;
pub mod wording_laws;
pub mod idempotence;
pub mod invariants;
pub mod memory_laws;
pub mod search_laws;
pub mod curation_laws;
pub mod fact_laws;
pub mod detection_laws;
pub mod workspace_laws;
pub mod checkout_laws;
pub mod run_laws;
pub mod plan_laws;
pub mod session_laws;
pub mod resume_laws;
pub mod work_laws;
pub mod place_laws;

pub use curation::{FactFilter, Overview, RunRow};
pub use deps::{dependency_checkout, Dependency, DependencySpec, DependencyStatus};
pub use error::StoreError;
pub use facts::{namespace_candidates, FactContext, FactQuery};
pub use git::{normalize_origin, state as git_state, RepositoryProbe};
pub use grouping::WorkspaceGrouping;
pub use jobs::{Job, JobState};
pub use migrations::CURRENT_VERSION;
pub use repositories::WorkspaceResolution;
pub use sessions::SessionBinding;
pub use setup::{GroupingProposal, Sibling};
pub use tables::Store;
pub use toolchain::detect_toolchain;
