//! Branch health for git repositories: classifies branches by the age of their last
//! commit, and plans which stale, merged branches may safely be deleted.
pub mod application;
pub mod branch;
pub mod classify;
pub mod config;
pub mod plan;
pub mod policy;
pub mod scope;

pub use application::BranchHealthApplication;
pub use branch::{Branch, BranchScope};
pub use classify::{classify, classify_branch};
pub use config::{BranchHealthConfig, CommandLine, ConfigError, LogLevel};
pub use plan::{plan, Decision, DeletionOutcome, PlanEntry, PrunePlan, SkipReason};
pub use policy::{HealthState, Policy, ScopeFilter};
pub use scope::{select_branches, ReadError};
