//! Configuration: the provider, the endpoint and the options of a run, resolved
//! from the environment, `git config` and an optional file.
pub mod provider;
pub mod types;
pub mod values;
pub mod git_values;
pub mod resolve;
pub mod sources;

pub use self::types::{Config, ReasoningEffort};
pub use crate::diff_sampling::budget::DiffBudgetConfig;
