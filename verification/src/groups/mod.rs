//! Detection of groups of related files from their names.
pub mod matcher;

pub use matcher::{match_name, GroupKind, MatchResult};
