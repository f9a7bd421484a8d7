//! Alexandria: a local index of digital assets. This crate holds the verified
//! core: file classification, name grouping, the reorganization template
//! engine, planning and space estimation, and the decisions of plan execution.
use vstd::prelude::*;

pub mod text;
pub mod paths;
pub mod error;
pub mod models;
pub mod groups;
pub mod extractors;
pub mod query;
pub mod scanner;
pub mod config;
pub mod cli;
pub mod api;
pub mod reorganizer;
pub mod system;

verus! {
}
