//! Physical reorganization of indexed files: templates, planning, space
//! estimation and the decisions taken while applying or rolling back a plan.
pub mod checksum;
pub mod executor;
pub mod journey;
pub mod planner;
pub mod rollback;
pub mod space;
pub mod templates;
