//! The package manager: what is installed, what an update would change, and
//! the commands that are handed to it.

pub mod install;
pub mod parse;
pub mod plan;
pub mod query;

pub use plan::{plan_system_updates_fresh, SysUpdate};
