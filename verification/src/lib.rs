//! The planning core of `vx`, a front end to the package manager of a
//! distribution that ships both binary packages and the definitions to build
//! them from source.
//!
//! The library decides what is out of date, for the system and for a list of
//! managed source packages, and what has to be done to bring it up to date.
//! It runs no tool and touches no file: whatever is read is handed to it as
//! plain values, and whatever is to be done is handed back as a value. Each
//! function states what it returns in a contract that Verus proves.
//!
//! - [`cache`]: freshness stamps with a time to live.
//! - [`source::git`]: synchronising the upstream reference and holding a
//!   clean worktree pinned to it, as state machines.
//! - [`source::plan`]: reading the version of a package definition, and
//!   planning the update of source packages.
//! - [`xbps::query`]: the index of installed packages.
//! - [`source::add`]: finding the local repository that holds a package.
//! - [`xbps::parse`]: reading the preview of a dry run.
//! - [`source::xbps_src`]: laying local definitions over the worktree.
//! - [`xbps::plan`]: planning the update of the system.

pub mod cache;
pub mod cli;
pub mod config;
pub mod error;
pub mod log;
pub mod managed;
pub mod paths;
pub mod pkg;
pub mod source;
pub mod text;
pub mod tool;
pub mod xbps;
