//! The commands of this tool, as far as planning decides on them.

use crate::log::Log;
use vstd::prelude::*;

verus! {

/// A command line.
#[derive(Debug, Clone)]
pub struct Cli {
    /// Reduce output; failures still show.
    pub quiet: bool,
    /// Show the commands that are run.
    pub verbose: bool,
    /// The checkout to work on, where the command line names one.
    pub voidpkgs: Option<String>,
    pub cmd: Cmd,
}

/// A command.
#[derive(Debug, Clone)]
#[allow(inconsistent_fields)]
pub enum Cmd {
    /// Show where the settings and the checkout come from.
    Status,
    /// Search packages.
    Search { installed: bool, term: Vec<String> },
    /// Show what a repository knows of a package.
    Info { pkg: String },
    /// List the files of an installed package.
    Files { pkg: String },
    /// Find the installed package that owns a path.
    Provides { path: String },
    /// Install packages.
    Add { yes: bool, pkgs: Vec<String> },
    /// Remove packages.
    Rm { yes: bool, pkgs: Vec<String> },
    /// Update the system and, with `all`, the managed source packages.
    Up { all: bool, dry_run: bool, force: bool, yes: bool },
    /// Work on source packages.
    Src { cmd: SrcCmd },
    /// Work on the definition of one package.
    Pkg {
        name: Option<String>,
        gensum: bool,
        force: bool,
        content: bool,
        arch: Option<String>,
        hostdir: Option<String>,
        cmd: Option<PkgCmd>,
    },
}

/// A command on the definition of one package.
#[derive(Debug, Clone)]
pub enum PkgCmd {
    /// Make the definition of a new package.
    New { name: String },
}

/// A command on source packages.
#[derive(Debug, Clone)]
pub enum SrcCmd {
    /// Build packages.
    Build { pkgs: Vec<String> },
    /// Remove the build files of packages.
    Clean { pkgs: Vec<String> },
    /// Check the definitions of packages.
    Lint { pkgs: Vec<String> },
    /// Search the definitions by name.
    Search { installed: bool, term: String },
    /// Install built packages from the local repositories, after a rebuild
    /// where `rebuild` is set.
    Add { force: bool, rebuild: bool, yes: bool, pkgs: Vec<String> },
    /// Rebuild and install packages that are out of date.
    Up { all: bool, dry_run: bool, force: bool, yes: bool, remote: bool, pkgs: Vec<String> },
}

impl Cli {
    /// How much the command line asks to be shown.
    pub fn log(&self) -> (log: Log)
        ensures
            log.quiet == self.quiet,
            log.verbose == self.verbose,
    {
        Log { quiet: self.quiet, verbose: self.verbose }
    }
}

impl SrcCmd {
    /// Whether the command asks for two things that exclude each other: an
    /// installation that is both forced and rebuilt.
    pub fn is_contradictory(&self) -> (b: bool)
        ensures
            b == (self is Add && self->Add_force && self->Add_rebuild),
    {
        match self {
            SrcCmd::Add { force, rebuild, .. } => *force && *rebuild,
            _ => false,
        }
    }

    /// Whether the upstream reference is synchronised before the command
    /// runs: before an update, and before an installation that rebuilds.
    pub fn needs_sync(&self) -> (b: bool)
        ensures
            b == (self is Up || (self is Add && self->Add_rebuild)),
    {
        match self {
            SrcCmd::Up { .. } => true,
            SrcCmd::Add { rebuild, .. } => *rebuild,
            _ => false,
        }
    }
}

} // verus!
