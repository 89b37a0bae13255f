//! What is shown to the user, and when.

use crate::text::join2;
use vstd::prelude::*;

verus! {

/// How much is shown.
#[derive(Debug, Clone, Copy)]
pub struct Log {
    /// Show failures only.
    pub quiet: bool,
    /// Show the commands that are run.
    pub verbose: bool,
}

impl Log {
    /// The line that tells `msg`: none where output is quiet.
    pub fn info(&self, msg: &str) -> (line: Option<String>)
        ensures
            match line {
                Some(l) => !self.quiet && l@ == msg@,
                None => self.quiet,
            },
    {
        if self.quiet {
            None
        } else {
            Some(msg.to_owned())
        }
    }

    /// The line that warns of `msg`: none where output is quiet.
    pub fn warn(&self, msg: &str) -> (line: Option<String>)
        ensures
            match line {
                Some(l) => !self.quiet && l@ == "warning: "@ + msg@,
                None => self.quiet,
            },
    {
        if self.quiet {
            None
        } else {
            Some(join2("warning: ", msg))
        }
    }

    /// The line that reports the failure `msg`; it is shown in any case.
    pub fn error(&self, msg: &str) -> (line: String)
        ensures
            line@ == "error: "@ + msg@,
    {
        join2("error: ", msg)
    }

    /// The line that traces the command `msg`: shown where output is verbose
    /// and not quiet.
    pub fn exec(&self, msg: &str) -> (line: Option<String>)
        ensures
            match line {
                Some(l) => self.verbose && !self.quiet && l@ == "exec: "@ + msg@,
                None => !self.verbose || self.quiet,
            },
    {
        if !self.verbose || self.quiet {
            None
        } else {
            Some(join2("exec: ", msg))
        }
    }
}

} // verus!
