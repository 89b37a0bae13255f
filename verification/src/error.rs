//! The failures that planning and synchronisation can report.

use vstd::prelude::*;

verus! {

/// What went wrong, by class.
#[derive(Clone, Copy, Debug, PartialEq, Eq, Structural)]
pub enum ErrorKind {
    /// A path or setting cannot be used.
    Configuration,
    /// The repository is not in the state that an operation needs.
    RepositoryState,
    /// An external tool could not be started.
    ProcessInvocation,
    /// An external tool ran and failed.
    ProcessExit,
    /// Output matched no known shape.
    Parse,
    /// Nothing matches a requested package.
    NotFound,
}

/// A failure: its class and the text shown to the user.
#[derive(Clone, Debug, PartialEq, Eq)]
pub struct VxError {
    pub kind: ErrorKind,
    pub message: String,
}

/// A failure as a mathematical value.
pub struct VxErrorView {
    pub kind: ErrorKind,
    pub message: Seq<char>,
}

impl View for VxError {
    type V = VxErrorView;

    open spec fn view(&self) -> VxErrorView {
        VxErrorView { kind: self.kind, message: self.message@ }
    }
}

impl VxError {
    /// A failure of class `kind` with the text `message`.
    pub fn new(kind: ErrorKind, message: String) -> (e: VxError)
        ensures
            e@ == (VxErrorView { kind, message: message@ }),
    {
        VxError { kind, message }
    }

    /// The text of this failure.
    pub fn to_string(&self) -> (s: String)
        ensures
            s@ == self@.message,
    {
        self.message.clone()
    }
}

/// The failure of a request that lacks what it must name; it carries the
/// usage that is shown.
pub open spec fn usage(text: Seq<char>) -> VxErrorView {
    VxErrorView { kind: ErrorKind::Configuration, message: text }
}

/// The failure of a request that lacks what it must name.
pub fn usage_error(text: &str) -> (e: VxError)
    ensures
        e@ == usage(text@),
{
    VxError::new(ErrorKind::Configuration, text.to_owned())
}

} // verus!
