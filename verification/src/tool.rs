//! How a run of an external tool ended, and the failure that it stands for.

use crate::cache::{decimal, to_decimal};
use crate::error::{ErrorKind, VxError, VxErrorView};
use crate::text::{from_chars, join2, join3, join4, to_chars, trim, trimmed};
use vstd::prelude::*;

verus! {

/// How a run of an external tool ended.
#[derive(Debug, Clone, PartialEq, Eq)]
pub enum ToolOutcome {
    /// The tool could not be started, and why.
    NotStarted(String),
    /// The tool ran and ended.
    Exited {
        /// Its exit code, unless a signal ended it.
        code: Option<i32>,
        stdout: String,
        stderr: String,
    },
}

/// A run as a mathematical value.
pub enum ToolOutcomeView {
    NotStarted(Seq<char>),
    Exited { code: Option<i32>, stdout: Seq<char>, stderr: Seq<char> },
}

impl View for ToolOutcome {
    type V = ToolOutcomeView;

    open spec fn view(&self) -> ToolOutcomeView {
        match self {
            ToolOutcome::NotStarted(why) => ToolOutcomeView::NotStarted(why@),
            ToolOutcome::Exited { code, stdout, stderr } => ToolOutcomeView::Exited {
                code: *code,
                stdout: stdout@,
                stderr: stderr@,
            },
        }
    }
}

/// Whether the tool ran and ended with exit code 0.
pub open spec fn succeeded(o: ToolOutcomeView) -> bool {
    o matches ToolOutcomeView::Exited { code, .. } && code == Some(0i32)
}

/// `n` in decimal digits, with a minus sign where it is negative.
pub open spec fn int_text(n: int) -> Seq<char> {
    if n < 0 {
        "-"@ + decimal((-n) as nat)
    } else {
        decimal(n as nat)
    }
}

/// The failure that a run of `what` stands for, if it failed: a tool that
/// did not start could not be invoked; one that ended with another code than
/// 0 failed, and the failure carries what the tool wrote to its error stream
/// or, where it wrote nothing, its exit code (1 where a signal ended it).
pub open spec fn tool_failure(what: Seq<char>, o: ToolOutcomeView) -> Option<VxErrorView> {
    match o {
        ToolOutcomeView::NotStarted(why) => Some(
            VxErrorView {
                kind: ErrorKind::ProcessInvocation,
                message: "failed to run "@ + what + ": "@ + why,
            },
        ),
        ToolOutcomeView::Exited { code, stdout, stderr } => if code == Some(0i32) {
            None
        } else if trim(stderr).len() == 0 {
            Some(
                VxErrorView {
                    kind: ErrorKind::ProcessExit,
                    message: what + " failed (exit="@ + int_text(
                        match code {
                            Some(c) => c as int,
                            None => 1,
                        },
                    ) + ")"@,
                },
            )
        } else {
            Some(
                VxErrorView {
                    kind: ErrorKind::ProcessExit,
                    message: what + " failed: "@ + trim(stderr),
                },
            )
        },
    }
}

impl ToolOutcome {
    /// Whether the tool ran and ended with exit code 0.
    pub fn success(&self) -> (b: bool)
        ensures
            b == succeeded(self@),
    {
        match self {
            ToolOutcome::NotStarted(_) => false,
            ToolOutcome::Exited { code, .. } => match code {
                Some(c) => *c == 0,
                None => false,
            },
        }
    }
}

/// `n` in decimal digits, with a minus sign where it is negative.
pub fn int_to_text(n: i32) -> (s: String)
    ensures
        s@ == int_text(n as int),
{
    if n < 0 {
        let m: u64 = (-(n as i64)) as u64;
        let digits = to_decimal(m);
        join2("-", digits.as_str())
    } else {
        to_decimal(n as u64)
    }
}

/// The failure that a run of `what` stands for, if it failed.
pub fn check_outcome(what: &str, o: &ToolOutcome) -> (r: Result<(), VxError>)
    ensures
        match r {
            Ok(_) => tool_failure(what@, o@) is None,
            Err(e) => tool_failure(what@, o@) == Some(e@),
        },
{
    match o {
        ToolOutcome::NotStarted(why) => Err(
            VxError::new(
                ErrorKind::ProcessInvocation,
                join4("failed to run ", what, ": ", why.as_str()),
            ),
        ),
        ToolOutcome::Exited { code, stdout, stderr } => {
            let ok = match code {
                Some(c) => *c == 0,
                None => false,
            };
            if ok {
                return Ok(());
            }
            let err = from_chars(&trimmed(&to_chars(stderr.as_str())));
            if err.as_str().unicode_len() == 0 {
                let shown = int_to_text(
                    match code {
                        Some(c) => *c,
                        None => 1,
                    },
                );
                Err(
                    VxError::new(
                        ErrorKind::ProcessExit,
                        join4(what, " failed (exit=", shown.as_str(), ")"),
                    ),
                )
            } else {
                Err(VxError::new(ErrorKind::ProcessExit, join3(what, " failed: ", err.as_str())))
            }
        },
    }
}

/// The failure of a state machine that is handed an event which does not
/// answer the action that it asked for.
pub open spec fn out_of_turn() -> VxErrorView {
    VxErrorView {
        kind: ErrorKind::ProcessInvocation,
        message: "the event does not answer the action that was asked for"@,
    }
}

/// The failure of a state machine that is handed an event out of turn.
pub fn out_of_turn_error() -> (e: VxError)
    ensures
        e@ == out_of_turn(),
{
    VxError::new(
        ErrorKind::ProcessInvocation,
        "the event does not answer the action that was asked for".to_owned(),
    )
}

} // verus!
