//! System update plans.

use crate::error::{VxError, VxErrorView};
use crate::text::join3;
use crate::tool::{
    ToolOutcome, ToolOutcomeView, check_outcome, out_of_turn, out_of_turn_error, succeeded,
    tool_failure,
};
use crate::xbps::parse::{is_preview_result, parse_xbps_sun_plan};
use crate::xbps::query::InstalledIndex;
use vstd::prelude::*;

verus! {

/// One package that a system update would change.
#[derive(Debug, Clone, PartialEq, Eq)]
pub struct SysUpdate {
    pub name: String,
    pub from: String,
    pub to: String,
}

/// A system update candidate as a mathematical value.
pub struct SysUpdateView {
    pub name: Seq<char>,
    pub from: Seq<char>,
    pub to: Seq<char>,
}

impl View for SysUpdate {
    type V = SysUpdateView;

    open spec fn view(&self) -> SysUpdateView {
        SysUpdateView { name: self.name@, from: self.from@, to: self.to@ }
    }
}

/// The candidates that a vector of updates holds, in order.
pub open spec fn updates_view(v: Seq<SysUpdate>) -> Seq<SysUpdateView> {
    Seq::new(v.len(), |i: int| v[i]@)
}

/// The key under which the freshness cache holds the last synchronisation
/// of the repository metadata.
pub fn repodata_cache_key() -> (key: String)
    ensures
        key@ == "xbps.repodata.sync"@,
{
    "xbps.repodata.sync".to_owned()
}

/// Where the planning of a system update stands.
#[derive(Clone, Copy, Debug, PartialEq, Eq, Structural)]
pub enum SysPlanState {
    /// Nothing is known yet.
    Start,
    /// The repository metadata is being synchronised.
    Syncing,
    /// The dry run is being made.
    Previewing,
    /// The plan is made.
    Done,
    /// The planning failed.
    Failed,
}

/// What the last action of the planning brought back.
#[derive(Debug, Clone)]
pub enum SysPlanEvent {
    /// What was found at the start: whether a synchronisation is asked for
    /// in any case, and whether the cache holds a fresh one.
    Started { force_sync: bool, fresh: bool },
    /// How the package manager ended.
    Ran(ToolOutcome),
}

/// An event of the planning as a mathematical value.
pub enum SysPlanEventView {
    Started { force_sync: bool, fresh: bool },
    Ran(ToolOutcomeView),
}

impl View for SysPlanEvent {
    type V = SysPlanEventView;

    open spec fn view(&self) -> SysPlanEventView {
        match self {
            SysPlanEvent::Started { force_sync, fresh } => SysPlanEventView::Started {
                force_sync: *force_sync,
                fresh: *fresh,
            },
            SysPlanEvent::Ran(o) => SysPlanEventView::Ran(o@),
        }
    }
}

/// What the planning asks for next.
#[derive(Debug, Clone)]
pub enum SysPlanAction {
    /// Synchronise the repository metadata.
    Sync,
    /// Make the dry run of an update; before it, mark the synchronisation in
    /// the cache where `mark` is set.
    Preview { mark: bool },
    /// Nothing: this is the plan.
    Finish(Vec<SysUpdate>),
    /// Nothing: the planning failed.
    Fail(VxError),
}

/// An action of the planning as a mathematical value.
pub enum SysPlanActionView {
    Sync,
    Preview { mark: bool },
    Finish(Seq<SysUpdateView>),
    Fail(VxErrorView),
}

impl View for SysPlanAction {
    type V = SysPlanActionView;

    open spec fn view(&self) -> SysPlanActionView {
        match self {
            SysPlanAction::Sync => SysPlanActionView::Sync,
            SysPlanAction::Preview { mark } => SysPlanActionView::Preview { mark: *mark },
            SysPlanAction::Finish(plan) => SysPlanActionView::Finish(updates_view(plan@)),
            SysPlanAction::Fail(e) => SysPlanActionView::Fail(e@),
        }
    }
}

/// The text that a dry run is read from: what it wrote to its output, a
/// line feed, and what it wrote to its error stream.
pub open spec fn preview_text(stdout: Seq<char>, stderr: Seq<char>) -> Seq<char> {
    stdout + "\n"@ + stderr
}

/// Whether `(next, action)` is a step of the planning from `state` on
/// `event`.
///
/// The metadata is synchronised where that is asked for or the cache holds
/// no fresh synchronisation; a synchronisation that succeeded is marked. The
/// dry run follows, and what it wrote is read into the plan. A tool that
/// fails, or a dry run that cannot be read, ends the planning.
pub open spec fn is_sys_plan_step(
    state: SysPlanState,
    event: SysPlanEventView,
    installed: Map<Seq<char>, Seq<char>>,
    next: SysPlanState,
    action: SysPlanActionView,
) -> bool {
    match (state, event) {
        (SysPlanState::Start, SysPlanEventView::Started { force_sync, fresh }) => if force_sync
            || !fresh {
            next == SysPlanState::Syncing && action == SysPlanActionView::Sync
        } else {
            next == SysPlanState::Previewing && action == (SysPlanActionView::Preview {
                mark: false,
            })
        },
        (SysPlanState::Syncing, SysPlanEventView::Ran(o)) => match tool_failure(
            "xbps-install -S"@,
            o,
        ) {
            Some(e) => next == SysPlanState::Failed && action == SysPlanActionView::Fail(e),
            None => next == SysPlanState::Previewing && action == (SysPlanActionView::Preview {
                mark: true,
            }),
        },
        (SysPlanState::Previewing, SysPlanEventView::Ran(o)) => match tool_failure(
            "xbps-install -un"@,
            o,
        ) {
            Some(e) => next == SysPlanState::Failed && action == SysPlanActionView::Fail(e),
            None => match action {
                SysPlanActionView::Finish(plan) => next == SysPlanState::Done
                    && is_preview_result(
                    preview_text(o->stdout, o->stderr),
                    installed,
                    Ok(plan),
                ),
                SysPlanActionView::Fail(e) => next == SysPlanState::Failed && is_preview_result(
                    preview_text(o->stdout, o->stderr),
                    installed,
                    Err(e),
                ),
                _ => false,
            },
        },
        _ => next == SysPlanState::Failed && action == SysPlanActionView::Fail(out_of_turn()),
    }
}

/// One step of the planning of a system update: the next state and the
/// next action, given the state and what the last action brought back. It
/// starts in `Start` with the event `Started`. `installed` gives the
/// versions that columnar rows update from.
pub fn plan_system_updates_inner(
    state: SysPlanState,
    event: &SysPlanEvent,
    installed: &InstalledIndex,
) -> (r: (SysPlanState, SysPlanAction))
    ensures
        is_sys_plan_step(state, event@, installed@, r.0, r.1@),
{
    match (state, event) {
        (SysPlanState::Start, SysPlanEvent::Started { force_sync, fresh }) => {
            if *force_sync || !*fresh {
                (SysPlanState::Syncing, SysPlanAction::Sync)
            } else {
                (SysPlanState::Previewing, SysPlanAction::Preview { mark: false })
            }
        },
        (SysPlanState::Syncing, SysPlanEvent::Ran(o)) => match check_outcome("xbps-install -S", o) {
            Err(e) => (SysPlanState::Failed, SysPlanAction::Fail(e)),
            Ok(_) => (SysPlanState::Previewing, SysPlanAction::Preview { mark: true }),
        },
        (SysPlanState::Previewing, SysPlanEvent::Ran(o)) => match check_outcome(
            "xbps-install -un",
            o,
        ) {
            Err(e) => (SysPlanState::Failed, SysPlanAction::Fail(e)),
            Ok(_) => match o {
                ToolOutcome::Exited { code, stdout, stderr } => {
                    let text = join3(stdout.as_str(), "\n", stderr.as_str());
                    match parse_xbps_sun_plan(text.as_str(), installed) {
                        Ok(plan) => (SysPlanState::Done, SysPlanAction::Finish(plan)),
                        Err(e) => (SysPlanState::Failed, SysPlanAction::Fail(e)),
                    }
                },
                ToolOutcome::NotStarted(_) => (
                    SysPlanState::Failed,
                    SysPlanAction::Fail(out_of_turn_error()),
                ),
            },
        },
        _ => (SysPlanState::Failed, SysPlanAction::Fail(out_of_turn_error())),
    }
}

/// How many actions the planning may still ask for.
pub open spec fn plan_steps_left(state: SysPlanState) -> nat {
    match state {
        SysPlanState::Start => 3,
        SysPlanState::Syncing => 2,
        SysPlanState::Previewing => 1,
        SysPlanState::Done => 0,
        SysPlanState::Failed => 0,
    }
}

/// Every step of the planning brings it nearer to its end: it fails, or
/// fewer actions are left; and it is done exactly where it hands a plan out.
pub proof fn lemma_sys_plan_ends(
    state: SysPlanState,
    event: SysPlanEventView,
    installed: Map<Seq<char>, Seq<char>>,
    next: SysPlanState,
    action: SysPlanActionView,
)
    requires
        is_sys_plan_step(state, event, installed, next, action),
    ensures
        next == SysPlanState::Failed || plan_steps_left(next) < plan_steps_left(state),
        next == SysPlanState::Done <==> action is Finish,
        next == SysPlanState::Failed <==> action is Fail,
        action is Finish ==> state == SysPlanState::Previewing && event is Ran && succeeded(
            event->Ran_0,
        ),
{
}

/// The event with which a planning that always synchronises starts.
pub open spec fn forced(event: SysPlanEventView) -> SysPlanEventView {
    match event {
        SysPlanEventView::Started { force_sync, fresh } => SysPlanEventView::Started {
            force_sync: true,
            fresh,
        },
        other => other,
    }
}

/// One step of the planning of a system update that synchronises the
/// repository metadata first, whatever the cache holds: a plan that must
/// find every update does not rest on the cache.
pub fn plan_system_updates_fresh(
    state: SysPlanState,
    event: &SysPlanEvent,
    installed: &InstalledIndex,
) -> (r: (SysPlanState, SysPlanAction))
    ensures
        is_sys_plan_step(state, forced(event@), installed@, r.0, r.1@),
        state == SysPlanState::Start && event is Started ==> r.1 is Sync,
{
    match (state, event) {
        (SysPlanState::Start, SysPlanEvent::Started { force_sync, fresh }) => (
            SysPlanState::Syncing,
            SysPlanAction::Sync,
        ),
        _ => plan_system_updates_inner(state, event, installed),
    }
}

} // verus!
