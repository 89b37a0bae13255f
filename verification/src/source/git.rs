//! Keeping the upstream reference of a checkout current, reading package
//! definitions at that reference, and holding a clean worktree pinned to it.
//!
//! The version-control tool itself runs outside this library. Each operation
//! is a state machine: given the state and what the last action brought back,
//! it names the next state and the next action.

use crate::cache::{hex, key_hash, stable_hash};
use crate::error::{ErrorKind, VxError, VxErrorView, usage, usage_error};
use crate::text::{from_chars, join2, join3, join4, strs, to_chars, trim, trimmed};
use crate::tool::{
    ToolOutcome, ToolOutcomeView, check_outcome, out_of_turn, out_of_turn_error, succeeded,
    tool_failure,
};
use vstd::prelude::*;

verus! {

/// The upstream reference that remote planning and worktrees are pinned to.
pub open spec fn upstream_ref() -> Seq<char> {
    "upstream/master"@
}

/// The key under which the freshness cache holds the last fetch of the
/// checkout at `voidpkgs`.
pub open spec fn sync_key(voidpkgs: Seq<char>) -> Seq<char> {
    "voidpkgs.fetch:"@ + voidpkgs
}

/// The key under which the freshness cache holds the last fetch of a
/// checkout.
pub fn sync_cache_key(voidpkgs: &str) -> (key: String)
    ensures
        key@ == sync_key(voidpkgs@),
{
    join2("voidpkgs.fetch:", voidpkgs)
}

/// Where a synchronisation stands.
#[derive(Clone, Copy, Debug, PartialEq, Eq, Structural)]
pub enum SyncState {
    /// Nothing is known yet.
    NeedsSync,
    /// Whether the upstream remote exists is being asked.
    CheckingRemote,
    /// The upstream branch is being fetched.
    Fetching,
    /// The upstream reference is current.
    Synced,
    /// The synchronisation failed.
    Failed,
}

/// What the last action of a synchronisation brought back.
#[derive(Debug, Clone)]
pub enum SyncEvent {
    /// What was found at the start: whether the checkout has version-control
    /// metadata, and whether the cache holds a fresh fetch.
    Started { has_git_dir: bool, fresh: bool },
    /// Whether the upstream remote exists.
    RemoteChecked { has_upstream: bool },
    /// How the fetch ended.
    Fetched(ToolOutcome),
}

/// An event of a synchronisation as a mathematical value.
pub enum SyncEventView {
    Started { has_git_dir: bool, fresh: bool },
    RemoteChecked { has_upstream: bool },
    Fetched(ToolOutcomeView),
}

impl View for SyncEvent {
    type V = SyncEventView;

    open spec fn view(&self) -> SyncEventView {
        match self {
            SyncEvent::Started { has_git_dir, fresh } => SyncEventView::Started {
                has_git_dir: *has_git_dir,
                fresh: *fresh,
            },
            SyncEvent::RemoteChecked { has_upstream } => SyncEventView::RemoteChecked {
                has_upstream: *has_upstream,
            },
            SyncEvent::Fetched(o) => SyncEventView::Fetched(o@),
        }
    }
}

/// What a synchronisation asks for next.
#[derive(Debug, Clone)]
pub enum SyncAction {
    /// Ask whether the upstream remote exists.
    CheckRemote,
    /// Fetch the upstream branch.
    Fetch,
    /// Mark the fetch in the cache; the synchronisation is done.
    Mark,
    /// Nothing: the synchronisation is done.
    Finish,
    /// Nothing: the synchronisation failed.
    Fail(VxError),
}

/// An action of a synchronisation as a mathematical value.
pub enum SyncActionView {
    CheckRemote,
    Fetch,
    Mark,
    Finish,
    Fail(VxErrorView),
}

impl View for SyncAction {
    type V = SyncActionView;

    open spec fn view(&self) -> SyncActionView {
        match self {
            SyncAction::CheckRemote => SyncActionView::CheckRemote,
            SyncAction::Fetch => SyncActionView::Fetch,
            SyncAction::Mark => SyncActionView::Mark,
            SyncAction::Finish => SyncActionView::Finish,
            SyncAction::Fail(e) => SyncActionView::Fail(e@),
        }
    }
}

/// The failure of a checkout without version-control metadata.
pub open spec fn not_a_repo(voidpkgs: Seq<char>) -> VxErrorView {
    VxErrorView {
        kind: ErrorKind::RepositoryState,
        message: "void-packages at "@ + voidpkgs
            + " is not a git repo (missing .git); cannot sync"@,
    }
}

/// The failure of a checkout without the upstream remote. Its text holds the
/// command that adds the remote.
pub open spec fn no_upstream(voidpkgs: Seq<char>) -> VxErrorView {
    VxErrorView {
        kind: ErrorKind::RepositoryState,
        message: "void-packages repo has no 'upstream' remote.\nvx expects 'upstream' to point at the official Void Linux repository.\n\nTo fix this, run:\n  cd "@
            + voidpkgs
            + "\n  git remote add upstream https://github.com/void-linux/void-packages.git\n\nThen re-run your vx command."@,
    }
}

/// What is fetched, for failure texts.
pub open spec fn fetch_name(voidpkgs: Seq<char>) -> Seq<char> {
    "git fetch upstream master in "@ + voidpkgs
}

/// One step of a synchronisation.
///
/// A checkout without metadata fails. With a fresh fetch in the cache the
/// synchronisation is done at once and nothing is fetched. Else the remote
/// must exist, the branch is fetched, and a successful fetch is marked in the
/// cache.
pub open spec fn sync_next(voidpkgs: Seq<char>, state: SyncState, event: SyncEventView) -> (
    SyncState,
    SyncActionView,
) {
    match (state, event) {
        (SyncState::NeedsSync, SyncEventView::Started { has_git_dir, fresh }) => if !has_git_dir {
            (SyncState::Failed, SyncActionView::Fail(not_a_repo(voidpkgs)))
        } else if fresh {
            (SyncState::Synced, SyncActionView::Finish)
        } else {
            (SyncState::CheckingRemote, SyncActionView::CheckRemote)
        },
        (SyncState::CheckingRemote, SyncEventView::RemoteChecked { has_upstream }) => {
            if has_upstream {
                (SyncState::Fetching, SyncActionView::Fetch)
            } else {
                (SyncState::Failed, SyncActionView::Fail(no_upstream(voidpkgs)))
            }
        },
        (SyncState::Fetching, SyncEventView::Fetched(o)) => match tool_failure(
            fetch_name(voidpkgs),
            o,
        ) {
            None => (SyncState::Synced, SyncActionView::Mark),
            Some(e) => (SyncState::Failed, SyncActionView::Fail(e)),
        },
        _ => (SyncState::Failed, SyncActionView::Fail(out_of_turn())),
    }
}

/// One step of the synchronisation of the checkout at `voidpkgs`: the next
/// state and the next action, given the state and what the last action
/// brought back. It starts in `NeedsSync` with the event `Started`.
pub fn sync_voidpkgs(voidpkgs: &str, state: SyncState, event: &SyncEvent) -> (r: (
    SyncState,
    SyncAction,
))
    ensures
        (r.0, r.1@) == sync_next(voidpkgs@, state, event@),
{
    match (state, event) {
        (SyncState::NeedsSync, SyncEvent::Started { has_git_dir, fresh }) => {
            if !*has_git_dir {
                (
                    SyncState::Failed,
                    SyncAction::Fail(
                        VxError::new(
                            ErrorKind::RepositoryState,
                            join3(
                                "void-packages at ",
                                voidpkgs,
                                " is not a git repo (missing .git); cannot sync",
                            ),
                        ),
                    ),
                )
            } else if *fresh {
                (SyncState::Synced, SyncAction::Finish)
            } else {
                (SyncState::CheckingRemote, SyncAction::CheckRemote)
            }
        },
        (SyncState::CheckingRemote, SyncEvent::RemoteChecked { has_upstream }) => {
            if *has_upstream {
                (SyncState::Fetching, SyncAction::Fetch)
            } else {
                (
                    SyncState::Failed,
                    SyncAction::Fail(
                        VxError::new(
                            ErrorKind::RepositoryState,
                            join3(
                                "void-packages repo has no 'upstream' remote.\nvx expects 'upstream' to point at the official Void Linux repository.\n\nTo fix this, run:\n  cd ",
                                voidpkgs,
                                "\n  git remote add upstream https://github.com/void-linux/void-packages.git\n\nThen re-run your vx command.",
                            ),
                        ),
                    ),
                )
            }
        },
        (SyncState::Fetching, SyncEvent::Fetched(o)) => {
            let what = join2("git fetch upstream master in ", voidpkgs);
            match check_outcome(what.as_str(), o) {
                Ok(_) => (SyncState::Synced, SyncAction::Mark),
                Err(e) => (SyncState::Failed, SyncAction::Fail(e)),
            }
        },
        _ => (SyncState::Failed, SyncAction::Fail(out_of_turn_error())),
    }
}

/// How many actions a synchronisation may still ask for.
pub open spec fn sync_steps_left(state: SyncState) -> nat {
    match state {
        SyncState::NeedsSync => 3,
        SyncState::CheckingRemote => 2,
        SyncState::Fetching => 1,
        SyncState::Synced => 0,
        SyncState::Failed => 0,
    }
}

/// Every step of a synchronisation brings it nearer to its end: it fails,
/// or fewer actions are left.
pub proof fn lemma_sync_ends(voidpkgs: Seq<char>, state: SyncState, event: SyncEventView)
    ensures
        sync_next(voidpkgs, state, event).0 == SyncState::Failed || sync_steps_left(
            sync_next(voidpkgs, state, event).0,
        ) < sync_steps_left(state),
{
}

/// A synchronisation fetches only after it found metadata, no fresh fetch in
/// the cache, and the upstream remote; and it marks the cache only after a
/// fetch that succeeded.
pub proof fn lemma_sync_order(voidpkgs: Seq<char>, state: SyncState, event: SyncEventView)
    ensures
        sync_next(voidpkgs, state, event).1 is Fetch ==> state == SyncState::CheckingRemote
            && event == (SyncEventView::RemoteChecked { has_upstream: true }),
        sync_next(voidpkgs, state, event).1 is CheckRemote ==> state == SyncState::NeedsSync
            && event == (SyncEventView::Started { has_git_dir: true, fresh: false }),
        sync_next(voidpkgs, state, event).1 is Mark ==> state == SyncState::Fetching && event
            is Fetched && succeeded(event->Fetched_0),
        sync_next(voidpkgs, state, event).0 == SyncState::Synced <==> sync_next(
            voidpkgs,
            state,
            event,
        ).1 is Mark || sync_next(voidpkgs, state, event).1 is Finish,
        sync_next(voidpkgs, state, event).0 == SyncState::Failed <==> sync_next(
            voidpkgs,
            state,
            event,
        ).1 is Fail,
{
}

/// The object that holds the definition of package `pkg` at the upstream
/// reference.
pub open spec fn upstream_object(pkg: Seq<char>) -> Seq<char> {
    upstream_ref() + ":srcpkgs/"@ + trim(pkg) + "/template"@
}

/// The failure of a request without a package name.
pub open spec fn empty_name() -> VxErrorView {
    usage("empty package name"@)
}

/// Names the object to show for the definition of `pkg` at the upstream
/// reference; a name of nothing but whitespace is refused.
pub fn upstream_template_object(pkg: &str) -> (r: Result<String, VxError>)
    ensures
        match r {
            Ok(object) => trim(pkg@).len() > 0 && object@ == upstream_object(pkg@),
            Err(e) => trim(pkg@).len() == 0 && e@ == empty_name(),
        },
{
    let name = from_chars(&trimmed(&to_chars(pkg)));
    if name.as_str().unicode_len() == 0 {
        Err(usage_error("empty package name"))
    } else {
        Ok(join4("upstream/master", ":srcpkgs/", name.as_str(), "/template"))
    }
}

/// What showing the upstream definition of `pkg` comes to: its text where
/// the tool succeeded; where the tool ran and failed, the package is not
/// found upstream, and the failure carries what the tool wrote.
pub open spec fn upstream_template(pkg: Seq<char>, o: ToolOutcomeView) -> Result<
    Seq<char>,
    VxErrorView,
> {
    if trim(pkg).len() == 0 {
        Err(empty_name())
    } else {
        match o {
            ToolOutcomeView::NotStarted(why) => Err(
                VxErrorView {
                    kind: ErrorKind::ProcessInvocation,
                    message: "failed to run git show: "@ + why,
                },
            ),
            ToolOutcomeView::Exited { code, stdout, stderr } => if code == Some(0i32) {
                Ok(stdout)
            } else if trim(stderr).len() == 0 {
                Err(
                    VxErrorView {
                        kind: ErrorKind::NotFound,
                        message: "git show failed for "@ + upstream_object(pkg),
                    },
                )
            } else {
                Err(VxErrorView { kind: ErrorKind::NotFound, message: trim(stderr) })
            },
        }
    }
}

/// Reads what showing the upstream definition of `pkg` brought back.
pub fn read_template_upstream(pkg: &str, o: &ToolOutcome) -> (r: Result<String, VxError>)
    ensures
        match r {
            Ok(text) => upstream_template(pkg@, o@) == Ok::<_, VxErrorView>(text@),
            Err(e) => upstream_template(pkg@, o@) == Err::<Seq<char>, _>(e@),
        },
{
    let object = match upstream_template_object(pkg) {
        Ok(object) => object,
        Err(e) => {
            return Err(e);
        },
    };
    match o {
        ToolOutcome::NotStarted(why) => Err(
            VxError::new(
                ErrorKind::ProcessInvocation,
                join2("failed to run git show: ", why.as_str()),
            ),
        ),
        ToolOutcome::Exited { code, stdout, stderr } => {
            if o.success() {
                return Ok(stdout.clone());
            }
            let err = from_chars(&trimmed(&to_chars(stderr.as_str())));
            if err.as_str().unicode_len() == 0 {
                Err(
                    VxError::new(
                        ErrorKind::NotFound,
                        join2("git show failed for ", object.as_str()),
                    ),
                )
            } else {
                Err(VxError::new(ErrorKind::NotFound, err))
            }
        },
    }
}

/// Where the worktrees lie under the directory of this tool in the cache.
pub fn worktree_root_dir(cache_dir: &str) -> (dir: String)
    ensures
        dir@ == cache_dir@ + "/worktrees"@,
{
    join2(cache_dir, "/worktrees")
}

/// The directory, under `root`, of the worktrees of the checkout at
/// `voidpkgs`: it is named by the hash of the checkout's path.
pub open spec fn bucket_path(root: Seq<char>, voidpkgs: Seq<char>) -> Seq<char> {
    root + "/"@ + hex(key_hash(voidpkgs) as nat, 16)
}

/// The worktree, under `root`, that is pinned to the upstream reference of
/// the checkout at `voidpkgs`.
pub open spec fn worktree_path(root: Seq<char>, voidpkgs: Seq<char>) -> Seq<char> {
    bucket_path(root, voidpkgs) + "/upstream-master"@
}

/// The directory of the worktrees of a checkout.
pub fn worktree_bucket(root: &str, voidpkgs: &str) -> (dir: String)
    ensures
        dir@ == bucket_path(root@, voidpkgs@),
{
    let name = stable_hash(voidpkgs);
    join3(root, "/", name.as_str())
}

/// The worktree of a checkout.
pub fn worktree_dir(root: &str, voidpkgs: &str) -> (dir: String)
    ensures
        dir@ == worktree_path(root@, voidpkgs@),
{
    let bucket = worktree_bucket(root, voidpkgs);
    join2(bucket.as_str(), "/upstream-master")
}

/// Where the making of a worktree stands.
#[derive(Clone, Copy, Debug, PartialEq, Eq, Structural)]
pub enum WorktreeState {
    /// The upstream reference is being synchronised.
    Syncing,
    /// The directory that holds the worktree is being made.
    MakingDirs,
    /// Whether the worktree exists is being asked.
    Probing,
    /// The worktree is being added.
    Adding,
    /// The worktree is being reset to the upstream reference.
    Resetting,
    /// The worktree is being freed of untracked files.
    Cleaning,
    /// The worktree is clean and current.
    Ready,
    /// The making failed.
    Failed,
}

/// What the last action of the making of a worktree brought back.
#[derive(Debug, Clone)]
pub enum WorktreeEvent {
    /// How the synchronisation ended.
    Synced(Option<VxError>),
    /// How the making of the directory ended: why it failed, if it failed.
    DirsMade(Option<String>),
    /// Whether the worktree exists.
    Probed { exists: bool },
    /// How the version-control tool ended.
    Ran(ToolOutcome),
}

/// An event of the making of a worktree as a mathematical value.
pub enum WorktreeEventView {
    Synced(Option<VxErrorView>),
    DirsMade(Option<Seq<char>>),
    Probed { exists: bool },
    Ran(ToolOutcomeView),
}

impl View for WorktreeEvent {
    type V = WorktreeEventView;

    open spec fn view(&self) -> WorktreeEventView {
        match self {
            WorktreeEvent::Synced(e) => WorktreeEventView::Synced(
                match e {
                    Some(e) => Some(e@),
                    None => None,
                },
            ),
            WorktreeEvent::DirsMade(e) => WorktreeEventView::DirsMade(
                match e {
                    Some(e) => Some(e@),
                    None => None,
                },
            ),
            WorktreeEvent::Probed { exists } => WorktreeEventView::Probed { exists: *exists },
            WorktreeEvent::Ran(o) => WorktreeEventView::Ran(o@),
        }
    }
}

/// What the making of a worktree asks for next.
#[derive(Debug, Clone)]
pub enum WorktreeAction {
    /// Make this directory and those above it.
    MakeDirs { path: String },
    /// Ask whether this path exists.
    Probe { path: String },
    /// Run the version-control tool in `dir` with `args`.
    Git { dir: String, args: Vec<String> },
    /// Nothing: the worktree at `path` is ready.
    Return { path: String },
    /// Nothing: the making failed.
    Fail(VxError),
}

/// An action of the making of a worktree as a mathematical value.
pub enum WorktreeActionView {
    MakeDirs { path: Seq<char> },
    Probe { path: Seq<char> },
    Git { dir: Seq<char>, args: Seq<Seq<char>> },
    Return { path: Seq<char> },
    Fail(VxErrorView),
}

impl View for WorktreeAction {
    type V = WorktreeActionView;

    open spec fn view(&self) -> WorktreeActionView {
        match self {
            WorktreeAction::MakeDirs { path } => WorktreeActionView::MakeDirs { path: path@ },
            WorktreeAction::Probe { path } => WorktreeActionView::Probe { path: path@ },
            WorktreeAction::Git { dir, args } => WorktreeActionView::Git {
                dir: dir@,
                args: strs(args@),
            },
            WorktreeAction::Return { path } => WorktreeActionView::Return { path: path@ },
            WorktreeAction::Fail(e) => WorktreeActionView::Fail(e@),
        }
    }
}

/// Adding a detached worktree at `wt`, pinned to the upstream reference; it
/// runs in the checkout.
pub open spec fn add_action(voidpkgs: Seq<char>, wt: Seq<char>) -> WorktreeActionView {
    WorktreeActionView::Git {
        dir: voidpkgs,
        args: seq!["worktree"@, "add"@, "--detach"@, wt, upstream_ref()],
    }
}

/// Resetting the worktree at `wt` hard to the upstream reference; it runs in
/// the worktree.
pub open spec fn reset_action(wt: Seq<char>) -> WorktreeActionView {
    WorktreeActionView::Git { dir: wt, args: seq!["reset"@, "--hard"@, upstream_ref()] }
}

/// Removing every untracked file of the worktree at `wt`; it runs in the
/// worktree.
pub open spec fn clean_action(wt: Seq<char>) -> WorktreeActionView {
    WorktreeActionView::Git { dir: wt, args: seq!["clean"@, "-fdx"@] }
}

/// The failure that ends the making of a worktree, for a step that failed.
pub open spec fn worktree_failure(e: VxErrorView) -> (WorktreeState, WorktreeActionView) {
    (WorktreeState::Failed, WorktreeActionView::Fail(e))
}

/// One step of the making of the worktree of the checkout at `voidpkgs`
/// under `root`.
///
/// The upstream reference is synchronised first. Then the directory of the
/// worktree is made, and the worktree is added where it does not exist. In
/// every case the worktree is then reset hard to the upstream reference and
/// freed of untracked files, and only then is it ready. The first step that
/// fails ends the making.
pub open spec fn worktree_next(
    root: Seq<char>,
    voidpkgs: Seq<char>,
    state: WorktreeState,
    event: WorktreeEventView,
) -> (WorktreeState, WorktreeActionView) {
    let wt = worktree_path(root, voidpkgs);
    match (state, event) {
        (WorktreeState::Syncing, WorktreeEventView::Synced(failure)) => match failure {
            Some(e) => worktree_failure(e),
            None => (
                WorktreeState::MakingDirs,
                WorktreeActionView::MakeDirs { path: bucket_path(root, voidpkgs) },
            ),
        },
        (WorktreeState::MakingDirs, WorktreeEventView::DirsMade(failure)) => match failure {
            Some(why) => worktree_failure(
                VxErrorView {
                    kind: ErrorKind::Configuration,
                    message: "failed to create worktree bucket: "@ + why,
                },
            ),
            None => (WorktreeState::Probing, WorktreeActionView::Probe { path: wt }),
        },
        (WorktreeState::Probing, WorktreeEventView::Probed { exists }) => if exists {
            (WorktreeState::Resetting, reset_action(wt))
        } else {
            (WorktreeState::Adding, add_action(voidpkgs, wt))
        },
        (WorktreeState::Adding, WorktreeEventView::Ran(o)) => match tool_failure(
            "git worktree add for "@ + wt,
            o,
        ) {
            Some(e) => worktree_failure(e),
            None => (WorktreeState::Resetting, reset_action(wt)),
        },
        (WorktreeState::Resetting, WorktreeEventView::Ran(o)) => match tool_failure(
            "git reset to upstream/master at "@ + wt,
            o,
        ) {
            Some(e) => worktree_failure(e),
            None => (WorktreeState::Cleaning, clean_action(wt)),
        },
        (WorktreeState::Cleaning, WorktreeEventView::Ran(o)) => match tool_failure(
            "git clean at "@ + wt,
            o,
        ) {
            Some(e) => worktree_failure(e),
            None => (WorktreeState::Ready, WorktreeActionView::Return { path: wt }),
        },
        _ => worktree_failure(out_of_turn()),
    }
}

/// The action that resets the worktree.
fn git_reset(wt: &str) -> (a: WorktreeAction)
    ensures
        a@ == reset_action(wt@),
{
    let mut args: Vec<String> = Vec::new();
    args.push("reset".to_owned());
    args.push("--hard".to_owned());
    args.push("upstream/master".to_owned());
    assert(strs(args@) =~= seq!["reset"@, "--hard"@, upstream_ref()]);
    WorktreeAction::Git { dir: wt.to_owned(), args }
}

/// The action that cleans the worktree.
fn git_clean(wt: &str) -> (a: WorktreeAction)
    ensures
        a@ == clean_action(wt@),
{
    let mut args: Vec<String> = Vec::new();
    args.push("clean".to_owned());
    args.push("-fdx".to_owned());
    assert(strs(args@) =~= seq!["clean"@, "-fdx"@]);
    WorktreeAction::Git { dir: wt.to_owned(), args }
}

/// The action that adds the worktree.
fn git_worktree_add(voidpkgs: &str, wt: &str) -> (a: WorktreeAction)
    ensures
        a@ == add_action(voidpkgs@, wt@),
{
    let mut args: Vec<String> = Vec::new();
    args.push("worktree".to_owned());
    args.push("add".to_owned());
    args.push("--detach".to_owned());
    args.push(wt.to_owned());
    args.push("upstream/master".to_owned());
    assert(strs(args@) =~= seq!["worktree"@, "add"@, "--detach"@, wt@, upstream_ref()]);
    WorktreeAction::Git { dir: voidpkgs.to_owned(), args }
}

/// One step of the making of a clean worktree that is pinned to the
/// upstream reference: the next state and the next action, given the state
/// and what the last action brought back. It starts in `Syncing`, and the
/// first event is the end of the synchronisation.
pub fn ensure_upstream_worktree(
    root: &str,
    voidpkgs: &str,
    state: WorktreeState,
    event: &WorktreeEvent,
) -> (r: (WorktreeState, WorktreeAction))
    ensures
        (r.0, r.1@) == worktree_next(root@, voidpkgs@, state, event@),
{
    let wt = worktree_dir(root, voidpkgs);
    match (state, event) {
        (WorktreeState::Syncing, WorktreeEvent::Synced(failure)) => match failure {
            Some(e) => (
                WorktreeState::Failed,
                WorktreeAction::Fail(VxError::new(e.kind, e.message.clone())),
            ),
            None => (
                WorktreeState::MakingDirs,
                WorktreeAction::MakeDirs { path: worktree_bucket(root, voidpkgs) },
            ),
        },
        (WorktreeState::MakingDirs, WorktreeEvent::DirsMade(failure)) => match failure {
            Some(why) => (
                WorktreeState::Failed,
                WorktreeAction::Fail(
                    VxError::new(
                        ErrorKind::Configuration,
                        join2("failed to create worktree bucket: ", why.as_str()),
                    ),
                ),
            ),
            None => (WorktreeState::Probing, WorktreeAction::Probe { path: wt }),
        },
        (WorktreeState::Probing, WorktreeEvent::Probed { exists }) => {
            if *exists {
                (WorktreeState::Resetting, git_reset(wt.as_str()))
            } else {
                (WorktreeState::Adding, git_worktree_add(voidpkgs, wt.as_str()))
            }
        },
        (WorktreeState::Adding, WorktreeEvent::Ran(o)) => {
            let what = join2("git worktree add for ", wt.as_str());
            match check_outcome(what.as_str(), o) {
                Err(e) => (WorktreeState::Failed, WorktreeAction::Fail(e)),
                Ok(_) => (WorktreeState::Resetting, git_reset(wt.as_str())),
            }
        },
        (WorktreeState::Resetting, WorktreeEvent::Ran(o)) => {
            let what = join2("git reset to upstream/master at ", wt.as_str());
            match check_outcome(what.as_str(), o) {
                Err(e) => (WorktreeState::Failed, WorktreeAction::Fail(e)),
                Ok(_) => (WorktreeState::Cleaning, git_clean(wt.as_str())),
            }
        },
        (WorktreeState::Cleaning, WorktreeEvent::Ran(o)) => {
            let what = join2("git clean at ", wt.as_str());
            match check_outcome(what.as_str(), o) {
                Err(e) => (WorktreeState::Failed, WorktreeAction::Fail(e)),
                Ok(_) => (WorktreeState::Ready, WorktreeAction::Return { path: wt }),
            }
        },
        _ => (WorktreeState::Failed, WorktreeAction::Fail(out_of_turn_error())),
    }
}

/// How many actions the making of a worktree may still ask for.
pub open spec fn worktree_steps_left(state: WorktreeState) -> nat {
    match state {
        WorktreeState::Syncing => 6,
        WorktreeState::MakingDirs => 5,
        WorktreeState::Probing => 4,
        WorktreeState::Adding => 3,
        WorktreeState::Resetting => 2,
        WorktreeState::Cleaning => 1,
        WorktreeState::Ready => 0,
        WorktreeState::Failed => 0,
    }
}

/// Every step of the making of a worktree brings it nearer to its end: it
/// fails, or fewer actions are left.
pub proof fn lemma_worktree_ends(
    root: Seq<char>,
    voidpkgs: Seq<char>,
    state: WorktreeState,
    event: WorktreeEventView,
)
    ensures
        worktree_next(root, voidpkgs, state, event).0 == WorktreeState::Failed
            || worktree_steps_left(worktree_next(root, voidpkgs, state, event).0)
            < worktree_steps_left(state),
{
}

/// A worktree is ready only right after it was freed of untracked files,
/// that only right after it was reset, and nothing is ever run in the
/// checkout but the adding of the worktree.
pub proof fn lemma_worktree_order(
    root: Seq<char>,
    voidpkgs: Seq<char>,
    state: WorktreeState,
    event: WorktreeEventView,
)
    ensures
        worktree_next(root, voidpkgs, state, event).0 == WorktreeState::Ready ==> state
            == WorktreeState::Cleaning && event is Ran && succeeded(event->Ran_0)
            && worktree_next(root, voidpkgs, state, event).1 == (WorktreeActionView::Return {
            path: worktree_path(root, voidpkgs),
        }),
        worktree_next(root, voidpkgs, state, event).0 == WorktreeState::Cleaning ==> state
            == WorktreeState::Resetting && event is Ran && succeeded(event->Ran_0),
        worktree_next(root, voidpkgs, state, event).0 == WorktreeState::Resetting ==> (state
            == WorktreeState::Probing && event == (WorktreeEventView::Probed { exists: true }))
            || (state == WorktreeState::Adding && event is Ran && succeeded(event->Ran_0)),
        worktree_next(root, voidpkgs, state, event).1 is Git ==> worktree_next(
            root,
            voidpkgs,
            state,
            event,
        ).1 == add_action(voidpkgs, worktree_path(root, voidpkgs)) || worktree_next(
            root,
            voidpkgs,
            state,
            event,
        ).1->Git_dir == worktree_path(root, voidpkgs),
{
}

} // verus!
