use vx::cache::stable_hash;
use vx::error::{ErrorKind, VxError};
use vx::source::git::{
    ensure_upstream_worktree, read_template_upstream, sync_cache_key, sync_voidpkgs,
    upstream_template_object, worktree_bucket, worktree_dir, worktree_root_dir, SyncAction,
    SyncEvent, SyncState, WorktreeAction, WorktreeEvent, WorktreeState,
};
use vx::tool::{check_outcome, int_to_text, ToolOutcome};

fn exited(code: i32, stdout: &str, stderr: &str) -> ToolOutcome {
    ToolOutcome::Exited { code: Some(code), stdout: stdout.to_string(), stderr: stderr.to_string() }
}

fn ok() -> ToolOutcome {
    exited(0, "", "")
}

#[test]
fn outcome_of_a_tool_maps_to_a_failure() {
    assert_eq!(check_outcome("tool", &ok()), Ok(()));
    assert!(ok().success());
    let e = check_outcome("xbps-install -S", &ToolOutcome::NotStarted("no such file".to_string())).unwrap_err();
    assert_eq!(e, VxError { kind: ErrorKind::ProcessInvocation, message: "failed to run xbps-install -S: no such file".to_string() });
    let e = check_outcome("xbps-install -S", &exited(2, "out", "  \n")).unwrap_err();
    assert_eq!(e, VxError { kind: ErrorKind::ProcessExit, message: "xbps-install -S failed (exit=2)".to_string() });
    let e = check_outcome("xbps-install -S", &exited(1, "", " boom \n")).unwrap_err();
    assert_eq!(e, VxError { kind: ErrorKind::ProcessExit, message: "xbps-install -S failed: boom".to_string() });
    let killed = ToolOutcome::Exited { code: None, stdout: String::new(), stderr: String::new() };
    assert!(!killed.success());
    let e = check_outcome("t", &killed).unwrap_err();
    assert_eq!(e.message, "t failed (exit=1)");
    assert!(!ToolOutcome::NotStarted(String::new()).success());
}

#[test]
fn exit_codes_are_written_with_their_sign() {
    for n in [0, 1, 255, -1, -42, i32::MAX, i32::MIN] {
        assert_eq!(int_to_text(n), format!("{}", n));
    }
}

#[test]
fn sync_key_names_the_checkout() {
    assert_eq!(sync_cache_key("/vp"), "voidpkgs.fetch:/vp");
}

#[test]
fn sync_fails_without_metadata() {
    let (state, action) = sync_voidpkgs("/vp", SyncState::NeedsSync, &SyncEvent::Started { has_git_dir: false, fresh: true });
    assert_eq!(state, SyncState::Failed);
    match action {
        SyncAction::Fail(e) => {
            assert_eq!(e.kind, ErrorKind::RepositoryState);
            assert_eq!(e.message, "void-packages at /vp is not a git repo (missing .git); cannot sync");
        }
        other => panic!("unexpected action {other:?}"),
    }
}

#[test]
fn sync_with_a_fresh_cache_fetches_nothing() {
    let (state, action) = sync_voidpkgs("/vp", SyncState::NeedsSync, &SyncEvent::Started { has_git_dir: true, fresh: true });
    assert_eq!(state, SyncState::Synced);
    assert!(matches!(action, SyncAction::Finish));
}

#[test]
fn sync_checks_the_remote_then_fetches_then_marks() {
    let (state, action) = sync_voidpkgs("/vp", SyncState::NeedsSync, &SyncEvent::Started { has_git_dir: true, fresh: false });
    assert_eq!(state, SyncState::CheckingRemote);
    assert!(matches!(action, SyncAction::CheckRemote));
    let (state, action) = sync_voidpkgs("/vp", state, &SyncEvent::RemoteChecked { has_upstream: true });
    assert_eq!(state, SyncState::Fetching);
    assert!(matches!(action, SyncAction::Fetch));
    let (state, action) = sync_voidpkgs("/vp", state, &SyncEvent::Fetched(ok()));
    assert_eq!(state, SyncState::Synced);
    assert!(matches!(action, SyncAction::Mark));
}

#[test]
fn sync_without_the_remote_names_the_remedy() {
    let (state, action) = sync_voidpkgs("/vp", SyncState::CheckingRemote, &SyncEvent::RemoteChecked { has_upstream: false });
    assert_eq!(state, SyncState::Failed);
    match action {
        SyncAction::Fail(e) => {
            assert_eq!(e.kind, ErrorKind::RepositoryState);
            assert!(e.message.contains("cd /vp\n"));
            assert!(e.message.contains("git remote add upstream https://github.com/void-linux/void-packages.git"));
        }
        other => panic!("unexpected action {other:?}"),
    }
}

#[test]
fn failed_fetch_carries_the_error_stream() {
    let (state, action) = sync_voidpkgs("/vp", SyncState::Fetching, &SyncEvent::Fetched(exited(128, "", "fatal: no network\n")));
    assert_eq!(state, SyncState::Failed);
    match action {
        SyncAction::Fail(e) => {
            assert_eq!(e.kind, ErrorKind::ProcessExit);
            assert_eq!(e.message, "git fetch upstream master in /vp failed: fatal: no network");
        }
        other => panic!("unexpected action {other:?}"),
    }
    let (_, action) = sync_voidpkgs("/vp", SyncState::Fetching, &SyncEvent::Fetched(ToolOutcome::NotStarted("missing".to_string())));
    match action {
        SyncAction::Fail(e) => assert_eq!(e.kind, ErrorKind::ProcessInvocation),
        other => panic!("unexpected action {other:?}"),
    }
}

#[test]
fn event_out_of_turn_fails_the_sync() {
    for state in [SyncState::NeedsSync, SyncState::Synced, SyncState::Failed, SyncState::CheckingRemote] {
        let (next, action) = sync_voidpkgs("/vp", state, &SyncEvent::Fetched(ok()));
        assert_eq!(next, SyncState::Failed);
        assert!(matches!(action, SyncAction::Fail(_)));
    }
}

#[test]
fn upstream_object_names_the_definition() {
    assert_eq!(upstream_template_object(" foo "), Ok("upstream/master:srcpkgs/foo/template".to_string()));
    let e = upstream_template_object("  ").unwrap_err();
    assert_eq!(e, VxError { kind: ErrorKind::Configuration, message: "empty package name".to_string() });
}

#[test]
fn upstream_template_is_text_or_not_found() {
    assert_eq!(read_template_upstream("foo", &exited(0, "version=1\n", "warn")), Ok("version=1\n".to_string()));
    let e = read_template_upstream("foo", &exited(128, "", "fatal: path does not exist\n")).unwrap_err();
    assert_eq!(e, VxError { kind: ErrorKind::NotFound, message: "fatal: path does not exist".to_string() });
    let e = read_template_upstream("foo", &exited(128, "", "")).unwrap_err();
    assert_eq!(e, VxError { kind: ErrorKind::NotFound, message: "git show failed for upstream/master:srcpkgs/foo/template".to_string() });
    let e = read_template_upstream("foo", &ToolOutcome::NotStarted("no git".to_string())).unwrap_err();
    assert_eq!(e, VxError { kind: ErrorKind::ProcessInvocation, message: "failed to run git show: no git".to_string() });
    let e = read_template_upstream("", &ok()).unwrap_err();
    assert_eq!(e.kind, ErrorKind::Configuration);
}

#[test]
fn worktree_is_addressed_by_the_hash_of_the_checkout() {
    assert_eq!(worktree_root_dir("/c/vx"), "/c/vx/worktrees");
    let bucket = worktree_bucket("/c/vx/worktrees", "/vp");
    assert_eq!(bucket, format!("/c/vx/worktrees/{}", stable_hash("/vp")));
    assert_eq!(worktree_dir("/c/vx/worktrees", "/vp"), format!("{bucket}/upstream-master"));
    assert_ne!(worktree_dir("/c", "/vp"), worktree_dir("/c", "/other"));
}

fn git_args(action: &WorktreeAction) -> (String, Vec<String>) {
    match action {
        WorktreeAction::Git { dir, args } => (dir.clone(), args.clone()),
        other => panic!("unexpected action {other:?}"),
    }
}

#[test]
fn new_worktree_is_added_then_reset_then_cleaned() {
    let wt = worktree_dir("/c", "/vp");
    let (s, a) = ensure_upstream_worktree("/c", "/vp", WorktreeState::Syncing, &WorktreeEvent::Synced(None));
    assert_eq!(s, WorktreeState::MakingDirs);
    match a {
        WorktreeAction::MakeDirs { path } => assert_eq!(path, worktree_bucket("/c", "/vp")),
        other => panic!("unexpected action {other:?}"),
    }
    let (s, a) = ensure_upstream_worktree("/c", "/vp", s, &WorktreeEvent::DirsMade(None));
    assert_eq!(s, WorktreeState::Probing);
    match a {
        WorktreeAction::Probe { path } => assert_eq!(path, wt),
        other => panic!("unexpected action {other:?}"),
    }
    let (s, a) = ensure_upstream_worktree("/c", "/vp", s, &WorktreeEvent::Probed { exists: false });
    assert_eq!(s, WorktreeState::Adding);
    assert_eq!(
        git_args(&a),
        ("/vp".to_string(), vec!["worktree".to_string(), "add".to_string(), "--detach".to_string(), wt.clone(), "upstream/master".to_string()])
    );
    let (s, a) = ensure_upstream_worktree("/c", "/vp", s, &WorktreeEvent::Ran(ok()));
    assert_eq!(s, WorktreeState::Resetting);
    assert_eq!(git_args(&a), (wt.clone(), vec!["reset".to_string(), "--hard".to_string(), "upstream/master".to_string()]));
    let (s, a) = ensure_upstream_worktree("/c", "/vp", s, &WorktreeEvent::Ran(ok()));
    assert_eq!(s, WorktreeState::Cleaning);
    assert_eq!(git_args(&a), (wt.clone(), vec!["clean".to_string(), "-fdx".to_string()]));
    let (s, a) = ensure_upstream_worktree("/c", "/vp", s, &WorktreeEvent::Ran(ok()));
    assert_eq!(s, WorktreeState::Ready);
    match a {
        WorktreeAction::Return { path } => assert_eq!(path, wt),
        other => panic!("unexpected action {other:?}"),
    }
}

#[test]
fn existing_worktree_is_reset_without_adding() {
    let (s, a) = ensure_upstream_worktree("/c", "/vp", WorktreeState::Probing, &WorktreeEvent::Probed { exists: true });
    assert_eq!(s, WorktreeState::Resetting);
    assert_eq!(git_args(&a).1[0], "reset");
}

#[test]
fn first_failure_ends_the_making() {
    let sync_failure = VxError { kind: ErrorKind::RepositoryState, message: "no remote".to_string() };
    let (s, a) = ensure_upstream_worktree("/c", "/vp", WorktreeState::Syncing, &WorktreeEvent::Synced(Some(sync_failure.clone())));
    assert_eq!(s, WorktreeState::Failed);
    match a {
        WorktreeAction::Fail(e) => assert_eq!(e, sync_failure),
        other => panic!("unexpected action {other:?}"),
    }
    let (s, a) = ensure_upstream_worktree("/c", "/vp", WorktreeState::MakingDirs, &WorktreeEvent::DirsMade(Some("read-only".to_string())));
    assert_eq!(s, WorktreeState::Failed);
    match a {
        WorktreeAction::Fail(e) => assert_eq!(e, VxError { kind: ErrorKind::Configuration, message: "failed to create worktree bucket: read-only".to_string() }),
        other => panic!("unexpected action {other:?}"),
    }
    let wt = worktree_dir("/c", "/vp");
    for (state, what) in [
        (WorktreeState::Adding, format!("git worktree add for {wt}")),
        (WorktreeState::Resetting, format!("git reset to upstream/master at {wt}")),
        (WorktreeState::Cleaning, format!("git clean at {wt}")),
    ] {
        let (s, a) = ensure_upstream_worktree("/c", "/vp", state, &WorktreeEvent::Ran(exited(1, "", "")));
        assert_eq!(s, WorktreeState::Failed);
        match a {
            WorktreeAction::Fail(e) => assert_eq!(e, VxError { kind: ErrorKind::ProcessExit, message: format!("{what} failed (exit=1)") }),
            other => panic!("unexpected action {other:?}"),
        }
    }
    let (s, a) = ensure_upstream_worktree("/c", "/vp", WorktreeState::Ready, &WorktreeEvent::Ran(ok()));
    assert_eq!(s, WorktreeState::Failed);
    assert!(matches!(a, WorktreeAction::Fail(_)));
}
