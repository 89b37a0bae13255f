use vx::error::ErrorKind;
use vx::tool::ToolOutcome;
use vx::xbps::plan::{
    plan_system_updates_fresh, plan_system_updates_inner, repodata_cache_key, SysPlanAction,
    SysPlanEvent, SysPlanState, SysUpdate,
};
use vx::xbps::query::{installed_pkgver, is_installed, InstalledIndex};

fn exited(code: i32, stdout: &str, stderr: &str) -> ToolOutcome {
    ToolOutcome::Exited { code: Some(code), stdout: stdout.to_string(), stderr: stderr.to_string() }
}

#[test]
fn stale_cache_asks_for_a_sync() {
    let index = InstalledIndex::new();
    let (s, a) = plan_system_updates_inner(SysPlanState::Start, &SysPlanEvent::Started { force_sync: false, fresh: false }, &index);
    assert_eq!(s, SysPlanState::Syncing);
    assert!(matches!(a, SysPlanAction::Sync));
    let (s, a) = plan_system_updates_inner(SysPlanState::Start, &SysPlanEvent::Started { force_sync: true, fresh: true }, &index);
    assert_eq!(s, SysPlanState::Syncing);
    assert!(matches!(a, SysPlanAction::Sync));
}

#[test]
fn fresh_cache_goes_straight_to_the_dry_run() {
    let index = InstalledIndex::new();
    let (s, a) = plan_system_updates_inner(SysPlanState::Start, &SysPlanEvent::Started { force_sync: false, fresh: true }, &index);
    assert_eq!(s, SysPlanState::Previewing);
    assert!(matches!(a, SysPlanAction::Preview { mark: false }));
}

#[test]
fn fresh_planning_always_syncs() {
    let index = InstalledIndex::new();
    for fresh in [true, false] {
        for force_sync in [true, false] {
            let (s, a) = plan_system_updates_fresh(SysPlanState::Start, &SysPlanEvent::Started { force_sync, fresh }, &index);
            assert_eq!(s, SysPlanState::Syncing);
            assert!(matches!(a, SysPlanAction::Sync));
        }
    }
}

#[test]
fn successful_sync_is_marked_before_the_dry_run() {
    let index = InstalledIndex::new();
    let (s, a) = plan_system_updates_fresh(SysPlanState::Syncing, &SysPlanEvent::Ran(exited(0, "", "")), &index);
    assert_eq!(s, SysPlanState::Previewing);
    assert!(matches!(a, SysPlanAction::Preview { mark: true }));
    assert_eq!(repodata_cache_key(), "xbps.repodata.sync");
}

#[test]
fn failed_sync_ends_the_planning() {
    let index = InstalledIndex::new();
    let (s, a) = plan_system_updates_inner(SysPlanState::Syncing, &SysPlanEvent::Ran(exited(1, "", "")), &index);
    assert_eq!(s, SysPlanState::Failed);
    match a {
        SysPlanAction::Fail(e) => {
            assert_eq!(e.kind, ErrorKind::ProcessExit);
            assert_eq!(e.message, "xbps-install -S failed (exit=1)");
        }
        other => panic!("unexpected action {other:?}"),
    }
    let (_, a) = plan_system_updates_inner(SysPlanState::Syncing, &SysPlanEvent::Ran(ToolOutcome::NotStarted("no sudo".to_string())), &index);
    match a {
        SysPlanAction::Fail(e) => {
            assert_eq!(e.kind, ErrorKind::ProcessInvocation);
            assert_eq!(e.message, "failed to run xbps-install -S: no sudo");
        }
        other => panic!("unexpected action {other:?}"),
    }
}

#[test]
fn dry_run_is_read_from_both_streams() {
    let mut index = InstalledIndex::new();
    index.insert("bar".to_string(), "bar-1_1".to_string());
    let out = exited(
        0,
        "Name Action Version New version Download size\nfoo update 1.0_1 1.1_1 3KB\n",
        "bar-2_1 update x86_64 https://repo\n",
    );
    let (s, a) = plan_system_updates_inner(SysPlanState::Previewing, &SysPlanEvent::Ran(out), &index);
    assert_eq!(s, SysPlanState::Done);
    match a {
        SysPlanAction::Finish(plan) => assert_eq!(
            plan,
            vec![
                SysUpdate { name: "bar".to_string(), from: "bar-1_1".to_string(), to: "bar-2_1".to_string() },
                SysUpdate { name: "foo".to_string(), from: "foo-1.0_1".to_string(), to: "foo-1.1_1".to_string() },
            ]
        ),
        other => panic!("unexpected action {other:?}"),
    }
}

#[test]
fn dry_run_without_updates_is_an_empty_plan() {
    let index = InstalledIndex::new();
    let (s, a) = plan_system_updates_inner(SysPlanState::Previewing, &SysPlanEvent::Ran(exited(0, "", "")), &index);
    assert_eq!(s, SysPlanState::Done);
    match a {
        SysPlanAction::Finish(plan) => assert!(plan.is_empty()),
        other => panic!("unexpected action {other:?}"),
    }
}

#[test]
fn unreadable_table_and_failed_dry_run_end_the_planning() {
    let index = InstalledIndex::new();
    let out = exited(0, "Name Action Version New version\n", "");
    let (s, a) = plan_system_updates_inner(SysPlanState::Previewing, &SysPlanEvent::Ran(out), &index);
    assert_eq!(s, SysPlanState::Failed);
    match a {
        SysPlanAction::Fail(e) => assert_eq!(e.kind, ErrorKind::Parse),
        other => panic!("unexpected action {other:?}"),
    }
    let (s, a) = plan_system_updates_inner(SysPlanState::Previewing, &SysPlanEvent::Ran(exited(16, "", "locked\n")), &index);
    assert_eq!(s, SysPlanState::Failed);
    match a {
        SysPlanAction::Fail(e) => assert_eq!(e.message, "xbps-install -un failed: locked"),
        other => panic!("unexpected action {other:?}"),
    }
    let (s, a) = plan_system_updates_inner(SysPlanState::Done, &SysPlanEvent::Ran(exited(0, "", "")), &index);
    assert_eq!(s, SysPlanState::Failed);
    assert!(matches!(a, SysPlanAction::Fail(_)));
    let (s, _) = plan_system_updates_inner(SysPlanState::Syncing, &SysPlanEvent::Started { force_sync: true, fresh: false }, &index);
    assert_eq!(s, SysPlanState::Failed);
}

#[test]
fn queries_tell_what_is_installed() {
    assert_eq!(is_installed("xbps-query", &exited(0, "foo-1_1\n", "")), Ok(true));
    assert_eq!(is_installed("xbps-query", &exited(2, "", "")), Ok(false));
    let e = is_installed("xbps-query", &ToolOutcome::NotStarted("gone".to_string())).unwrap_err();
    assert_eq!(e.kind, ErrorKind::ProcessInvocation);
    assert_eq!(e.message, "failed to run xbps-query: gone");
    assert_eq!(installed_pkgver(&exited(0, " foo-1_1\n", "")), Ok(Some("foo-1_1".to_string())));
    assert_eq!(installed_pkgver(&exited(0, "\n", "")), Ok(None));
    assert_eq!(installed_pkgver(&exited(2, "foo-1_1", "")), Ok(None));
    let e = installed_pkgver(&ToolOutcome::NotStarted("gone".to_string())).unwrap_err();
    assert_eq!(e.message, "failed to run xbps-query: gone");
}

#[test]
fn index_keeps_the_last_entry_of_a_name() {
    let mut index = InstalledIndex::new();
    assert_eq!(index.get("foo"), None);
    index.insert("foo".to_string(), "foo-1_1".to_string());
    index.insert("bar".to_string(), "bar-1_1".to_string());
    index.insert("foo".to_string(), "foo-2_1".to_string());
    assert_eq!(index.get("foo"), Some("foo-2_1".to_string()));
    assert_eq!(index.get("bar"), Some("bar-1_1".to_string()));
    assert_eq!(index.get_chars(&"bar".chars().collect()), Some("bar-1_1".to_string()));
    assert_eq!(index.get("fo"), None);
}
