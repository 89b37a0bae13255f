use vx::cli::{Cli, Cmd, SrcCmd};
use vx::log::Log;
use vx::source::plan::SrcUpdate;
use vx::source::util::{confirm_prompt, print_src_plan_summary};
use vx::source::{confirm_once, print_up_all_summary};
use vx::xbps::plan::SysUpdate;

fn loud() -> Log {
    Log { quiet: false, verbose: true }
}

fn quiet() -> Log {
    Log { quiet: true, verbose: true }
}

fn sys() -> Vec<SysUpdate> {
    vec![SysUpdate { name: "foo".to_string(), from: "foo-1_1".to_string(), to: "foo-2_1".to_string() }]
}

fn src() -> Vec<SrcUpdate> {
    vec![
        SrcUpdate { name: "a".to_string(), installed: Some("a-1_1".to_string()), candidate: "a-1_2".to_string() },
        SrcUpdate { name: "b".to_string(), installed: None, candidate: "b-3_1".to_string() },
    ]
}

#[test]
fn log_lines_follow_the_flags() {
    assert_eq!(loud().info("hello"), Some("hello".to_string()));
    assert_eq!(quiet().info("hello"), None);
    assert_eq!(loud().warn("careful"), Some("warning: careful".to_string()));
    assert_eq!(quiet().warn("careful"), None);
    assert_eq!(loud().error("bad"), "error: bad");
    assert_eq!(quiet().error("bad"), "error: bad");
    assert_eq!(loud().exec("git fetch"), Some("exec: git fetch".to_string()));
    assert_eq!(quiet().exec("git fetch"), None);
    assert_eq!(Log { quiet: false, verbose: false }.exec("git fetch"), None);
}

#[test]
fn summary_lists_both_plans() {
    assert_eq!(
        print_up_all_summary(&loud(), &sys(), &src()),
        vec![
            "Summary:",
            "  system: xbps-install -Su",
            "    foo  foo-1_1 → foo-2_1",
            "  source: vx-managed packages",
            "    a  a-1_1 → a-1_2",
            "    b  <not installed> → b-3_1",
        ]
    );
}

#[test]
fn summary_says_where_nothing_is_found() {
    assert_eq!(
        print_up_all_summary(&loud(), &Vec::new(), &Vec::new()),
        vec![
            "Summary:",
            "  system: xbps-install -Su",
            "    (no system updates found)",
            "  source: vx-managed packages",
            "    (no source updates found)",
        ]
    );
    assert!(print_up_all_summary(&quiet(), &sys(), &src()).is_empty());
}

#[test]
fn source_plan_is_summed_up() {
    assert_eq!(
        print_src_plan_summary(&loud(), &src()),
        vec!["vx: source update plan", "  a  a-1_1 → a-1_2", "  b  <not installed> → b-3_1"]
    );
    assert!(print_src_plan_summary(&quiet(), &src()).is_empty());
}

#[test]
fn empty_answer_and_yes_agree() {
    assert_eq!(confirm_prompt("Proceed?"), "Proceed? [Y/n] ");
    for a in ["", "\n", "y", "Y\n", " yes ", "YES", "yEs\r\n"] {
        assert!(confirm_once(Some(a)), "answer {a:?}");
    }
    for a in ["n", "no", "yess", "ye", "y e s", "ok"] {
        assert!(!confirm_once(Some(a)), "answer {a:?}");
    }
    assert!(!confirm_once(None));
}

#[test]
fn source_commands_tell_what_they_need() {
    let up = SrcCmd::Up { all: true, dry_run: false, force: false, yes: false, remote: true, pkgs: Vec::new() };
    assert!(up.needs_sync());
    assert!(!up.is_contradictory());
    let add = |force, rebuild| SrcCmd::Add { force, rebuild, yes: false, pkgs: vec!["a".to_string()] };
    assert!(add(true, true).is_contradictory());
    assert!(!add(true, false).is_contradictory());
    assert!(!add(false, true).is_contradictory());
    assert!(add(false, true).needs_sync());
    assert!(!add(true, false).needs_sync());
    assert!(!SrcCmd::Build { pkgs: Vec::new() }.needs_sync());
    assert!(!SrcCmd::Search { installed: false, term: "x".to_string() }.needs_sync());
}

#[test]
fn command_line_gives_the_log() {
    let cli = Cli { quiet: true, verbose: false, voidpkgs: None, cmd: Cmd::Status };
    let log = cli.log();
    assert!(log.quiet);
    assert!(!log.verbose);
}
