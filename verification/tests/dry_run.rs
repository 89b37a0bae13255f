use vx::error::ErrorKind;
use vx::xbps::parse::{parse_xbps_sun_plan, strip_ansi};
use vx::xbps::query::{load_installed_pkgver_map, pkgname_from_pkgver, InstalledIndex};

#[test]
fn strip_ansi_removes_colour_sequences() {
    assert_eq!(strip_ansi("\x1b[1mbold\x1b[0m plain"), "bold plain");
    assert_eq!(strip_ansi("no escapes"), "no escapes");
    assert_eq!(strip_ansi("\x1b[31"), "");
    assert_eq!(strip_ansi("a\x1bb"), "a\x1bb");
    assert_eq!(strip_ansi("\x1b\x1b[m[m"), "\x1b[m");
}

#[test]
fn pkgname_handles_many_hyphens() {
    assert_eq!(pkgname_from_pkgver("foo-bar-1.2_1"), Some("foo-bar".to_string()));
    assert_eq!(pkgname_from_pkgver("firefox-147.0_1"), Some("firefox".to_string()));
    assert_eq!(pkgname_from_pkgver("foo-bar"), None);
    assert_eq!(pkgname_from_pkgver("foo"), None);
    assert_eq!(pkgname_from_pkgver("foo-"), None);
    assert_eq!(pkgname_from_pkgver("-1"), Some(String::new()));
}

#[test]
fn table_rows_become_sorted_candidates() {
    let text = "Name Action Version New version Download size\n\
                zsh update 5.9_1 5.9_2 2MB\n\
                firefox update 147.0_1 147.0.2_1 82MB\n";
    let plan = parse_xbps_sun_plan(text, &InstalledIndex::new()).unwrap();
    assert_eq!(plan.len(), 2);
    assert_eq!(plan[0].name, "firefox");
    assert_eq!(plan[0].from, "firefox-147.0_1");
    assert_eq!(plan[0].to, "firefox-147.0.2_1");
    assert_eq!(plan[1].name, "zsh");
    assert_eq!(plan[1].from, "zsh-5.9_1");
    assert_eq!(plan[1].to, "zsh-5.9_2");
}

#[test]
fn columnar_row_takes_name_from_pkgver() {
    let mut installed = InstalledIndex::new();
    installed.insert("foo-bar".to_string(), "foo-bar-1.1_1".to_string());
    let plan = parse_xbps_sun_plan("foo-bar-1.2_1 update x86_64 repo\n", &installed).unwrap();
    assert_eq!(plan.len(), 1);
    assert_eq!(plan[0].name, "foo-bar");
    assert_eq!(plan[0].from, "foo-bar-1.1_1");
    assert_eq!(plan[0].to, "foo-bar-1.2_1");
}

#[test]
fn columnar_row_of_unknown_package_is_not_installed() {
    let plan = parse_xbps_sun_plan("bar-2.0_1 install x86_64 repo", &InstalledIndex::new()).unwrap();
    assert_eq!(plan.len(), 1);
    assert_eq!(plan[0].from, "<not installed>");
}

#[test]
fn header_without_rows_is_a_parse_error() {
    let text = "[*] Updating repository\n\
                Name Action Version New version Download size\n\
                \n\
                Size to download: 0KB\n";
    let err = parse_xbps_sun_plan(text, &InstalledIndex::new()).unwrap_err();
    assert_eq!(err.kind, ErrorKind::Parse);
    assert_eq!(
        err.message,
        "failed to parse xbps dry-run output (format changed); refusing to report empty plan"
    );
}

#[test]
fn chatter_alone_is_an_empty_plan() {
    let text = "[*] Updating repository\n=> done\nxbps-install: nothing\nAborting!\n";
    let plan = parse_xbps_sun_plan(text, &InstalledIndex::new()).unwrap();
    assert!(plan.is_empty());
}

#[test]
fn later_row_of_a_name_wins() {
    let text = "Name Action Version New\n\
                foo update 1_1 2_1\n\
                bar install 1_1 1_2\n\
                foo update 1_1 3_1\n";
    let plan = parse_xbps_sun_plan(text, &InstalledIndex::new()).unwrap();
    assert_eq!(plan.len(), 2);
    assert_eq!(plan[0].name, "bar");
    assert_eq!(plan[1].name, "foo");
    assert_eq!(plan[1].to, "foo-3_1");
}

#[test]
fn blank_line_after_rows_ends_the_table() {
    let text = "Name Action Version New\n\
                \n\
                foo update 1_1 2_1\n\
                \n\
                bar-1.0_1 update x86_64 repo\n\
                baz hold 1 2\n";
    let plan = parse_xbps_sun_plan(text, &InstalledIndex::new()).unwrap();
    assert_eq!(plan.len(), 2);
    assert_eq!(plan[0].name, "bar");
    assert_eq!(plan[0].to, "bar-1.0_1");
    assert_eq!(plan[1].name, "foo");
}

#[test]
fn coloured_table_is_read_after_stripping() {
    let text = "\x1b[1mName Action Version New version\x1b[0m\nfoo \x1b[32mupdate\x1b[0m 1_1 2_1\n";
    let plan = parse_xbps_sun_plan(text, &InstalledIndex::new()).unwrap();
    assert_eq!(plan.len(), 1);
    assert_eq!(plan[0].to, "foo-2_1");
}

#[test]
fn installed_list_gives_index() {
    let list = "ii  firefox-147.0_1  Mozilla Firefox Web Browser\n\
                uu  half-1.0_1  not fully installed\n\
                ii  foo-bar-1.2_1  multi hyphen\n\
                ii  broken\n\
                \n\
                ii\n";
    let index = load_installed_pkgver_map(list);
    assert_eq!(index.get("firefox"), Some("firefox-147.0_1".to_string()));
    assert_eq!(index.get("foo-bar"), Some("foo-bar-1.2_1".to_string()));
    assert_eq!(index.get("half"), None);
    assert_eq!(index.get("broken"), None);
}
