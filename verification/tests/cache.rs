use std::collections::hash_map::DefaultHasher;
use std::hash::{Hash, Hasher};
use vx::cache::{
    force_fresh, is_fresh, key_path, mark, parse_u64, stable_hash, sync_ttl_secs, to_decimal,
    to_hex16, vx_cache_dir, xdg_cache_home, DEFAULT_SYNC_TTL_SECS,
};

fn chars(s: &str) -> Vec<char> {
    s.chars().collect()
}

#[test]
fn key_is_fresh_right_after_mark() {
    for now in [0u64, 1, 1_700_000_000, u64::MAX] {
        let stamp = mark(now);
        for ttl in [0u64, 1, 600, u64::MAX] {
            assert!(is_fresh(false, Some(&stamp), now, ttl), "now {now} ttl {ttl}");
        }
    }
}

#[test]
fn key_is_stale_once_time_exceeds_the_ttl() {
    let stamp = mark(1000);
    assert!(is_fresh(false, Some(&stamp), 1600, 600));
    assert!(!is_fresh(false, Some(&stamp), 1601, 600));
    assert!(!is_fresh(false, Some(&stamp), 1001, 0));
    assert!(!is_fresh(false, Some(&stamp), u64::MAX, 600));
}

#[test]
fn forced_fresh_work_is_never_fresh() {
    let stamp = mark(1000);
    assert!(!is_fresh(true, Some(&stamp), 1000, 600));
    assert!(!is_fresh(true, Some(&stamp), 1000, u64::MAX));
    assert!(!is_fresh(true, None, 1000, 600));
}

#[test]
fn unreadable_stamp_is_stale() {
    assert!(!is_fresh(false, None, 1000, 600));
    assert!(!is_fresh(false, Some(""), 1000, 600));
    assert!(!is_fresh(false, Some("soon"), 1000, 600));
    assert!(!is_fresh(false, Some("-5"), 1000, 600));
    assert!(!is_fresh(false, Some("12 34"), 1000, 600));
    assert!(!is_fresh(false, Some("99999999999999999999999"), 1000, 600));
}

#[test]
fn stamp_may_carry_whitespace_and_lie_ahead() {
    assert!(is_fresh(false, Some(" 1000\n"), 1500, 600));
    assert!(is_fresh(false, Some("2000"), 1000, 0));
}

#[test]
fn mark_writes_the_second_in_decimal() {
    assert_eq!(mark(0), "0");
    assert_eq!(mark(1_700_000_000), "1700000000");
    assert_eq!(mark(u64::MAX), "18446744073709551615");
}

#[test]
fn numbers_are_written_as_std_writes_them() {
    for n in [0u64, 7, 10, 99, 100, 12345, 1 << 32, u64::MAX - 1, u64::MAX] {
        assert_eq!(to_decimal(n), format!("{}", n));
        assert_eq!(to_hex16(n), format!("{:016x}", n));
    }
}

#[test]
fn numbers_are_read_as_std_reads_them() {
    for s in [
        "0", "007", "+5", "18446744073709551615", "18446744073709551616", "", "+", "-1", "1 ", " 1",
        "12a", "++1", "9999999999999999999999999", "１２",
    ] {
        assert_eq!(parse_u64(&chars(s)), s.parse::<u64>().ok(), "input {s:?}");
    }
}

#[test]
fn force_fresh_reads_the_variable() {
    assert!(!force_fresh(None));
    for v in ["1", "true", "yes", " TRUE ", "Yes", "yEs\n"] {
        assert!(force_fresh(Some(v)), "value {v:?}");
    }
    for v in ["", "0", "no", "false", "on", "11", "y", "true!"] {
        assert!(!force_fresh(Some(v)), "value {v:?}");
    }
}

#[test]
fn ttl_defaults_to_ten_minutes() {
    assert_eq!(DEFAULT_SYNC_TTL_SECS, 600);
    assert_eq!(sync_ttl_secs(None), 600);
    assert_eq!(sync_ttl_secs(Some("abc")), 600);
    assert_eq!(sync_ttl_secs(Some("")), 600);
    assert_eq!(sync_ttl_secs(Some("-1")), 600);
    assert_eq!(sync_ttl_secs(Some(" 30 ")), 30);
    assert_eq!(sync_ttl_secs(Some("0")), 0);
}

fn std_hash(key: &str) -> String {
    let mut h = DefaultHasher::new();
    key.hash(&mut h);
    format!("{:016x}", h.finish())
}

#[test]
fn hash_is_that_of_the_default_hasher() {
    for key in ["", "xbps.repodata.sync", "voidpkgs.fetch:/home/u/void-packages", "päckage"] {
        assert_eq!(stable_hash(key), std_hash(key), "key {key:?}");
        assert_eq!(stable_hash(key).len(), 16);
    }
    assert_ne!(stable_hash("a"), stable_hash("b"));
    assert_ne!(stable_hash("a"), "a");
}

#[test]
fn stamp_lies_under_the_cache_directory() {
    let path = key_path("/home/u/.cache/vx", "some key");
    assert_eq!(path, format!("/home/u/.cache/vx/{}.stamp", std_hash("some key")));
}

#[test]
fn cache_home_comes_from_the_environment() {
    assert_eq!(xdg_cache_home(Some("/x/cache"), Some("/home/u")), "/x/cache");
    assert_eq!(xdg_cache_home(Some(""), Some("/home/u")), "/home/u/.cache");
    assert_eq!(xdg_cache_home(None, Some("/home/u")), "/home/u/.cache");
    assert_eq!(xdg_cache_home(None, None), "./.cache");
    assert_eq!(vx_cache_dir("/home/u/.cache"), "/home/u/.cache/vx");
}
