use vx::config::{bootstrap_sentinel_path, default_config_text, Config};
use vx::error::ErrorKind;
use vx::paths::{config_file_in, managed_src_path, user_config_path};
use vx::source::resolve::{resolve_voidpkgs, root_source, RootSource};

fn parsed(text: &str) -> Config {
    let cfg = rune_cfg::RuneConfig::from_str(text).unwrap();
    Config::from_values(
        cfg.get::<bool>("base.debug").ok(),
        cfg.get::<String>("void_packages.path").ok(),
        cfg.get::<String>("void_packages.local_repo").ok(),
        cfg.get::<bool>("void_packages.use_nonfree").ok(),
    )
}

fn config(path: Option<&str>, repo: &str, use_nonfree: bool) -> Config {
    Config {
        debug: false,
        void_packages_path: path.map(|p| p.to_string()),
        local_repo_rel: repo.to_string(),
        use_nonfree,
    }
}

#[test]
fn missing_values_take_their_defaults() {
    let c = Config::from_values(None, None, None, None);
    assert!(!c.debug);
    assert_eq!(c.void_packages_path, None);
    assert_eq!(c.local_repo_rel, "hostdir/binpkgs");
    assert!(c.use_nonfree);
}

#[test]
fn given_values_are_taken() {
    let c = Config::from_values(
        Some(true),
        Some("  /home/u/void-packages ".to_string()),
        Some("host/bin".to_string()),
        Some(false),
    );
    assert!(c.debug);
    assert_eq!(c.void_packages_path, Some("/home/u/void-packages".to_string()));
    assert_eq!(c.local_repo_rel, "host/bin");
    assert!(!c.use_nonfree);
    let c = Config::from_values(Some(false), Some("   ".to_string()), Some(String::new()), Some(true));
    assert!(!c.debug);
    assert_eq!(c.void_packages_path, None);
    assert_eq!(c.local_repo_rel, "");
    assert!(c.use_nonfree);
}

#[test]
fn default_settings_parse_to_the_defaults() {
    let c = parsed(&default_config_text());
    assert!(!c.debug);
    assert_eq!(c.void_packages_path, None);
    assert_eq!(c.local_repo_rel, "hostdir/binpkgs");
    assert!(c.use_nonfree);
}

#[test]
fn settings_are_read_from_a_parsed_file() {
    let text = "base:\n  debug true\nend\n\nvoid_packages:\n  path \" /src/vp \"\n  local_repo \"out/pkgs\"\n  use_nonfree false\nend\n";
    let c = parsed(text);
    assert!(c.debug);
    assert_eq!(c.void_packages_path, Some("/src/vp".to_string()));
    assert_eq!(c.local_repo_rel, "out/pkgs");
    assert!(!c.use_nonfree);
}

#[test]
fn values_of_another_type_count_as_missing() {
    let text = "base:\n  debug \"yes\"\nend\n\nvoid_packages:\n  use_nonfree \"no\"\nend\n";
    let c = parsed(text);
    assert!(!c.debug);
    assert!(c.use_nonfree);
}

#[test]
fn command_line_names_the_checkout_first() {
    let cfg = config(Some("/from/cfg"), "repo", false);
    let r = resolve_voidpkgs(Some("/from/cli".to_string()), Some("/from/env".to_string()), Some(&cfg)).unwrap();
    assert_eq!(r.voidpkgs, "/from/cli");
    assert_eq!(r.local_repo_rel, "repo");
    assert!(!r.use_nonfree);
    let r = resolve_voidpkgs(Some(String::new()), Some("/from/env".to_string()), None).unwrap();
    assert_eq!(r.voidpkgs, "");
}

#[test]
fn environment_comes_before_the_settings() {
    let cfg = config(Some("/from/cfg"), "", true);
    let r = resolve_voidpkgs(None, Some("/from/env".to_string()), Some(&cfg)).unwrap();
    assert_eq!(r.voidpkgs, "/from/env");
    assert_eq!(r.local_repo_rel, "hostdir/binpkgs");
    let r = resolve_voidpkgs(None, Some(String::new()), Some(&cfg)).unwrap();
    assert_eq!(r.voidpkgs, "/from/cfg");
    let r = resolve_voidpkgs(None, None, Some(&cfg)).unwrap();
    assert_eq!(r.voidpkgs, "/from/cfg");
    assert!(r.use_nonfree);
}

#[test]
fn checkout_without_a_source_is_a_configuration_error() {
    for cfg in [None, Some(config(None, "r", true)), Some(config(Some(""), "r", true))] {
        let e = resolve_voidpkgs(None, None, cfg.as_ref()).unwrap_err();
        assert_eq!(e.kind, ErrorKind::Configuration);
        assert!(e.message.starts_with("vx src requires a void-packages path.\n"));
        assert!(e.message.contains("- VX_VOIDPKGS=/path/to/void-packages\n"));
    }
    let r = resolve_voidpkgs(None, Some("/e".to_string()), None).unwrap();
    assert_eq!(r.local_repo_rel, "hostdir/binpkgs");
    assert!(r.use_nonfree);
}

#[test]
fn status_tells_where_the_checkout_comes_from() {
    let cfg = config(Some("/c"), "r", true);
    assert_eq!(root_source(Some("/a"), Some("/b"), Some(&cfg)), RootSource::Cli);
    assert_eq!(root_source(Some(""), Some("/b"), Some(&cfg)), RootSource::Env);
    assert_eq!(root_source(None, Some(""), Some(&cfg)), RootSource::Config);
    assert_eq!(root_source(None, None, None), RootSource::Unset);
    assert_eq!(root_source(None, None, Some(&config(None, "r", true))), RootSource::Unset);
}

#[test]
fn sentinel_lies_beside_the_settings() {
    assert_eq!(
        bootstrap_sentinel_path("/home/u/.config/vx/vx.rune"),
        Ok("/home/u/.config/vx/.vx_bootstrap_asked".to_string())
    );
    assert_eq!(bootstrap_sentinel_path("vx.rune"), Ok(".vx_bootstrap_asked".to_string()));
    let e = bootstrap_sentinel_path("/").unwrap_err();
    assert_eq!(e.kind, ErrorKind::Configuration);
    assert_eq!(e.message, "invalid config path: /");
    assert!(bootstrap_sentinel_path("").is_err());
}

#[test]
fn files_lie_under_the_configuration_directory() {
    assert_eq!(config_file_in(Some("/home/u/.config"), "vx.rune"), Ok("/home/u/.config/vx/vx.rune".to_string()));
    let e = config_file_in(None, "vx.rune").unwrap_err();
    assert_eq!(e.kind, ErrorKind::Configuration);
    assert_eq!(e.message, "could not locate config dir");
}

#[test]
fn paths_of_the_user_end_in_the_file_names() {
    match user_config_path() {
        Ok(p) => assert!(p.ends_with("/vx/vx.rune") && p.len() > "/vx/vx.rune".len()),
        Err(e) => assert_eq!(e.message, "could not locate config dir"),
    }
    match managed_src_path() {
        Ok(p) => assert!(p.ends_with("/vx/managed-src.rune")),
        Err(e) => assert_eq!(e.message, "could not locate config dir"),
    }
}
