use vx::error::ErrorKind;
use vx::source::add::{
    add_from_local_repo, choose_repo_for_pkg, discover_local_repo_dirs, holder_index,
    install_command, is_repo_dir, join_with, plan_local_install, repo_has_pkg_file, select_wanted,
    DirListing, RepoInstall, RepoTree, SubRepo,
};
use vx::source::resolve::SrcResolved;

fn dir(path: &str, names: &[&str]) -> DirListing {
    DirListing {
        path: path.to_string(),
        is_dir: true,
        names: names.iter().map(|n| n.to_string()).collect(),
    }
}

fn no_dir(path: &str) -> DirListing {
    DirListing { path: path.to_string(), is_dir: false, names: Vec::new() }
}

fn names(v: &[&str]) -> Vec<String> {
    v.iter().map(|n| n.to_string()).collect()
}

fn checkout() -> SrcResolved {
    SrcResolved {
        voidpkgs: "/vp".to_string(),
        local_repo_rel: "hostdir/binpkgs".to_string(),
        use_nonfree: true,
    }
}

fn tree() -> RepoTree {
    RepoTree {
        base: dir("/vp/hostdir/binpkgs", &["x86_64-repodata", "foo-1.0_1.x86_64.xbps", "nonfree", "stasis"]),
        nonfree: dir("/vp/hostdir/binpkgs/nonfree", &["x86_64-repodata", "blob-2_1.x86_64.xbps"]),
        subdirs: vec![
            SubRepo {
                dir: dir("/vp/hostdir/binpkgs/nonfree", &["x86_64-repodata", "blob-2_1.x86_64.xbps"]),
                nonfree: no_dir("/vp/hostdir/binpkgs/nonfree/nonfree"),
            },
            SubRepo {
                dir: dir("/vp/hostdir/binpkgs/stasis", &["x86_64-repodata", "stasis-git-0.1_1.x86_64.xbps"]),
                nonfree: dir("/vp/hostdir/binpkgs/stasis/nonfree", &["readme"]),
            },
            SubRepo {
                dir: no_dir("/vp/hostdir/binpkgs/x86_64-repodata"),
                nonfree: dir("/vp/hostdir/binpkgs/x86_64-repodata/nonfree", &["x86_64-repodata"]),
            },
        ],
    }
}

#[test]
fn directory_with_metadata_is_a_repository() {
    assert!(is_repo_dir(&dir("/r", &["x86_64-repodata"])));
    assert!(is_repo_dir(&dir("/r", &["a", "armv7l-musl-repodata", "b"])));
    assert!(!is_repo_dir(&dir("/r", &["repodata-x", "foo-1_1.xbps"])));
    assert!(!is_repo_dir(&dir("/r", &[])));
    assert!(!is_repo_dir(&DirListing {
        path: "/r".to_string(),
        is_dir: false,
        names: names(&["x86_64-repodata"]),
    }));
}

#[test]
fn artifact_is_name_hyphen_anything_xbps() {
    let repo = dir("/r", &["foo-bar-1.0_1.x86_64.xbps", "x86_64-repodata", "baz-1.xbps.sig"]);
    assert!(repo_has_pkg_file(&repo, "foo-bar"));
    assert!(repo_has_pkg_file(&repo, "foo"));
    assert!(!repo_has_pkg_file(&repo, "bar"));
    assert!(!repo_has_pkg_file(&repo, "baz"));
    assert!(!repo_has_pkg_file(&repo, "foo-bar-1.0_1.x86_64.xbps"));
}

#[test]
fn discovery_keeps_order_and_drops_repeats() {
    let found = discover_local_repo_dirs(&tree(), true).unwrap();
    let paths: Vec<&str> = found.iter().map(|d| d.path.as_str()).collect();
    assert_eq!(
        paths,
        vec!["/vp/hostdir/binpkgs", "/vp/hostdir/binpkgs/nonfree", "/vp/hostdir/binpkgs/stasis"]
    );
    assert_eq!(found[2].names, names(&["x86_64-repodata", "stasis-git-0.1_1.x86_64.xbps"]));
}

#[test]
fn discovery_without_nonfree_skips_the_nonfree_children() {
    let mut t = tree();
    t.subdirs[1].nonfree = dir("/vp/hostdir/binpkgs/stasis/nonfree", &["x86_64-repodata"]);
    let found = discover_local_repo_dirs(&t, false).unwrap();
    let paths: Vec<&str> = found.iter().map(|d| d.path.as_str()).collect();
    assert_eq!(
        paths,
        vec!["/vp/hostdir/binpkgs", "/vp/hostdir/binpkgs/nonfree", "/vp/hostdir/binpkgs/stasis"]
    );
    let found = discover_local_repo_dirs(&t, true).unwrap();
    assert_eq!(found.len(), 4);
    assert_eq!(found[3].path, "/vp/hostdir/binpkgs/stasis/nonfree");
}

#[test]
fn discovery_refuses_a_base_that_is_no_directory() {
    let t = RepoTree { base: no_dir("/nope"), nonfree: no_dir("/nope/nonfree"), subdirs: Vec::new() };
    let err = discover_local_repo_dirs(&t, true).unwrap_err();
    assert_eq!(err.kind, ErrorKind::Configuration);
    assert_eq!(err.message, "failed to read /nope");
}

#[test]
fn discovery_of_a_base_without_metadata_is_empty() {
    let t = RepoTree {
        base: dir("/b", &["foo-1_1.xbps"]),
        nonfree: no_dir("/b/nonfree"),
        subdirs: Vec::new(),
    };
    assert!(discover_local_repo_dirs(&t, true).unwrap().is_empty());
}

#[test]
fn first_repository_with_the_artifact_is_chosen() {
    let repos = vec![
        dir("/a", &["x86_64-repodata"]),
        dir("/b", &["x86_64-repodata", "foo-1.0_1.x86_64.xbps"]),
        dir("/c", &["x86_64-repodata", "foo-2.0_1.x86_64.xbps"]),
    ];
    assert_eq!(choose_repo_for_pkg(&repos, "foo"), Some("/b".to_string()));
    assert_eq!(holder_index(&repos, "foo"), Some(1));
}

#[test]
fn metadata_without_artifact_gives_no_repository() {
    let repos = vec![
        dir("/a", &["x86_64-repodata"]),
        dir("/b", &["x86_64-repodata", "other-1.0_1.x86_64.xbps", "foo.xbps", "foo-1.0_1.x86_64.xbps.sig2"]),
    ];
    assert_eq!(choose_repo_for_pkg(&repos, "foo"), None);
    assert_eq!(holder_index(&repos, "foo"), None);
    assert_eq!(choose_repo_for_pkg(&Vec::new(), "foo"), None);
}

#[test]
fn packages_are_grouped_by_repository_in_pool_order() {
    let pool = discover_local_repo_dirs(&tree(), true).unwrap();
    let plan = plan_local_install(&pool, &names(&["stasis-git", "foo", "blob", "foo"])).unwrap();
    assert_eq!(
        plan,
        vec![
            RepoInstall { repo: "/vp/hostdir/binpkgs".to_string(), pkgs: names(&["foo", "foo"]) },
            RepoInstall { repo: "/vp/hostdir/binpkgs/nonfree".to_string(), pkgs: names(&["blob"]) },
            RepoInstall { repo: "/vp/hostdir/binpkgs/stasis".to_string(), pkgs: names(&["stasis-git"]) },
        ]
    );
}

#[test]
fn unresolved_packages_are_all_named() {
    let pool = discover_local_repo_dirs(&tree(), true).unwrap();
    let err = plan_local_install(&pool, &names(&["foo", "ghost", "blob", "phantom"])).unwrap_err();
    assert_eq!(err.kind, ErrorKind::NotFound);
    assert_eq!(err.message, "package(s) not found in local repository pool: ghost, phantom");
}

#[test]
fn join_with_separates_items() {
    assert_eq!(join_with(&names(&[]), ", "), "");
    assert_eq!(join_with(&names(&["a"]), ", "), "a");
    assert_eq!(join_with(&names(&["a", "b", "c"]), ", "), "a, b, c");
}

#[test]
fn installed_packages_are_left_out_unless_forced() {
    let pkgs = names(&["a", "b", "c"]);
    let (keep, warnings) = select_wanted(&pkgs, &vec![true, false, true], false);
    assert_eq!(keep, names(&["b"]));
    assert_eq!(
        warnings,
        names(&["package 'a' already installed.", "package 'c' already installed."])
    );
    let (keep, warnings) = select_wanted(&pkgs, &vec![true, false, true], true);
    assert_eq!(keep, pkgs);
    assert!(warnings.is_empty());
    let (keep, _) = select_wanted(&pkgs, &vec![true], false);
    assert_eq!(keep, names(&["b", "c"]));
}

#[test]
fn add_from_local_repo_decides_in_order() {
    let res = checkout();
    let t = tree();
    let err = add_from_local_repo(&res, Some(&t), false, &Vec::new(), &Vec::new()).unwrap_err();
    assert_eq!(err.kind, ErrorKind::Configuration);
    assert_eq!(err.message, "usage: vx src add <pkg> [pkg...]");

    let err = add_from_local_repo(&res, None, false, &names(&["foo"]), &vec![false]).unwrap_err();
    assert_eq!(err.kind, ErrorKind::NotFound);
    assert_eq!(err.message, "local repo not found at /vp/hostdir/binpkgs (build packages first)");

    let plan = add_from_local_repo(&res, Some(&t), false, &names(&["foo"]), &vec![true]).unwrap();
    assert!(plan.is_empty());

    let plan = add_from_local_repo(&res, Some(&t), true, &names(&["foo"]), &vec![true]).unwrap();
    assert_eq!(
        plan,
        vec![RepoInstall { repo: "/vp/hostdir/binpkgs".to_string(), pkgs: names(&["foo"]) }]
    );

    let err = add_from_local_repo(&res, Some(&t), false, &names(&["ghost"]), &vec![false]).unwrap_err();
    assert_eq!(err.kind, ErrorKind::NotFound);
    assert_eq!(err.message, "package(s) not found in local repository pool: ghost");

    let bare = RepoTree { base: dir("/vp/hostdir/binpkgs", &[]), nonfree: no_dir("x"), subdirs: Vec::new() };
    let err = add_from_local_repo(&res, Some(&bare), false, &names(&["foo"]), &vec![false]).unwrap_err();
    assert_eq!(err.kind, ErrorKind::NotFound);
    assert_eq!(
        err.message,
        "no usable local repositories found under /vp/hostdir/binpkgs (missing *-repodata?)"
    );

    let file = RepoTree { base: no_dir("/vp/hostdir/binpkgs"), nonfree: no_dir("x"), subdirs: Vec::new() };
    let err = add_from_local_repo(&res, Some(&file), false, &names(&["foo"]), &vec![false]).unwrap_err();
    assert_eq!(err.kind, ErrorKind::Configuration);
    assert_eq!(err.message, "failed to read /vp/hostdir/binpkgs");
}

#[test]
fn install_command_names_one_repository() {
    let share = RepoInstall { repo: "/r".to_string(), pkgs: names(&["a", "b"]) };
    assert_eq!(
        install_command(&share, true, true),
        names(&["sudo", "xbps-install", "-R", "/r", "-f", "-y", "a", "b"])
    );
    assert_eq!(
        install_command(&share, false, false),
        names(&["sudo", "xbps-install", "-R", "/r", "a", "b"])
    );
    assert_eq!(
        install_command(&share, false, true),
        names(&["sudo", "xbps-install", "-R", "/r", "-y", "a", "b"])
    );
}
