use vx::source::plan::{
    plan_src_updates, plan_src_updates_with_resolved, resolve_version, template_path, SrcTemplates,
    SrcUpdate, TemplateRead,
};
use vx::source::resolve::SrcResolved;
use vx::xbps::query::InstalledIndex;

fn checkout() -> SrcResolved {
    SrcResolved {
        voidpkgs: "/src/void-packages".to_string(),
        local_repo_rel: "hostdir/binpkgs".to_string(),
        use_nonfree: true,
    }
}

fn local(name: &str, text: &str) -> SrcTemplates {
    SrcTemplates {
        name: name.to_string(),
        upstream: None,
        local: TemplateRead::Text(text.to_string()),
    }
}

fn foo_installed() -> InstalledIndex {
    let mut index = InstalledIndex::new();
    index.insert("foo".to_string(), "foo-1.0_1".to_string());
    index
}

#[test]
fn installed_candidate_gives_an_empty_plan() {
    let pkgs = vec![local("foo", "version=1.0\nrevision=1\n")];
    let plan = plan_src_updates_with_resolved(&checkout(), &pkgs, &foo_installed(), false, false);
    assert!(plan.updates.is_empty());
    assert!(plan.warnings.is_empty());
}

#[test]
fn newer_revision_gives_one_candidate() {
    let pkgs = vec![local("foo", "version=1.0\nrevision=2\n")];
    let plan = plan_src_updates_with_resolved(&checkout(), &pkgs, &foo_installed(), false, false);
    assert_eq!(
        plan.updates,
        vec![SrcUpdate {
            name: "foo".to_string(),
            installed: Some("foo-1.0_1".to_string()),
            candidate: "foo-1.0_2".to_string(),
        }]
    );
    assert!(plan.warnings.is_empty());
}

#[test]
fn force_includes_an_installed_candidate() {
    let pkgs = vec![local("foo", "version=1.0\nrevision=1\n")];
    let plan = plan_src_updates_with_resolved(&checkout(), &pkgs, &foo_installed(), true, false);
    assert_eq!(
        plan.updates,
        vec![SrcUpdate {
            name: "foo".to_string(),
            installed: Some("foo-1.0_1".to_string()),
            candidate: "foo-1.0_1".to_string(),
        }]
    );
}

#[test]
fn package_that_is_not_installed_is_planned() {
    let pkgs = vec![local("bar", "version=2\n")];
    let plan = plan_src_updates_with_resolved(&checkout(), &pkgs, &foo_installed(), false, false);
    assert_eq!(
        plan.updates,
        vec![SrcUpdate { name: "bar".to_string(), installed: None, candidate: "bar-2_1".to_string() }]
    );
}

#[test]
fn plan_keeps_the_order_of_the_request() {
    let pkgs = vec![
        local("zeta", "version=1\n"),
        local("foo", "version=1.0\nrevision=1\n"),
        local("alpha", "version=3\nrevision=2\n"),
    ];
    let plan = plan_src_updates_with_resolved(&checkout(), &pkgs, &foo_installed(), false, false);
    let names: Vec<&str> = plan.updates.iter().map(|u| u.name.as_str()).collect();
    assert_eq!(names, vec!["zeta", "alpha"]);
    assert_eq!(plan.updates[1].candidate, "alpha-3_2");
}

#[test]
fn local_planning_warns_of_unusable_definitions() {
    let pkgs = vec![
        local("novers", "pkgname=novers\n"),
        SrcTemplates {
            name: "gone".to_string(),
            upstream: Some("version=9\n".to_string()),
            local: TemplateRead::Unreadable("permission denied".to_string()),
        },
        SrcTemplates { name: "absent".to_string(), upstream: None, local: TemplateRead::Missing },
    ];
    let plan = plan_src_updates_with_resolved(&checkout(), &pkgs, &InstalledIndex::new(), false, false);
    assert!(plan.updates.is_empty());
    assert_eq!(
        plan.warnings,
        vec![
            "novers: template missing version= (local planning; update your checkout or use --remote)",
            "gone: failed to read template /src/void-packages/srcpkgs/gone/template: permission denied (local planning; update your checkout or use --remote)",
            "absent: failed to read template /src/void-packages/srcpkgs/absent/template: no such file (local planning; update your checkout or use --remote)",
        ]
    );
}

#[test]
fn remote_planning_prefers_upstream() {
    let pkgs = vec![SrcTemplates {
        name: "foo".to_string(),
        upstream: Some("version=2.0\nrevision=1\n".to_string()),
        local: TemplateRead::Text("version=1.0\nrevision=1\n".to_string()),
    }];
    let plan = plan_src_updates_with_resolved(&checkout(), &pkgs, &foo_installed(), false, true);
    assert_eq!(plan.updates.len(), 1);
    assert_eq!(plan.updates[0].candidate, "foo-2.0_1");
}

#[test]
fn remote_planning_falls_back_to_local_in_silence() {
    let pkgs = vec![local("forkonly", "version=0.1\n")];
    let plan = plan_src_updates_with_resolved(&checkout(), &pkgs, &InstalledIndex::new(), false, true);
    assert_eq!(plan.updates.len(), 1);
    assert_eq!(plan.updates[0].candidate, "forkonly-0.1_1");
    assert!(plan.warnings.is_empty());
}

#[test]
fn remote_planning_warns_where_neither_source_is_usable() {
    let pkgs = vec![
        SrcTemplates { name: "nowhere".to_string(), upstream: None, local: TemplateRead::Missing },
        SrcTemplates {
            name: "badup".to_string(),
            upstream: Some("nothing here".to_string()),
            local: TemplateRead::Text("version=1\n".to_string()),
        },
        SrcTemplates {
            name: "badlocal".to_string(),
            upstream: None,
            local: TemplateRead::Text("nothing here".to_string()),
        },
        SrcTemplates {
            name: "locked".to_string(),
            upstream: None,
            local: TemplateRead::Unreadable("denied".to_string()),
        },
    ];
    let plan = plan_src_updates_with_resolved(&checkout(), &pkgs, &InstalledIndex::new(), false, true);
    assert!(plan.updates.is_empty());
    assert_eq!(
        plan.warnings,
        vec![
            "nowhere: not found in upstream/master and no local template at /src/void-packages/srcpkgs/nowhere/template",
            "badup: upstream template parse failed: template missing version=",
            "badlocal: template missing version=",
            "locked: failed to read template /src/void-packages/srcpkgs/locked/template: denied",
        ]
    );
}

#[test]
fn resolve_version_gives_version_or_warning() {
    let t = local("foo", "version=1\nrevision=2\n");
    assert_eq!(
        resolve_version("/r", &t, false),
        Ok(("1".to_string(), "2".to_string()))
    );
    assert_eq!(resolve_version("/r", &t, true), Ok(("1".to_string(), "2".to_string())));
    let t = SrcTemplates { name: "x".to_string(), upstream: None, local: TemplateRead::Missing };
    assert_eq!(
        resolve_version("/r", &t, true),
        Err("x: not found in upstream/master and no local template at /r/srcpkgs/x/template".to_string())
    );
}

#[test]
fn template_path_follows_the_layout() {
    assert_eq!(template_path("/r", "foo"), "/r/srcpkgs/foo/template");
}

#[test]
fn request_takes_the_place_of_the_managed_list() {
    let requested = vec![local("a", "version=1\n")];
    let managed = vec![local("m", "version=2\n")];
    let index = InstalledIndex::new();
    let plan = plan_src_updates(&checkout(), Some(&requested), &managed, &index, false, false);
    assert_eq!(plan.updates.len(), 1);
    assert_eq!(plan.updates[0].name, "a");
    let plan = plan_src_updates(&checkout(), None, &managed, &index, false, false);
    assert_eq!(plan.updates.len(), 1);
    assert_eq!(plan.updates[0].candidate, "m-2_1");
    let none: Vec<SrcTemplates> = Vec::new();
    let plan = plan_src_updates(&checkout(), None, &none, &index, true, true);
    assert!(plan.updates.is_empty());
    assert!(plan.warnings.is_empty());
}
