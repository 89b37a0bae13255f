//! Building from a worktree of the upstream reference: which local package
//! definitions are laid over it, with which environment the build driver
//! runs, and what its configuration must hold.

use crate::source::resolve::{SrcResolved, SrcResolvedView};
use crate::error::{VxError, VxErrorView, usage, usage_error};
use crate::paths::{parent_dir, parent_of};
use crate::source::add::base_path;
use crate::text::{
    from_chars, join2, join3, lines, same, seqs, split_lines, strs, to_chars, trim, trimmed,
};
use vstd::prelude::*;

verus! {

/// Why a local definition is laid over the worktree.
#[derive(Clone, Copy, Debug, PartialEq, Eq, Structural)]
pub enum OverlayReason {
    /// The local directory carries the override marker.
    Marker,
    /// The upstream reference has no definition of the package.
    ForkOnly,
}

/// Whether a local definition is laid over the worktree: where it carries
/// the override marker, or where upstream has no definition of the package.
/// An upstream definition without a marker against it always wins.
pub open spec fn should_overlay(has_marker: bool, upstream_has: bool) -> bool {
    has_marker || !upstream_has
}

/// Decides whether a local definition is laid over the worktree.
pub fn overlay_decision(has_marker: bool, upstream_has: bool) -> (r: Option<OverlayReason>)
    ensures
        r is Some <==> should_overlay(has_marker, upstream_has),
        r == Some(OverlayReason::Marker) <==> has_marker,
        r == Some(OverlayReason::ForkOnly) <==> !has_marker && !upstream_has,
{
    if has_marker {
        Some(OverlayReason::Marker)
    } else if !upstream_has {
        Some(OverlayReason::ForkOnly)
    } else {
        None
    }
}

/// What is known of a package that is about to be built in the worktree.
#[derive(Debug, Clone)]
pub struct OverlayInput {
    pub name: String,
    /// Whether the checkout has a directory for the package.
    pub local_is_dir: bool,
    /// Whether that directory holds the override marker.
    pub has_marker: bool,
    /// Whether the upstream reference has a definition of the package.
    pub upstream_has: bool,
}

/// A package about to be built, as a mathematical value.
pub struct OverlayInputView {
    pub name: Seq<char>,
    pub local_is_dir: bool,
    pub has_marker: bool,
    pub upstream_has: bool,
}

impl View for OverlayInput {
    type V = OverlayInputView;

    open spec fn view(&self) -> OverlayInputView {
        OverlayInputView {
            name: self.name@,
            local_is_dir: self.local_is_dir,
            has_marker: self.has_marker,
            upstream_has: self.upstream_has,
        }
    }
}

/// The packages that a vector holds, in order.
pub open spec fn overlay_inputs_view(v: Seq<OverlayInput>) -> Seq<OverlayInputView> {
    Seq::new(v.len(), |i: int| v[i]@)
}

/// One directory to copy into the worktree, replacing what is there.
#[derive(Debug, Clone, PartialEq, Eq)]
pub struct OverlayCopy {
    pub pkg: String,
    pub from: String,
    pub to: String,
    pub reason: OverlayReason,
}

/// One copy as a mathematical value.
pub struct OverlayCopyView {
    pub pkg: Seq<char>,
    pub from: Seq<char>,
    pub to: Seq<char>,
    pub reason: OverlayReason,
}

impl View for OverlayCopy {
    type V = OverlayCopyView;

    open spec fn view(&self) -> OverlayCopyView {
        OverlayCopyView { pkg: self.pkg@, from: self.from@, to: self.to@, reason: self.reason }
    }
}

/// The copies that a vector holds, in order.
pub open spec fn overlay_copies_view(v: Seq<OverlayCopy>) -> Seq<OverlayCopyView> {
    Seq::new(v.len(), |i: int| v[i]@)
}

/// Where the directory of package `name` lies in the tree at `root`.
pub open spec fn srcpkg_dir(root: Seq<char>, name: Seq<char>) -> Seq<char> {
    root + "/srcpkgs/"@ + name
}

/// The copy that one package asks for, if it asks for one: its name counts
/// without the whitespace around it; a package without a name or without a
/// local directory asks for none.
pub open spec fn overlay_of(local_repo: Seq<char>, worktree: Seq<char>, p: OverlayInputView)
    -> Option<OverlayCopyView> {
    let name = trim(p.name);
    if name.len() == 0 || !p.local_is_dir || !should_overlay(p.has_marker, p.upstream_has) {
        None
    } else {
        Some(
            OverlayCopyView {
                pkg: name,
                from: srcpkg_dir(local_repo, name),
                to: srcpkg_dir(worktree, name),
                reason: if p.has_marker {
                    OverlayReason::Marker
                } else {
                    OverlayReason::ForkOnly
                },
            },
        )
    }
}

/// The copies that a list of packages asks for, in its order.
pub open spec fn overlays(local_repo: Seq<char>, worktree: Seq<char>, pkgs: Seq<OverlayInputView>)
    -> Seq<OverlayCopyView>
    decreases pkgs.len(),
{
    if pkgs.len() == 0 {
        Seq::empty()
    } else {
        let before = overlays(local_repo, worktree, pkgs.drop_last());
        match overlay_of(local_repo, worktree, pkgs.last()) {
            Some(c) => before.push(c),
            None => before,
        }
    }
}

/// Decides which local package definitions are copied into the upstream
/// worktree before a build, and where.
pub fn overlay_local_srcpkgs(local_repo: &str, worktree: &str, pkgs: &Vec<OverlayInput>) -> (out:
    Vec<OverlayCopy>)
    ensures
        overlay_copies_view(out@) == overlays(local_repo@, worktree@, overlay_inputs_view(pkgs@)),
{
    let ghost all = overlay_inputs_view(pkgs@);
    let mut out: Vec<OverlayCopy> = Vec::new();
    let mut i: usize = 0;
    assert(all.take(0) =~= Seq::<OverlayInputView>::empty());
    assert(overlay_copies_view(out@) =~= Seq::<OverlayCopyView>::empty());
    while i < pkgs.len()
        invariant
            i <= pkgs.len(),
            all == overlay_inputs_view(pkgs@),
            overlay_copies_view(out@) == overlays(local_repo@, worktree@, all.take(i as int)),
        decreases pkgs.len() - i,
    {
        let p = &pkgs[i];
        proof {
            assert(all.take(i + 1).last() == p@);
            assert(all.take(i + 1).drop_last() =~= all.take(i as int));
        }
        let name = from_chars(&trimmed(&to_chars(p.name.as_str())));
        if name.as_str().unicode_len() > 0 && p.local_is_dir {
            match overlay_decision(p.has_marker, p.upstream_has) {
                Some(reason) => {
                    let copy = OverlayCopy {
                        from: join3(local_repo, "/srcpkgs/", name.as_str()),
                        to: join3(worktree, "/srcpkgs/", name.as_str()),
                        pkg: name,
                        reason,
                    };
                    let ghost before = out@;
                    out.push(copy);
                    assert(overlay_copies_view(out@) =~= overlay_copies_view(before).push(copy@));
                },
                None => {},
            }
        }
        i += 1;
    }
    assert(all.take(pkgs.len() as int) =~= all);
    out
}

/// The line that lets the build driver build restricted packages.
pub open spec fn allow_restricted_line() -> Seq<char> {
    "XBPS_ALLOW_RESTRICTED=yes"@
}

/// Whether one of `lines` is, but for whitespace around it, the line that
/// allows restricted packages.
pub open spec fn allows_restricted(lines: Seq<Seq<char>>) -> bool {
    exists|i: int| 0 <= i < lines.len() && trim(#[trigger] lines[i]) == allow_restricted_line()
}

/// What the configuration of the build driver must be rewritten to, if it
/// must be rewritten: nothing where restricted packages are not wanted or
/// the text allows them already; else the text, ended by a line feed, and
/// the line that allows them.
pub open spec fn conf_rewrite(allow: bool, existing: Option<Seq<char>>) -> Option<Seq<char>> {
    if !allow {
        None
    } else {
        match existing {
            Some(text) => if allows_restricted(split_lines(text)) {
                None
            } else if text.len() > 0 && text.last() == '\n' {
                Some(text + allow_restricted_line() + "\n"@)
            } else {
                Some(text + "\n"@ + allow_restricted_line() + "\n"@)
            },
            None => Some(allow_restricted_line() + "\n"@),
        }
    }
}

/// Decides whether the configuration of the build driver must be rewritten,
/// and to what. `existing` is the text of the file, if there is one.
pub fn ensure_xbps_conf(allow: bool, existing: Option<&str>) -> (r: Option<String>)
    ensures
        match r {
            Some(text) => conf_rewrite(
                allow,
                match existing {
                    Some(t) => Some(t@),
                    None => None,
                },
            ) == Some(text@),
            None => conf_rewrite(
                allow,
                match existing {
                    Some(t) => Some(t@),
                    None => None,
                },
            ) is None,
        },
{
    if !allow {
        return None;
    }
    match existing {
        Some(text) => {
            let chars = to_chars(text);
            let ls = lines(&chars);
            let wanted = to_chars("XBPS_ALLOW_RESTRICTED=yes");
            let mut i: usize = 0;
            while i < ls.len()
                invariant
                    i <= ls.len(),
                    allow,
                    existing == Some(text),
                    seqs(ls@) == split_lines(text@),
                    wanted@ == allow_restricted_line(),
                    forall|k: int|
                        0 <= k < i ==> trim(#[trigger] split_lines(text@)[k])
                            != allow_restricted_line(),
                decreases ls.len() - i,
            {
                let line = trimmed(&ls[i]);
                assert(seqs(ls@)[i as int] == ls@[i as int]@);
                if same(&line, &wanted) {
                    assert(trim(split_lines(text@)[i as int]) == allow_restricted_line());
                    return None;
                }
                i += 1;
            }
            let n = chars.len();
            if n > 0 && chars[n - 1] == '\n' {
                Some(join3(text, "XBPS_ALLOW_RESTRICTED=yes", "\n"))
            } else {
                let head = join2(text, "\n");
                Some(join3(head.as_str(), "XBPS_ALLOW_RESTRICTED=yes", "\n"))
            }
        },
        None => Some(join2("XBPS_ALLOW_RESTRICTED=yes", "\n")),
    }
}

/// The arguments of the build driver: a subcommand and the packages.
pub fn join_args(sub: &str, pkgs: &Vec<String>) -> (args: Vec<String>)
    ensures
        strs(args@) == seq![sub@] + strs(pkgs@),
{
    let mut args: Vec<String> = Vec::new();
    args.push(sub.to_owned());
    let ghost head = strs(args@);
    assert(head =~= seq![sub@]);
    let mut i: usize = 0;
    assert(head + strs(pkgs@).take(0) =~= head);
    while i < pkgs.len()
        invariant
            i <= pkgs.len(),
            strs(args@) == head + strs(pkgs@).take(i as int),
        decreases pkgs.len() - i,
    {
        let ghost before = args@;
        args.push(pkgs[i].clone());
        assert(strs(args@) =~= strs(before).push(pkgs@[i as int]@));
        assert(head + strs(pkgs@).take(i + 1) =~= (head + strs(pkgs@).take(i as int)).push(
            pkgs@[i as int]@,
        ));
        i += 1;
    }
    assert(strs(pkgs@).take(pkgs.len() as int) =~= strs(pkgs@));
    args
}

/// The directory that builds in a worktree write their packages to: the one
/// that holds the local repository, or `hostdir` in the checkout where the
/// repository has no parent.
pub open spec fn host_dir(res: SrcResolvedView) -> Seq<char> {
    match parent_dir(base_path(res)) {
        Some(dir) => dir,
        None => res.voidpkgs + "/hostdir"@,
    }
}

/// The environment of a build in a worktree: the packages and the downloads
/// go to the directories of the checkout.
pub open spec fn worktree_env(res: SrcResolvedView) -> Seq<(Seq<char>, Seq<char>)> {
    seq![("XBPS_HOSTDIR"@, host_dir(res)), ("XBPS_DISTDIR"@, res.voidpkgs + "/distfiles"@)]
}

/// The variables that a vector of pairs holds, in order.
pub open spec fn env_view(v: Seq<(String, String)>) -> Seq<(Seq<char>, Seq<char>)> {
    Seq::new(v.len(), |i: int| (v[i].0@, v[i].1@))
}

/// The environment with which the build driver runs in a worktree, so that
/// it shares the packages and downloads of the checkout.
pub fn build_env_for_worktree(res: &SrcResolved) -> (env: Vec<(String, String)>)
    ensures
        env_view(env@) == worktree_env(res@),
{
    let base = join3(res.voidpkgs.as_str(), "/", res.local_repo_rel.as_str());
    let hostdir = match parent_of(base.as_str()) {
        Some(dir) => dir,
        None => join2(res.voidpkgs.as_str(), "/hostdir"),
    };
    let dist = join2(res.voidpkgs.as_str(), "/distfiles");
    let mut env: Vec<(String, String)> = Vec::new();
    env.push(("XBPS_HOSTDIR".to_owned(), hostdir));
    env.push(("XBPS_DISTDIR".to_owned(), dist));
    assert(env_view(env@) =~= worktree_env(res@));
    env
}

/// The environment with which the build driver runs in the checkout itself:
/// nothing is overridden.
pub fn build_env_for_local(res: &SrcResolved) -> (env: Vec<(String, String)>)
    ensures
        env@.len() == 0,
{
    Vec::new()
}

/// The failure of a request of the build driver without packages.
pub open spec fn need_pkgs_failure(command: Seq<char>) -> VxErrorView {
    usage("usage: "@ + command + " <pkg> [pkg...]"@)
}

/// The arguments of the build driver for the subcommand `sub` on `pkgs`; a
/// request without packages is refused with the usage of `command`.
fn driver_args(command: &str, sub: &str, pkgs: &Vec<String>) -> (r: Result<Vec<String>, VxError>)
    ensures
        match r {
            Ok(args) => pkgs.len() > 0 && strs(args@) == seq![sub@] + strs(pkgs@),
            Err(e) => pkgs.len() == 0 && e@ == need_pkgs_failure(command@),
        },
{
    if pkgs.len() == 0 {
        Err(usage_error(join3("usage: ", command, " <pkg> [pkg...]").as_str()))
    } else {
        Ok(join_args(sub, pkgs))
    }
}

/// The arguments with which the build driver builds `pkgs`.
pub fn build(pkgs: &Vec<String>) -> (r: Result<Vec<String>, VxError>)
    ensures
        match r {
            Ok(args) => pkgs.len() > 0 && strs(args@) == seq!["pkg"@] + strs(pkgs@),
            Err(e) => pkgs.len() == 0 && e@ == need_pkgs_failure("vx src build"@),
        },
{
    driver_args("vx src build", "pkg", pkgs)
}

/// The arguments with which the build driver removes the build files of
/// `pkgs`.
pub fn clean(pkgs: &Vec<String>) -> (r: Result<Vec<String>, VxError>)
    ensures
        match r {
            Ok(args) => pkgs.len() > 0 && strs(args@) == seq!["clean"@] + strs(pkgs@),
            Err(e) => pkgs.len() == 0 && e@ == need_pkgs_failure("vx src clean"@),
        },
{
    driver_args("vx src clean", "clean", pkgs)
}

/// The arguments with which the build driver checks the definitions of
/// `pkgs`.
pub fn lint(pkgs: &Vec<String>) -> (r: Result<Vec<String>, VxError>)
    ensures
        match r {
            Ok(args) => pkgs.len() > 0 && strs(args@) == seq!["lint"@] + strs(pkgs@),
            Err(e) => pkgs.len() == 0 && e@ == need_pkgs_failure("vx src lint"@),
        },
{
    driver_args("vx src lint", "lint", pkgs)
}

} // verus!
