//! Finding the local binary repositories of a checkout and, for each package
//! to install, the repository that really holds its artifact.

use crate::error::{ErrorKind, VxError, VxErrorView, usage, usage_error};
use crate::source::resolve::{SrcResolved, SrcResolvedView};
use crate::text::{
    chain, ends_with, has_prefix, has_suffix, join2, join3, same, starts_with, strs, to_chars,
};
use vstd::prelude::*;

verus! {

/// A directory as the resolver sees it.
#[derive(Debug, Clone)]
pub struct DirListing {
    pub path: String,
    /// Whether there is a directory at `path` that can be listed.
    pub is_dir: bool,
    /// The names of what lies directly in it.
    pub names: Vec<String>,
}

/// A directory as a mathematical value.
pub struct DirListingView {
    pub path: Seq<char>,
    pub is_dir: bool,
    pub names: Seq<Seq<char>>,
}

impl View for DirListing {
    type V = DirListingView;

    open spec fn view(&self) -> DirListingView {
        DirListingView { path: self.path@, is_dir: self.is_dir, names: strs(self.names@) }
    }
}

/// The directories that a vector holds, in order.
pub open spec fn listings_view(v: Seq<DirListing>) -> Seq<DirListingView> {
    Seq::new(v.len(), |i: int| v[i]@)
}

/// An entry of the base directory, with its `nonfree` child.
#[derive(Debug, Clone)]
pub struct SubRepo {
    pub dir: DirListing,
    pub nonfree: DirListing,
}

/// An entry of the base directory as a mathematical value.
pub struct SubRepoView {
    pub dir: DirListingView,
    pub nonfree: DirListingView,
}

impl View for SubRepo {
    type V = SubRepoView;

    open spec fn view(&self) -> SubRepoView {
        SubRepoView { dir: self.dir@, nonfree: self.nonfree@ }
    }
}

/// The entries that a vector holds, in order.
pub open spec fn subrepos_view(v: Seq<SubRepo>) -> Seq<SubRepoView> {
    Seq::new(v.len(), |i: int| v[i]@)
}

/// The base directory of the local repositories and what lies under it.
#[derive(Debug, Clone)]
pub struct RepoTree {
    pub base: DirListing,
    /// The `nonfree` child of the base.
    pub nonfree: DirListing,
    /// The entries of the base, in the order in which they were listed.
    pub subdirs: Vec<SubRepo>,
}

/// The base directory as a mathematical value.
pub struct RepoTreeView {
    pub base: DirListingView,
    pub nonfree: DirListingView,
    pub subdirs: Seq<SubRepoView>,
}

impl View for RepoTree {
    type V = RepoTreeView;

    open spec fn view(&self) -> RepoTreeView {
        RepoTreeView {
            base: self.base@,
            nonfree: self.nonfree@,
            subdirs: subrepos_view(self.subdirs@),
        }
    }
}

/// Whether `name` is the name of a repository's metadata file.
pub open spec fn is_repodata_name(name: Seq<char>) -> bool {
    has_suffix(name, "-repodata"@)
}

/// Whether `d` is a repository: a directory that directly holds a metadata
/// file.
pub open spec fn is_repo(d: DirListingView) -> bool {
    d.is_dir && exists|i: int| 0 <= i < d.names.len() && is_repodata_name(#[trigger] d.names[i])
}

/// Whether `name` is the name of an artifact of package `pkg`: `pkg`, a
/// hyphen, anything, and `.xbps`.
pub open spec fn is_artifact_name(name: Seq<char>, pkg: Seq<char>) -> bool {
    has_prefix(name, pkg + "-"@) && has_suffix(name, ".xbps"@)
}

/// Whether the listing of `d` holds an artifact of `pkg`.
pub open spec fn holds_pkg(d: DirListingView, pkg: Seq<char>) -> bool {
    exists|i: int| 0 <= i < d.names.len() && is_artifact_name(#[trigger] d.names[i], pkg)
}

/// The directories that the entries of the base give to look at, in order:
/// each entry that is a directory and, where `nonfree` is in use, its
/// `nonfree` child.
pub open spec fn sub_candidates(subdirs: Seq<SubRepoView>, use_nonfree: bool) -> Seq<
    DirListingView,
>
    decreases subdirs.len(),
{
    if subdirs.len() == 0 {
        Seq::empty()
    } else {
        let before = sub_candidates(subdirs.drop_last(), use_nonfree);
        let last = subdirs.last();
        if !last.dir.is_dir {
            before
        } else if use_nonfree {
            before.push(last.dir).push(last.nonfree)
        } else {
            before.push(last.dir)
        }
    }
}

/// The directories to look at, in order: the base, its `nonfree` child where
/// `nonfree` is in use, then what the entries of the base give.
pub open spec fn candidates(tree: RepoTreeView, use_nonfree: bool) -> Seq<DirListingView> {
    let head = if use_nonfree {
        seq![tree.base, tree.nonfree]
    } else {
        seq![tree.base]
    };
    head + sub_candidates(tree.subdirs, use_nonfree)
}

/// Whether one of `dirs` lies at `path`.
pub open spec fn has_path(dirs: Seq<DirListingView>, path: Seq<char>) -> bool {
    exists|i: int| 0 <= i < dirs.len() && (#[trigger] dirs[i]).path == path
}

/// The repositories among `dirs`, in order, each path once.
pub open spec fn keep_repos(dirs: Seq<DirListingView>) -> Seq<DirListingView>
    decreases dirs.len(),
{
    if dirs.len() == 0 {
        Seq::empty()
    } else {
        let before = keep_repos(dirs.drop_last());
        if is_repo(dirs.last()) && !has_path(before, dirs.last().path) {
            before.push(dirs.last())
        } else {
            before
        }
    }
}

/// The repositories under a base directory, in the order of discovery.
pub open spec fn discovered(tree: RepoTreeView, use_nonfree: bool) -> Seq<DirListingView> {
    keep_repos(candidates(tree, use_nonfree))
}

/// The position of the first of `repos` that holds an artifact of `pkg`.
pub open spec fn first_holder(repos: Seq<DirListingView>, pkg: Seq<char>) -> Option<int>
    decreases repos.len(),
{
    if repos.len() == 0 {
        None
    } else {
        match first_holder(repos.drop_last(), pkg) {
            Some(i) => Some(i),
            None => if holds_pkg(repos.last(), pkg) {
                Some(repos.len() - 1)
            } else {
                None
            },
        }
    }
}

/// `first_holder` is the least position of a repository that holds the
/// package, and is `None` exactly where none holds it.
pub proof fn lemma_first_holder(repos: Seq<DirListingView>, pkg: Seq<char>)
    ensures
        match first_holder(repos, pkg) {
            Some(i) => 0 <= i < repos.len() && holds_pkg(repos[i], pkg) && forall|j: int|
                0 <= j < i ==> !holds_pkg(#[trigger] repos[j], pkg),
            None => forall|j: int| 0 <= j < repos.len() ==> !holds_pkg(#[trigger] repos[j], pkg),
        },
    decreases repos.len(),
{
    if repos.len() > 0 {
        let init = repos.drop_last();
        lemma_first_holder(init, pkg);
        match first_holder(init, pkg) {
            Some(i) => {
                assert(init[i] == repos[i]);
                assert forall|j: int| 0 <= j < i implies !holds_pkg(#[trigger] repos[j], pkg) by {
                    assert(init[j] == repos[j]);
                }
            },
            None => {
                assert forall|j: int| 0 <= j < init.len() implies !holds_pkg(
                    #[trigger] repos[j],
                    pkg,
                ) by {
                    assert(init[j] == repos[j]);
                }
            },
        }
    }
}

/// Whether `d` is a repository.
pub fn is_repo_dir(d: &DirListing) -> (b: bool)
    ensures
        b == is_repo(d@),
{
    if !d.is_dir {
        return false;
    }
    let suffix = to_chars("-repodata");
    let mut i: usize = 0;
    while i < d.names.len()
        invariant
            i <= d.names.len(),
            d.is_dir,
            suffix@ == "-repodata"@,
            forall|k: int| 0 <= k < i ==> !is_repodata_name(#[trigger] d@.names[k]),
        decreases d.names.len() - i,
    {
        let name = to_chars(d.names[i].as_str());
        if ends_with(&name, &suffix) {
            assert(is_repodata_name(d@.names[i as int]));
            return true;
        }
        i += 1;
    }
    false
}

/// Whether the listing of `repo` holds an artifact of `pkg`.
pub fn repo_has_pkg_file(repo: &DirListing, pkg: &str) -> (b: bool)
    ensures
        b == holds_pkg(repo@, pkg@),
{
    let prefix = chain(&to_chars(pkg), &to_chars("-"));
    let suffix = to_chars(".xbps");
    let mut i: usize = 0;
    while i < repo.names.len()
        invariant
            i <= repo.names.len(),
            prefix@ == pkg@ + "-"@,
            suffix@ == ".xbps"@,
            forall|k: int| 0 <= k < i ==> !is_artifact_name(#[trigger] repo@.names[k], pkg@),
        decreases repo.names.len() - i,
    {
        let name = to_chars(repo.names[i].as_str());
        if starts_with(&name, &prefix) && ends_with(&name, &suffix) {
            assert(is_artifact_name(repo@.names[i as int], pkg@));
            return true;
        }
        i += 1;
    }
    false
}

/// The position of the first repository, in the order given, whose listing
/// holds an artifact of `pkg`.
pub fn holder_index(repos: &Vec<DirListing>, pkg: &str) -> (r: Option<usize>)
    ensures
        match r {
            Some(i) => first_holder(listings_view(repos@), pkg@) == Some(i as int) && i
                < repos.len(),
            None => first_holder(listings_view(repos@), pkg@) is None,
        },
{
    proof {
        lemma_first_holder(listings_view(repos@), pkg@);
    }
    let ghost all = listings_view(repos@);
    let mut i: usize = 0;
    assert(all.take(0) =~= Seq::<DirListingView>::empty());
    while i < repos.len()
        invariant
            i <= repos.len(),
            all == listings_view(repos@),
            first_holder(all.take(i as int), pkg@) is None,
        decreases repos.len() - i,
    {
        proof {
            assert(all.take(i + 1).last() == repos@[i as int]@);
            assert(all.take(i + 1).drop_last() =~= all.take(i as int));
        }
        if repo_has_pkg_file(&repos[i], pkg) {
            proof {
                lemma_first_holder_prefix(all, i + 1, pkg@);
            }
            return Some(i);
        }
        i += 1;
    }
    assert(all.take(repos.len() as int) =~= all);
    None
}

/// The first repository, in the order given, whose listing holds an artifact
/// of `pkg`; `None` where no listing holds one, whatever metadata the
/// repositories have.
pub fn choose_repo_for_pkg(repos: &Vec<DirListing>, pkg: &str) -> (r: Option<String>)
    ensures
        match r {
            Some(path) => first_holder(listings_view(repos@), pkg@) is Some && path@
                == listings_view(repos@)[first_holder(listings_view(repos@), pkg@)->0].path,
            None => first_holder(listings_view(repos@), pkg@) is None,
        },
        r is None <==> forall|i: int|
            0 <= i < repos.len() ==> !holds_pkg(#[trigger] listings_view(repos@)[i], pkg@),
{
    proof {
        lemma_first_holder(listings_view(repos@), pkg@);
    }
    match holder_index(repos, pkg) {
        Some(i) => Some(repos[i].path.clone()),
        None => None,
    }
}

/// A holder found among the first `n` repositories is the first holder of
/// all.
proof fn lemma_first_holder_prefix(repos: Seq<DirListingView>, n: int, pkg: Seq<char>)
    requires
        0 <= n <= repos.len(),
        first_holder(repos.take(n), pkg) is Some,
    ensures
        first_holder(repos, pkg) == first_holder(repos.take(n), pkg),
    decreases repos.len() - n,
{
    if n < repos.len() {
        assert(repos.take(n + 1).drop_last() =~= repos.take(n));
        lemma_first_holder_prefix(repos, n + 1, pkg);
    } else {
        assert(repos.take(n) =~= repos);
    }
}

/// A copy of a listing.
fn clone_listing(d: &DirListing) -> (r: DirListing)
    ensures
        r@ == d@,
{
    let mut names: Vec<String> = Vec::new();
    let mut i: usize = 0;
    while i < d.names.len()
        invariant
            i <= d.names.len(),
            strs(names@) == strs(d.names@).take(i as int),
        decreases d.names.len() - i,
    {
        let ghost before = names@;
        names.push(d.names[i].clone());
        assert(strs(names@) =~= strs(before).push(d.names@[i as int]@));
        assert(strs(d.names@).take(i + 1) =~= strs(d.names@).take(i as int).push(
            d.names@[i as int]@,
        ));
        i += 1;
    }
    assert(strs(d.names@).take(d.names.len() as int) =~= strs(d.names@));
    DirListing { path: d.path.clone(), is_dir: d.is_dir, names }
}

/// Whether one of `dirs` lies at `path`.
fn contains_path(dirs: &Vec<DirListing>, path: &str) -> (b: bool)
    ensures
        b == has_path(listings_view(dirs@), path@),
{
    let key = to_chars(path);
    let mut i: usize = 0;
    while i < dirs.len()
        invariant
            i <= dirs.len(),
            key@ == path@,
            forall|k: int| 0 <= k < i ==> (#[trigger] listings_view(dirs@)[k]).path != path@,
        decreases dirs.len() - i,
    {
        let p = to_chars(dirs[i].path.as_str());
        if same(&p, &key) {
            assert(listings_view(dirs@)[i as int].path == path@);
            return true;
        }
        i += 1;
    }
    false
}

/// Takes `d` into `out` where it is a repository whose path `out` lacks.
fn consider(out: &mut Vec<DirListing>, d: &DirListing, Ghost(seen): Ghost<Seq<DirListingView>>)
    requires
        listings_view(old(out)@) == keep_repos(seen),
    ensures
        listings_view(final(out)@) == keep_repos(seen.push(d@)),
{
    assert(seen.push(d@).drop_last() =~= seen);
    if is_repo_dir(d) && !contains_path(out, d.path.as_str()) {
        let ghost before = out@;
        let copy = clone_listing(d);
        out.push(copy);
        assert(listings_view(out@) =~= listings_view(before).push(d@));
    }
}

/// The text of the failure that a base directory which cannot be listed
/// gives.
pub open spec fn unreadable_base_message(path: Seq<char>) -> Seq<char> {
    "failed to read "@ + path
}

/// Finds the repositories under a base directory: the base itself, its
/// `nonfree` child, each entry of the base that is a directory, and each
/// such entry's `nonfree` child. The `nonfree` children count only where
/// `use_nonfree` is set. The result keeps the order of discovery and holds no
/// path twice. A base that is no directory is refused.
pub fn discover_local_repo_dirs(tree: &RepoTree, use_nonfree: bool) -> (r: Result<
    Vec<DirListing>,
    VxError,
>)
    ensures
        match r {
            Ok(out) => tree.base.is_dir && listings_view(out@) == discovered(tree@, use_nonfree),
            Err(e) => !tree.base.is_dir && e@ == (VxErrorView {
                kind: ErrorKind::Configuration,
                message: unreadable_base_message(tree@.base.path),
            }),
        },
{
    if !tree.base.is_dir {
        return Err(
            VxError::new(
                ErrorKind::Configuration,
                join2("failed to read ", tree.base.path.as_str()),
            ),
        );
    }
    let mut out: Vec<DirListing> = Vec::new();
    let ghost mut seen: Seq<DirListingView> = Seq::empty();
    assert(listings_view(out@) =~= keep_repos(seen));
    consider(&mut out, &tree.base, Ghost(seen));
    proof {
        seen = seen.push(tree.base@);
    }
    if use_nonfree {
        consider(&mut out, &tree.nonfree, Ghost(seen));
        proof {
            seen = seen.push(tree.nonfree@);
        }
    }
    let ghost head = seen;
    let ghost subs = subrepos_view(tree.subdirs@);
    let mut i: usize = 0;
    assert(subs.take(0) =~= Seq::<SubRepoView>::empty());
    assert(head + sub_candidates(subs.take(0), use_nonfree) =~= head);
    while i < tree.subdirs.len()
        invariant
            i <= tree.subdirs.len(),
            subs == subrepos_view(tree.subdirs@),
            seen == head + sub_candidates(subs.take(i as int), use_nonfree),
            listings_view(out@) == keep_repos(seen),
        decreases tree.subdirs.len() - i,
    {
        let sub = &tree.subdirs[i];
        let ghost before = sub_candidates(subs.take(i as int), use_nonfree);
        proof {
            assert(subs.take(i + 1).last() == sub@);
            assert(subs.take(i + 1).drop_last() =~= subs.take(i as int));
        }
        if sub.dir.is_dir {
            consider(&mut out, &sub.dir, Ghost(seen));
            proof {
                seen = seen.push(sub.dir@);
                assert(seen =~= head + before.push(sub.dir@));
            }
            if use_nonfree {
                consider(&mut out, &sub.nonfree, Ghost(seen));
                proof {
                    seen = seen.push(sub.nonfree@);
                    assert(seen =~= head + before.push(sub.dir@).push(sub.nonfree@));
                }
            }
        }
        i += 1;
    }
    proof {
        assert(subs.take(tree.subdirs.len() as int) =~= subs);
        assert(head =~= if use_nonfree {
            seq![tree@.base, tree@.nonfree]
        } else {
            seq![tree@.base]
        });
    }
    Ok(out)
}

/// Every discovered directory is a repository, and no two lie at one path.
pub proof fn lemma_keep_repos(dirs: Seq<DirListingView>)
    ensures
        forall|i: int| 0 <= i < keep_repos(dirs).len() ==> is_repo(#[trigger] keep_repos(dirs)[i]),
        forall|i: int, j: int|
            0 <= i < j < keep_repos(dirs).len() ==> (#[trigger] keep_repos(dirs)[i]).path != (
            #[trigger] keep_repos(dirs)[j]).path,
    decreases dirs.len(),
{
    if dirs.len() > 0 {
        lemma_keep_repos(dirs.drop_last());
        let before = keep_repos(dirs.drop_last());
        let all = keep_repos(dirs);
        assert forall|i: int| 0 <= i < all.len() implies is_repo(#[trigger] all[i]) by {
            if i < before.len() {
                assert(all[i] == before[i]);
            }
        }
        assert forall|i: int, j: int| 0 <= i < j < all.len() implies (#[trigger] all[i]).path != (
        #[trigger] all[j]).path by {
            assert(all[i] == before[i]);
            if j < before.len() {
                assert(all[j] == before[j]);
            } else {
                assert(!has_path(before, dirs.last().path));
            }
        }
    }
}

/// The packages to install from one repository.
#[derive(Debug, Clone, PartialEq, Eq)]
pub struct RepoInstall {
    pub repo: String,
    pub pkgs: Vec<String>,
}

/// One repository's share of an installation, as a mathematical value.
pub struct RepoInstallView {
    pub repo: Seq<char>,
    pub pkgs: Seq<Seq<char>>,
}

impl View for RepoInstall {
    type V = RepoInstallView;

    open spec fn view(&self) -> RepoInstallView {
        RepoInstallView { repo: self.repo@, pkgs: strs(self.pkgs@) }
    }
}

/// The shares that a vector holds, in order.
pub open spec fn installs_view(v: Seq<RepoInstall>) -> Seq<RepoInstallView> {
    Seq::new(v.len(), |i: int| v[i]@)
}

/// The packages among `pkgs`, in order, whose artifact the repository at
/// position `r` of `pool` is the first to hold.
pub open spec fn packages_of(pool: Seq<DirListingView>, pkgs: Seq<Seq<char>>, r: int) -> Seq<
    Seq<char>,
>
    decreases pkgs.len(),
{
    if pkgs.len() == 0 {
        Seq::empty()
    } else {
        let before = packages_of(pool, pkgs.drop_last(), r);
        if first_holder(pool, pkgs.last()) == Some(r) {
            before.push(pkgs.last())
        } else {
            before
        }
    }
}

/// The packages among `pkgs`, in order, whose artifact no repository of
/// `pool` holds.
pub open spec fn unresolved(pool: Seq<DirListingView>, pkgs: Seq<Seq<char>>) -> Seq<Seq<char>>
    decreases pkgs.len(),
{
    if pkgs.len() == 0 {
        Seq::empty()
    } else {
        let before = unresolved(pool, pkgs.drop_last());
        if first_holder(pool, pkgs.last()) is None {
            before.push(pkgs.last())
        } else {
            before
        }
    }
}

/// The shares of the first `n` repositories of `pool`, in their order; a
/// repository without a package has no share.
pub open spec fn installs_upto(pool: Seq<DirListingView>, pkgs: Seq<Seq<char>>, n: nat) -> Seq<
    RepoInstallView,
>
    decreases n,
{
    if n == 0 {
        Seq::empty()
    } else {
        let before = installs_upto(pool, pkgs, (n - 1) as nat);
        let group = packages_of(pool, pkgs, n - 1);
        if group.len() > 0 {
            before.push(RepoInstallView { repo: pool[n - 1].path, pkgs: group })
        } else {
            before
        }
    }
}

/// `items` in a row, with `sep` between each two.
pub open spec fn joined(items: Seq<Seq<char>>, sep: Seq<char>) -> Seq<char>
    decreases items.len(),
{
    if items.len() == 0 {
        Seq::empty()
    } else if items.len() == 1 {
        items[0]
    } else {
        joined(items.drop_last(), sep) + sep + items.last()
    }
}

/// How to install `pkgs` from `pool`: each package from the first repository
/// that holds its artifact, the repositories in their order. Where a package
/// has no such repository, nothing is installed and all such packages are
/// named.
pub open spec fn install_plan(pool: Seq<DirListingView>, pkgs: Seq<Seq<char>>) -> Result<
    Seq<RepoInstallView>,
    VxErrorView,
> {
    if unresolved(pool, pkgs).len() > 0 {
        Err(
            VxErrorView {
                kind: ErrorKind::NotFound,
                message: "package(s) not found in local repository pool: "@ + joined(
                    unresolved(pool, pkgs),
                    ", "@,
                ),
            },
        )
    } else {
        Ok(installs_upto(pool, pkgs, pool.len()))
    }
}

/// `items` in a row, with `sep` between each two.
pub fn join_with(items: &Vec<String>, sep: &str) -> (r: String)
    ensures
        r@ == joined(strs(items@), sep@),
{
    let mut r = String::new();
    let ghost all = strs(items@);
    let mut i: usize = 0;
    assert(all.take(0) =~= Seq::<Seq<char>>::empty());
    while i < items.len()
        invariant
            i <= items.len(),
            all == strs(items@),
            r@ == joined(all.take(i as int), sep@),
        decreases items.len() - i,
    {
        proof {
            assert(all.take(i + 1).last() == items@[i as int]@);
            assert(all.take(i + 1).drop_last() =~= all.take(i as int));
        }
        if i > 0 {
            r.append(sep);
            r.append(items[i].as_str());
        } else {
            r.append(items[i].as_str());
            assert(Seq::<char>::empty() + items@[0]@ =~= items@[0]@);
            assert(all.take(1)[0] == items@[0]@);
        }
        i += 1;
    }
    assert(all.take(items.len() as int) =~= all);
    r
}

/// Decides from which repository each package is installed.
pub fn plan_local_install(pool: &Vec<DirListing>, pkgs: &Vec<String>) -> (r: Result<
    Vec<RepoInstall>,
    VxError,
>)
    ensures
        match r {
            Ok(plan) => install_plan(listings_view(pool@), strs(pkgs@)) == Ok::<_, VxErrorView>(
                installs_view(plan@),
            ),
            Err(e) => install_plan(listings_view(pool@), strs(pkgs@)) == Err::<
                Seq<RepoInstallView>,
                _,
            >(e@),
        },
{
    let ghost repos = listings_view(pool@);
    let ghost all = strs(pkgs@);
    let mut holders: Vec<Option<usize>> = Vec::new();
    let mut missing: Vec<String> = Vec::new();
    let mut k: usize = 0;
    assert(all.take(0) =~= Seq::<Seq<char>>::empty());
    assert(strs(missing@) =~= Seq::<Seq<char>>::empty());
    while k < pkgs.len()
        invariant
            k <= pkgs.len(),
            repos == listings_view(pool@),
            all == strs(pkgs@),
            holders.len() == k,
            forall|j: int|
                0 <= j < k ==> match #[trigger] holders@[j] {
                    Some(i) => first_holder(repos, all[j]) == Some(i as int),
                    None => first_holder(repos, all[j]) is None,
                },
            strs(missing@) == unresolved(repos, all.take(k as int)),
        decreases pkgs.len() - k,
    {
        proof {
            assert(all.take(k + 1).last() == pkgs@[k as int]@);
            assert(all.take(k + 1).drop_last() =~= all.take(k as int));
        }
        let h = holder_index(pool, pkgs[k].as_str());
        if h.is_none() {
            let ghost before = missing@;
            missing.push(pkgs[k].clone());
            assert(strs(missing@) =~= strs(before).push(pkgs@[k as int]@));
        }
        holders.push(h);
        k += 1;
    }
    assert(all.take(pkgs.len() as int) =~= all);
    if missing.len() > 0 {
        let names = join_with(&missing, ", ");
        return Err(
            VxError::new(
                ErrorKind::NotFound,
                join2("package(s) not found in local repository pool: ", names.as_str()),
            ),
        );
    }
    let mut plan: Vec<RepoInstall> = Vec::new();
    let mut r: usize = 0;
    assert(installs_view(plan@) =~= Seq::<RepoInstallView>::empty());
    while r < pool.len()
        invariant
            r <= pool.len(),
            repos == listings_view(pool@),
            all == strs(pkgs@),
            holders.len() == pkgs.len(),
            forall|j: int|
                0 <= j < pkgs.len() ==> match #[trigger] holders@[j] {
                    Some(i) => first_holder(repos, all[j]) == Some(i as int),
                    None => first_holder(repos, all[j]) is None,
                },
            installs_view(plan@) == installs_upto(repos, all, r as nat),
        decreases pool.len() - r,
    {
        let mut group: Vec<String> = Vec::new();
        let mut j: usize = 0;
        assert(all.take(0) =~= Seq::<Seq<char>>::empty());
        assert(strs(group@) =~= Seq::<Seq<char>>::empty());
        while j < pkgs.len()
            invariant
                j <= pkgs.len(),
                r < pool.len(),
                repos == listings_view(pool@),
                all == strs(pkgs@),
                holders.len() == pkgs.len(),
                forall|j: int|
                    0 <= j < pkgs.len() ==> match #[trigger] holders@[j] {
                        Some(i) => first_holder(repos, all[j]) == Some(i as int),
                        None => first_holder(repos, all[j]) is None,
                    },
                strs(group@) == packages_of(repos, all.take(j as int), r as int),
            decreases pkgs.len() - j,
        {
            proof {
                assert(all.take(j + 1).last() == pkgs@[j as int]@);
                assert(all.take(j + 1).drop_last() =~= all.take(j as int));
                assert(all[j as int] == pkgs@[j as int]@);
            }
            let here = match holders[j] {
                Some(i) => i == r,
                None => false,
            };
            if here {
                let ghost before = group@;
                group.push(pkgs[j].clone());
                assert(strs(group@) =~= strs(before).push(pkgs@[j as int]@));
            }
            j += 1;
        }
        assert(all.take(pkgs.len() as int) =~= all);
        if group.len() > 0 {
            let ghost before = plan@;
            let share = RepoInstall { repo: pool[r].path.clone(), pkgs: group };
            plan.push(share);
            assert(installs_view(plan@) =~= installs_view(before).push(share@));
        }
        r += 1;
    }
    Ok(plan)
}

/// Where the local repositories of a checkout lie.
pub open spec fn base_path(res: SrcResolvedView) -> Seq<char> {
    res.voidpkgs + "/"@ + res.local_repo_rel
}

/// Whether the package at position `k` of a request is known to be
/// installed.
pub open spec fn is_installed_at(installed: Seq<bool>, k: int) -> bool {
    0 <= k < installed.len() && installed[k]
}

/// The packages of a request that are to be installed, in order: all of them
/// where the installation is forced, else those that are not installed.
pub open spec fn wanted(pkgs: Seq<Seq<char>>, installed: Seq<bool>, force: bool) -> Seq<Seq<char>>
    decreases pkgs.len(),
{
    if pkgs.len() == 0 {
        Seq::empty()
    } else {
        let before = wanted(pkgs.drop_last(), installed, force);
        if force || !is_installed_at(installed, pkgs.len() - 1) {
            before.push(pkgs.last())
        } else {
            before
        }
    }
}

/// The warnings for the packages of a request that are left out because
/// they are installed, in order.
pub open spec fn installed_warnings(pkgs: Seq<Seq<char>>, installed: Seq<bool>, force: bool) -> Seq<
    Seq<char>,
>
    decreases pkgs.len(),
{
    if pkgs.len() == 0 {
        Seq::empty()
    } else {
        let before = installed_warnings(pkgs.drop_last(), installed, force);
        if force || !is_installed_at(installed, pkgs.len() - 1) {
            before
        } else {
            before.push("package '"@ + pkgs.last() + "' already installed."@)
        }
    }
}

/// What installing `pkgs` from the local repositories comes to.
///
/// An empty request is refused, and so is a checkout without local
/// repositories. Where nothing is left to install, nothing is done. Otherwise
/// the repositories are discovered, and each package is installed from the
/// first of them that holds its artifact.
pub open spec fn local_install(
    res: SrcResolvedView,
    tree: Option<RepoTreeView>,
    force: bool,
    pkgs: Seq<Seq<char>>,
    installed: Seq<bool>,
) -> Result<Seq<RepoInstallView>, VxErrorView> {
    if pkgs.len() == 0 {
        Err(usage("usage: vx src add <pkg> [pkg...]"@))
    } else if tree is None {
        Err(
            VxErrorView {
                kind: ErrorKind::NotFound,
                message: "local repo not found at "@ + base_path(res)
                    + " (build packages first)"@,
            },
        )
    } else if wanted(pkgs, installed, force).len() == 0 {
        Ok(Seq::empty())
    } else if !tree->0.base.is_dir {
        Err(
            VxErrorView {
                kind: ErrorKind::Configuration,
                message: unreadable_base_message(tree->0.base.path),
            },
        )
    } else if discovered(tree->0, res.use_nonfree).len() == 0 {
        Err(
            VxErrorView {
                kind: ErrorKind::NotFound,
                message: "no usable local repositories found under "@ + base_path(res)
                    + " (missing *-repodata?)"@,
            },
        )
    } else {
        install_plan(discovered(tree->0, res.use_nonfree), wanted(pkgs, installed, force))
    }
}

/// The packages of a request that are to be installed, and a warning for
/// each that is left out because it is installed.
pub fn select_wanted(pkgs: &Vec<String>, installed: &Vec<bool>, force: bool) -> (r: (
    Vec<String>,
    Vec<String>,
))
    ensures
        strs(r.0@) == wanted(strs(pkgs@), installed@, force),
        strs(r.1@) == installed_warnings(strs(pkgs@), installed@, force),
{
    let ghost all = strs(pkgs@);
    let mut keep: Vec<String> = Vec::new();
    let mut warnings: Vec<String> = Vec::new();
    let mut k: usize = 0;
    assert(all.take(0) =~= Seq::<Seq<char>>::empty());
    assert(strs(keep@) =~= Seq::<Seq<char>>::empty());
    assert(strs(warnings@) =~= Seq::<Seq<char>>::empty());
    while k < pkgs.len()
        invariant
            k <= pkgs.len(),
            all == strs(pkgs@),
            strs(keep@) == wanted(all.take(k as int), installed@, force),
            strs(warnings@) == installed_warnings(all.take(k as int), installed@, force),
        decreases pkgs.len() - k,
    {
        proof {
            assert(all.take(k + 1).last() == pkgs@[k as int]@);
            assert(all.take(k + 1).drop_last() =~= all.take(k as int));
        }
        if force || !(k < installed.len() && installed[k]) {
            let ghost before = keep@;
            keep.push(pkgs[k].clone());
            assert(strs(keep@) =~= strs(before).push(pkgs@[k as int]@));
        } else {
            let ghost before = warnings@;
            let w = join3("package '", pkgs[k].as_str(), "' already installed.");
            warnings.push(w);
            assert(strs(warnings@) =~= strs(before).push(w@));
        }
        k += 1;
    }
    assert(all.take(pkgs.len() as int) =~= all);
    (keep, warnings)
}

/// Decides what installing `pkgs` from the local repositories of a checkout
/// comes to. `tree` is what was found at the base of the repositories, if
/// anything is there; `installed` says of each package whether it is
/// installed.
pub fn add_from_local_repo(
    res: &SrcResolved,
    tree: Option<&RepoTree>,
    force: bool,
    pkgs: &Vec<String>,
    installed: &Vec<bool>,
) -> (r: Result<Vec<RepoInstall>, VxError>)
    ensures
        match r {
            Ok(plan) => local_install(
                res@,
                match tree {
                    Some(t) => Some(t@),
                    None => None,
                },
                force,
                strs(pkgs@),
                installed@,
            ) == Ok::<_, VxErrorView>(installs_view(plan@)),
            Err(e) => local_install(
                res@,
                match tree {
                    Some(t) => Some(t@),
                    None => None,
                },
                force,
                strs(pkgs@),
                installed@,
            ) == Err::<Seq<RepoInstallView>, _>(e@),
        },
{
    if pkgs.len() == 0 {
        return Err(usage_error("usage: vx src add <pkg> [pkg...]"));
    }
    let base = join3(res.voidpkgs.as_str(), "/", res.local_repo_rel.as_str());
    let tree = match tree {
        Some(t) => t,
        None => {
            return Err(
                VxError::new(
                    ErrorKind::NotFound,
                    join3("local repo not found at ", base.as_str(), " (build packages first)"),
                ),
            );
        },
    };
    let (to_install, _) = select_wanted(pkgs, installed, force);
    if to_install.len() == 0 {
        let none: Vec<RepoInstall> = Vec::new();
        assert(installs_view(none@) =~= Seq::<RepoInstallView>::empty());
        return Ok(none);
    }
    let pool = match discover_local_repo_dirs(tree, res.use_nonfree) {
        Ok(pool) => pool,
        Err(e) => {
            return Err(e);
        },
    };
    if pool.len() == 0 {
        return Err(
            VxError::new(
                ErrorKind::NotFound,
                join3(
                    "no usable local repositories found under ",
                    base.as_str(),
                    " (missing *-repodata?)",
                ),
            ),
        );
    }
    plan_local_install(&pool, &to_install)
}

/// The words of the command that installs one repository's share.
pub open spec fn install_words(share: RepoInstallView, force: bool, yes: bool) -> Seq<Seq<char>> {
    seq!["sudo"@, "xbps-install"@, "-R"@, share.repo] + (if force {
        seq!["-f"@]
    } else {
        Seq::empty()
    }) + (if yes {
        seq!["-y"@]
    } else {
        Seq::empty()
    }) + share.pkgs
}

/// The command that installs one repository's share: the package manager
/// with this repository alone, `-f` where forced, `-y` where confirmed, and
/// the packages.
pub fn install_command(share: &RepoInstall, force: bool, yes: bool) -> (words: Vec<String>)
    ensures
        strs(words@) == install_words(share@, force, yes),
{
    let mut words: Vec<String> = Vec::new();
    words.push("sudo".to_owned());
    words.push("xbps-install".to_owned());
    words.push("-R".to_owned());
    words.push(share.repo.clone());
    if force {
        words.push("-f".to_owned());
    }
    if yes {
        words.push("-y".to_owned());
    }
    let ghost head = strs(words@);
    assert(head =~= seq!["sudo"@, "xbps-install"@, "-R"@, share@.repo] + (if force {
        seq!["-f"@]
    } else {
        Seq::empty()
    }) + (if yes {
        seq!["-y"@]
    } else {
        Seq::empty()
    }));
    let mut i: usize = 0;
    assert(head + share@.pkgs.take(0) =~= head);
    while i < share.pkgs.len()
        invariant
            i <= share.pkgs.len(),
            strs(words@) == head + share@.pkgs.take(i as int),
        decreases share.pkgs.len() - i,
    {
        let ghost before = words@;
        words.push(share.pkgs[i].clone());
        assert(strs(words@) =~= strs(before).push(share.pkgs@[i as int]@));
        assert(head + share@.pkgs.take(i + 1) =~= (head + share@.pkgs.take(i as int)).push(
            share.pkgs@[i as int]@,
        ));
        i += 1;
    }
    assert(share@.pkgs.take(share.pkgs.len() as int) =~= share@.pkgs);
    words
}

} // verus!
