//! Planning the updates of source packages: reading the version and revision
//! of a package definition, and comparing the candidate that they give with
//! what is installed.

use crate::error::{ErrorKind, VxError, VxErrorView};
use crate::source::resolve::SrcResolved;
use crate::text::{
    from_chars, has_prefix, join2, join3, join4, lines, seqs, slice, split_lines, starts_with, strs,
    to_chars, trim, trimmed,
};
use crate::xbps::query::InstalledIndex;
use vstd::prelude::*;

verus! {

/// A value without the whitespace around it and, where it stands between two
/// double or two single quotes, without those quotes.
pub open spec fn unquoted(s: Seq<char>) -> Seq<char> {
    let t = trim(s);
    if t.len() >= 2 && ((t[0] == '"' && t.last() == '"') || (t[0] == '\'' && t.last() == '\'')) {
        t.subrange(1, t.len() - 1)
    } else {
        t
    }
}

/// What one line of a package definition assigns.
pub enum TemplateLine {
    /// `version=` and its value.
    Version(Seq<char>),
    /// `revision=` and its value.
    Revision(Seq<char>),
    /// A blank line, a comment, or anything else.
    Other,
}

/// What the line `raw` assigns.
pub open spec fn template_line(raw: Seq<char>) -> TemplateLine {
    let line = trim(raw);
    if line.len() == 0 || line[0] == '#' {
        TemplateLine::Other
    } else if has_prefix(line, "version="@) {
        TemplateLine::Version(unquoted(line.skip("version="@.len() as int)))
    } else if has_prefix(line, "revision="@) {
        TemplateLine::Revision(unquoted(line.skip("revision="@.len() as int)))
    } else {
        TemplateLine::Other
    }
}

/// The version and the revision known after `lines`, given what was known
/// before them. Reading stops once both are known; until then a later
/// assignment replaces an earlier one.
pub open spec fn scan_template(
    lines: Seq<Seq<char>>,
    version: Option<Seq<char>>,
    revision: Option<Seq<char>>,
) -> (Option<Seq<char>>, Option<Seq<char>>)
    decreases lines.len(),
{
    if lines.len() == 0 || (version is Some && revision is Some) {
        (version, revision)
    } else {
        match template_line(lines[0]) {
            TemplateLine::Version(v) => scan_template(lines.drop_first(), Some(v), revision),
            TemplateLine::Revision(r) => scan_template(lines.drop_first(), version, Some(r)),
            TemplateLine::Other => scan_template(lines.drop_first(), version, revision),
        }
    }
}

/// The revision of a definition that assigns none.
pub open spec fn default_revision() -> Seq<char> {
    "1"@
}

/// The version and revision that the text of a package definition gives, or
/// `None` where it assigns no version.
pub open spec fn template_version(text: Seq<char>) -> Option<(Seq<char>, Seq<char>)> {
    let (version, revision) = scan_template(split_lines(text), None, None);
    match version {
        Some(v) => Some(
            (
                v,
                match revision {
                    Some(r) => r,
                    None => default_revision(),
                },
            ),
        ),
        None => None,
    }
}

/// The text of the failure that a definition without a version gives.
pub open spec fn missing_version_message() -> Seq<char> {
    "template missing version="@
}

/// `s` trimmed and without the quotes around it, as characters.
pub fn unquote_chars(s: &Vec<char>) -> (r: Vec<char>)
    ensures
        r@ == unquoted(s@),
{
    let t = trimmed(s);
    let n = t.len();
    if n >= 2 && ((t[0] == '"' && t[n - 1] == '"') || (t[0] == '\'' && t[n - 1] == '\'')) {
        slice(&t, 1, n - 1)
    } else {
        t
    }
}

/// `s` trimmed and without the quotes around it.
pub fn unquote(s: &str) -> (r: String)
    ensures
        r@ == unquoted(s@),
{
    let chars = to_chars(s);
    let value = unquote_chars(&chars);
    from_chars(&value)
}

/// The value that follows the prefix `key` in `line`.
fn value_after(line: &Vec<char>, key: &Vec<char>) -> (r: Vec<char>)
    requires
        has_prefix(line@, key@),
    ensures
        r@ == unquoted(line@.skip(key@.len() as int)),
{
    let rest = slice(line, key.len(), line.len());
    unquote_chars(&rest)
}

/// Reads the version and the revision out of the text of a package
/// definition. Blank lines and comments are passed over, a missing revision
/// is `1`, and a text that assigns no version is refused.
pub fn parse_template_version_revision_str(text: &str) -> (r: Result<(String, String), VxError>)
    ensures
        match r {
            Ok((version, revision)) => template_version(text@) == Some((version@, revision@)),
            Err(e) => template_version(text@) is None && e@ == (VxErrorView {
                kind: ErrorKind::Parse,
                message: missing_version_message(),
            }),
        },
{
    let chars = to_chars(text);
    let ls = lines(&chars);
    let version_key = to_chars("version=");
    let revision_key = to_chars("revision=");
    let mut version: Option<Vec<char>> = None;
    let mut revision: Option<Vec<char>> = None;
    let ghost all = seqs(ls@);
    let mut i: usize = 0;
    assert(all.skip(0) =~= all);
    while i < ls.len() && !(version.is_some() && revision.is_some())
        invariant
            i <= ls.len(),
            all == seqs(ls@),
            version_key@ == "version="@,
            revision_key@ == "revision="@,
            scan_template(all, None, None) == scan_template(
                all.skip(i as int),
                match version {
                    Some(v) => Some(v@),
                    None => None,
                },
                match revision {
                    Some(r) => Some(r@),
                    None => None,
                },
            ),
        decreases ls.len() - i,
    {
        proof {
            assert(all.skip(i as int)[0] == ls@[i as int]@);
            assert(all.skip(i as int).drop_first() =~= all.skip(i + 1));
        }
        let line = trimmed(&ls[i]);
        if line.len() == 0 || line[0] == '#' {
        } else if starts_with(&line, &version_key) {
            version = Some(value_after(&line, &version_key));
        } else if starts_with(&line, &revision_key) {
            revision = Some(value_after(&line, &revision_key));
        }
        i += 1;
    }
    match version {
        Some(v) => {
            let revision = match revision {
                Some(r) => from_chars(&r),
                None => "1".to_owned(),
            };
            Ok((from_chars(&v), revision))
        },
        None => Err(VxError::new(ErrorKind::Parse, "template missing version=".to_owned())),
    }
}

/// One source package that an update would rebuild.
#[derive(Debug, Clone, PartialEq, Eq)]
pub struct SrcUpdate {
    pub name: String,
    /// The full `pkgver` that is installed, if the package is installed.
    pub installed: Option<String>,
    /// The full `pkgver` that a build would give.
    pub candidate: String,
}

/// A source update candidate as a mathematical value.
pub struct SrcUpdateView {
    pub name: Seq<char>,
    pub installed: Option<Seq<char>>,
    pub candidate: Seq<char>,
}

impl View for SrcUpdate {
    type V = SrcUpdateView;

    open spec fn view(&self) -> SrcUpdateView {
        SrcUpdateView {
            name: self.name@,
            installed: match self.installed {
                Some(v) => Some(v@),
                None => None,
            },
            candidate: self.candidate@,
        }
    }
}

/// The candidates that a vector of source updates holds, in order.
pub open spec fn src_updates_view(v: Seq<SrcUpdate>) -> Seq<SrcUpdateView> {
    Seq::new(v.len(), |i: int| v[i]@)
}

/// What reading a package definition from the checkout gave.
#[derive(Debug, Clone)]
pub enum TemplateRead {
    /// There is no such file.
    Missing,
    /// The file could not be read, and why.
    Unreadable(String),
    /// The text of the file.
    Text(String),
}

/// What a read gave, as a mathematical value.
pub enum TemplateReadView {
    Missing,
    Unreadable(Seq<char>),
    Text(Seq<char>),
}

impl View for TemplateRead {
    type V = TemplateReadView;

    open spec fn view(&self) -> TemplateReadView {
        match self {
            TemplateRead::Missing => TemplateReadView::Missing,
            TemplateRead::Unreadable(why) => TemplateReadView::Unreadable(why@),
            TemplateRead::Text(text) => TemplateReadView::Text(text@),
        }
    }
}

/// A requested package and what was read of its definitions.
#[derive(Debug, Clone)]
pub struct SrcTemplates {
    pub name: String,
    /// The text of the definition at the upstream reference, where upstream
    /// has the package and it was asked for.
    pub upstream: Option<String>,
    /// The definition in the checkout.
    pub local: TemplateRead,
}

/// A requested package as a mathematical value.
pub struct SrcTemplatesView {
    pub name: Seq<char>,
    pub upstream: Option<Seq<char>>,
    pub local: TemplateReadView,
}

impl View for SrcTemplates {
    type V = SrcTemplatesView;

    open spec fn view(&self) -> SrcTemplatesView {
        SrcTemplatesView {
            name: self.name@,
            upstream: match self.upstream {
                Some(t) => Some(t@),
                None => None,
            },
            local: self.local@,
        }
    }
}

/// The requests that a vector holds, in order.
pub open spec fn templates_view(v: Seq<SrcTemplates>) -> Seq<SrcTemplatesView> {
    Seq::new(v.len(), |i: int| v[i]@)
}

/// A plan for source packages: the candidates, in the order of the request,
/// and a warning for each package that was passed over.
#[derive(Debug, Clone)]
pub struct SrcPlan {
    pub updates: Vec<SrcUpdate>,
    pub warnings: Vec<String>,
}

/// Where the definition of package `name` lies in the checkout at `root`.
pub open spec fn local_template_path(root: Seq<char>, name: Seq<char>) -> Seq<char> {
    root + "/srcpkgs/"@ + name + "/template"@
}

/// The `pkgver` that building `name` at `version` and `revision` gives.
pub open spec fn candidate_of(name: Seq<char>, version: Seq<char>, revision: Seq<char>) -> Seq<
    char,
> {
    name + "-"@ + version + "_"@ + revision
}

/// The version and revision of the definition that was read from the file
/// at `path`: those of its text; a file that is missing or cannot be read is
/// not found, and the failure names the file.
pub open spec fn file_version(path: Seq<char>, read: TemplateReadView) -> Result<
    (Seq<char>, Seq<char>),
    VxErrorView,
> {
    match read {
        TemplateReadView::Text(text) => match template_version(text) {
            Some(v) => Ok(v),
            None => Err(VxErrorView { kind: ErrorKind::Parse, message: missing_version_message() }),
        },
        TemplateReadView::Unreadable(why) => Err(
            VxErrorView {
                kind: ErrorKind::NotFound,
                message: "failed to read template "@ + path + ": "@ + why,
            },
        ),
        TemplateReadView::Missing => Err(
            VxErrorView {
                kind: ErrorKind::NotFound,
                message: "failed to read template "@ + path + ": "@ + "no such file"@,
            },
        ),
    }
}

/// The version and revision of the definition in the checkout, or why it
/// gives none.
pub open spec fn local_version(root: Seq<char>, t: SrcTemplatesView) -> Result<
    (Seq<char>, Seq<char>),
    Seq<char>,
> {
    match file_version(local_template_path(root, t.name), t.local) {
        Ok(v) => Ok(v),
        Err(e) => Err(e.message),
    }
}

/// The version and revision to plan with, or the warning with which the
/// package is passed over.
///
/// Local planning reads the checkout alone. Remote planning takes the
/// upstream definition where there is one; a package that upstream lacks
/// falls back to the checkout without a word.
pub open spec fn resolved_version(root: Seq<char>, t: SrcTemplatesView, remote: bool) -> Result<
    (Seq<char>, Seq<char>),
    Seq<char>,
> {
    if remote {
        match t.upstream {
            Some(text) => match template_version(text) {
                Some(v) => Ok(v),
                None => Err(
                    t.name + ": upstream template parse failed: "@ + missing_version_message(),
                ),
            },
            None => match t.local {
                TemplateReadView::Missing => Err(
                    t.name + ": not found in upstream/master and no local template at "@
                        + local_template_path(root, t.name),
                ),
                _ => match local_version(root, t) {
                    Ok(v) => Ok(v),
                    Err(why) => Err(t.name + ": "@ + why),
                },
            },
        }
    } else {
        match local_version(root, t) {
            Ok(v) => Ok(v),
            Err(why) => Err(
                t.name + ": "@ + why
                    + " (local planning; update your checkout or use --remote)"@,
            ),
        }
    }
}

/// The candidate that one requested package gives: none where it is passed
/// over, and none where what is installed is the candidate already, unless
/// the plan is forced.
pub open spec fn plan_entry(
    root: Seq<char>,
    t: SrcTemplatesView,
    installed: Map<Seq<char>, Seq<char>>,
    force: bool,
    remote: bool,
) -> Option<SrcUpdateView> {
    match resolved_version(root, t, remote) {
        Ok((version, revision)) => {
            let candidate = candidate_of(t.name, version, revision);
            let current = if installed.contains_key(t.name) {
                Some(installed[t.name])
            } else {
                None
            };
            if !force && current == Some(candidate) {
                None
            } else {
                Some(SrcUpdateView { name: t.name, installed: current, candidate })
            }
        },
        Err(_) => None,
    }
}

/// The candidates of a request, in its order.
pub open spec fn plan_entries(
    root: Seq<char>,
    pkgs: Seq<SrcTemplatesView>,
    installed: Map<Seq<char>, Seq<char>>,
    force: bool,
    remote: bool,
) -> Seq<SrcUpdateView>
    decreases pkgs.len(),
{
    if pkgs.len() == 0 {
        Seq::empty()
    } else {
        let before = plan_entries(root, pkgs.drop_last(), installed, force, remote);
        match plan_entry(root, pkgs.last(), installed, force, remote) {
            Some(e) => before.push(e),
            None => before,
        }
    }
}

/// The warnings of a request, in its order.
pub open spec fn plan_warnings(root: Seq<char>, pkgs: Seq<SrcTemplatesView>, remote: bool) -> Seq<
    Seq<char>,
>
    decreases pkgs.len(),
{
    if pkgs.len() == 0 {
        Seq::empty()
    } else {
        let before = plan_warnings(root, pkgs.drop_last(), remote);
        match resolved_version(root, pkgs.last(), remote) {
            Ok(_) => before,
            Err(w) => before.push(w),
        }
    }
}

/// Where the definition of package `name` lies in the checkout at `root`.
pub fn template_path(root: &str, name: &str) -> (p: String)
    ensures
        p@ == local_template_path(root@, name@),
{
    join4(root, "/srcpkgs/", name, "/template")
}

/// Reads the version and the revision out of a package definition that was
/// read from the file at `path`.
pub fn parse_template_version_revision_file(path: &str, read: &TemplateRead) -> (r: Result<
    (String, String),
    VxError,
>)
    ensures
        match r {
            Ok((v, rev)) => file_version(path@, read@) == Ok::<_, VxErrorView>((v@, rev@)),
            Err(e) => file_version(path@, read@) == Err::<(Seq<char>, Seq<char>), _>(e@),
        },
{
    match read {
        TemplateRead::Text(text) => parse_template_version_revision_str(text.as_str()),
        TemplateRead::Unreadable(why) => Err(
            VxError::new(
                ErrorKind::NotFound,
                join4("failed to read template ", path, ": ", why.as_str()),
            ),
        ),
        TemplateRead::Missing => Err(
            VxError::new(
                ErrorKind::NotFound,
                join4("failed to read template ", path, ": ", "no such file"),
            ),
        ),
    }
}

/// The version and revision of the definition in the checkout, or why it
/// gives none.
fn read_local(root: &str, t: &SrcTemplates) -> (r: Result<(String, String), String>)
    ensures
        match r {
            Ok((v, rev)) => local_version(root@, t@) == Ok::<_, Seq<char>>((v@, rev@)),
            Err(why) => local_version(root@, t@) == Err::<(Seq<char>, Seq<char>), _>(why@),
        },
{
    let path = template_path(root, t.name.as_str());
    match parse_template_version_revision_file(path.as_str(), &t.local) {
        Ok(v) => Ok(v),
        Err(e) => Err(e.message),
    }
}

/// The version and revision to plan one package with, or the warning with
/// which it is passed over.
pub fn resolve_version(root: &str, t: &SrcTemplates, remote: bool) -> (r: Result<
    (String, String),
    String,
>)
    ensures
        match r {
            Ok((v, rev)) => resolved_version(root@, t@, remote) == Ok::<_, Seq<char>>((v@, rev@)),
            Err(w) => resolved_version(root@, t@, remote) == Err::<(Seq<char>, Seq<char>), _>(w@),
        },
{
    let name = t.name.as_str();
    if remote {
        match &t.upstream {
            Some(text) => match parse_template_version_revision_str(text.as_str()) {
                Ok(v) => Ok(v),
                Err(e) => Err(
                    join3(name, ": upstream template parse failed: ", e.message.as_str()),
                ),
            },
            None => match &t.local {
                TemplateRead::Missing => {
                    let path = template_path(root, name);
                    Err(
                        join3(
                            name,
                            ": not found in upstream/master and no local template at ",
                            path.as_str(),
                        ),
                    )
                },
                _ => match read_local(root, t) {
                    Ok(v) => Ok(v),
                    Err(why) => Err(join3(name, ": ", why.as_str())),
                },
            },
        }
    } else {
        match read_local(root, t) {
            Ok(v) => Ok(v),
            Err(why) => Err(
                join4(
                    name,
                    ": ",
                    why.as_str(),
                    " (local planning; update your checkout or use --remote)",
                ),
            ),
        }
    }
}

/// Plans the update of the requested source packages.
///
/// Each package is planned with the version and revision of its definition
/// and compared with what is installed. A package whose definition cannot be
/// used is passed over with a warning. Unless `force` is set, a package whose
/// installed `pkgver` is the candidate is left out. The candidates keep the
/// order of the request.
pub fn plan_src_updates_with_resolved(
    res: &SrcResolved,
    pkgs: &Vec<SrcTemplates>,
    installed: &InstalledIndex,
    force: bool,
    remote: bool,
) -> (plan: SrcPlan)
    ensures
        src_updates_view(plan.updates@) == plan_entries(
            res@.voidpkgs,
            templates_view(pkgs@),
            installed@,
            force,
            remote,
        ),
        strs(plan.warnings@) == plan_warnings(res@.voidpkgs, templates_view(pkgs@), remote),
{
    let root = res.voidpkgs.as_str();
    let ghost all = templates_view(pkgs@);
    let mut updates: Vec<SrcUpdate> = Vec::new();
    let mut warnings: Vec<String> = Vec::new();
    let mut i: usize = 0;
    assert(all.take(0) =~= Seq::<SrcTemplatesView>::empty());
    assert(src_updates_view(updates@) =~= Seq::<SrcUpdateView>::empty());
    assert(strs(warnings@) =~= Seq::<Seq<char>>::empty());
    while i < pkgs.len()
        invariant
            i <= pkgs.len(),
            all == templates_view(pkgs@),
            root@ == res@.voidpkgs,
            src_updates_view(updates@) == plan_entries(
                root@,
                all.take(i as int),
                installed@,
                force,
                remote,
            ),
            strs(warnings@) == plan_warnings(root@, all.take(i as int), remote),
        decreases pkgs.len() - i,
    {
        let t = &pkgs[i];
        proof {
            assert(all.take(i + 1).last() == t@);
            assert(all.take(i + 1).drop_last() =~= all.take(i as int));
        }
        match resolve_version(root, t, remote) {
            Ok((version, revision)) => {
                let candidate = join4(t.name.as_str(), "-", version.as_str(), "_");
                let candidate = join2(candidate.as_str(), revision.as_str());
                let current = installed.get(t.name.as_str());
                let up_to_date = match &current {
                    Some(v) => *v == candidate,
                    None => false,
                };
                if force || !up_to_date {
                    let u = SrcUpdate { name: t.name.clone(), installed: current, candidate };
                    let ghost before = updates@;
                    updates.push(u);
                    assert(src_updates_view(updates@) =~= src_updates_view(before).push(u@));
                }
            },
            Err(w) => {
                let ghost before = warnings@;
                warnings.push(w);
                assert(strs(warnings@) =~= strs(before).push(w@));
            },
        }
        i += 1;
    }
    assert(all.take(pkgs.len() as int) =~= all);
    SrcPlan { updates, warnings }
}

/// Plans the update of source packages: of the requested ones where a
/// request is made, else of the managed ones.
pub fn plan_src_updates(
    res: &SrcResolved,
    requested: Option<&Vec<SrcTemplates>>,
    managed: &Vec<SrcTemplates>,
    installed: &InstalledIndex,
    force: bool,
    remote: bool,
) -> (plan: SrcPlan)
    ensures
        src_updates_view(plan.updates@) == plan_entries(
            res@.voidpkgs,
            templates_view(
                match requested {
                    Some(pkgs) => pkgs@,
                    None => managed@,
                },
            ),
            installed@,
            force,
            remote,
        ),
        strs(plan.warnings@) == plan_warnings(
            res@.voidpkgs,
            templates_view(
                match requested {
                    Some(pkgs) => pkgs@,
                    None => managed@,
                },
            ),
            remote,
        ),
{
    let target = match requested {
        Some(pkgs) => pkgs,
        None => managed,
    };
    plan_src_updates_with_resolved(res, target, installed, force, remote)
}

/// Every candidate of a plan comes from a package of the request.
pub proof fn lemma_plan_entries_from_request(
    root: Seq<char>,
    pkgs: Seq<SrcTemplatesView>,
    installed: Map<Seq<char>, Seq<char>>,
    force: bool,
    remote: bool,
)
    ensures
        forall|i: int|
            0 <= i < plan_entries(root, pkgs, installed, force, remote).len() ==> exists|k: int|
                0 <= k < pkgs.len() && plan_entry(root, #[trigger] pkgs[k], installed, force, remote)
                    == Some(#[trigger] plan_entries(root, pkgs, installed, force, remote)[i]),
    decreases pkgs.len(),
{
    if pkgs.len() > 0 {
        let init = pkgs.drop_last();
        lemma_plan_entries_from_request(root, init, installed, force, remote);
        let before = plan_entries(root, init, installed, force, remote);
        let all = plan_entries(root, pkgs, installed, force, remote);
        assert forall|i: int| 0 <= i < all.len() implies exists|k: int|
            0 <= k < pkgs.len() && plan_entry(root, #[trigger] pkgs[k], installed, force, remote)
                == Some(#[trigger] all[i]) by {
            if i < before.len() {
                assert(all[i] == before[i]);
                let k = choose|k: int|
                    0 <= k < init.len() && plan_entry(
                        root,
                        #[trigger] init[k],
                        installed,
                        force,
                        remote,
                    ) == Some(before[i]);
                assert(pkgs[k] == init[k]);
            } else {
                assert(plan_entry(root, pkgs[pkgs.len() - 1], installed, force, remote) == Some(
                    all[i],
                ));
            }
        }
    }
}

/// A plan that is not forced holds no package whose installed `pkgver` is its
/// candidate.
pub proof fn lemma_unforced_plan_leaves_out_current(
    root: Seq<char>,
    pkgs: Seq<SrcTemplatesView>,
    installed: Map<Seq<char>, Seq<char>>,
    remote: bool,
)
    ensures
        forall|i: int|
            0 <= i < plan_entries(root, pkgs, installed, false, remote).len() ==> (
            #[trigger] plan_entries(root, pkgs, installed, false, remote)[i]).installed != Some(
                plan_entries(root, pkgs, installed, false, remote)[i].candidate,
            ),
{
    lemma_plan_entries_from_request(root, pkgs, installed, false, remote);
    let all = plan_entries(root, pkgs, installed, false, remote);
    assert forall|i: int| 0 <= i < all.len() implies (#[trigger] all[i]).installed != Some(
        all[i].candidate,
    ) by {
        let k = choose|k: int|
            0 <= k < pkgs.len() && plan_entry(root, #[trigger] pkgs[k], installed, false, remote)
                == Some(all[i]);
    }
}

/// A forced plan holds every package of the request whose definition gives a
/// version, with the candidate of that version and what is installed.
pub proof fn lemma_forced_plan_includes(
    root: Seq<char>,
    pkgs: Seq<SrcTemplatesView>,
    installed: Map<Seq<char>, Seq<char>>,
    remote: bool,
    k: int,
)
    requires
        0 <= k < pkgs.len(),
        resolved_version(root, pkgs[k], remote) is Ok,
    ensures
        plan_entries(root, pkgs, installed, true, remote).contains(
            SrcUpdateView {
                name: pkgs[k].name,
                installed: if installed.contains_key(pkgs[k].name) {
                    Some(installed[pkgs[k].name])
                } else {
                    None
                },
                candidate: candidate_of(
                    pkgs[k].name,
                    resolved_version(root, pkgs[k], remote)->Ok_0.0,
                    resolved_version(root, pkgs[k], remote)->Ok_0.1,
                ),
            },
        ),
    decreases pkgs.len(),
{
    let init = pkgs.drop_last();
    let before = plan_entries(root, init, installed, true, remote);
    let all = plan_entries(root, pkgs, installed, true, remote);
    let e = plan_entry(root, pkgs[k], installed, true, remote)->0;
    if k == pkgs.len() - 1 {
        assert(all == before.push(e));
        assert(all[all.len() - 1] == e);
    } else {
        assert(init[k] == pkgs[k]);
        lemma_forced_plan_includes(root, init, installed, remote, k);
        let i = choose|i: int| 0 <= i < before.len() && before[i] == e;
        assert(all[i] == e);
    }
}

/// Every candidate of a plan is a full `pkgver`: the name of its package, a
/// hyphen, a version, an underscore and a revision.
pub proof fn lemma_plan_candidates_are_pkgvers(
    root: Seq<char>,
    pkgs: Seq<SrcTemplatesView>,
    installed: Map<Seq<char>, Seq<char>>,
    force: bool,
    remote: bool,
)
    ensures
        forall|i: int|
            0 <= i < plan_entries(root, pkgs, installed, force, remote).len() ==> exists|
                version: Seq<char>,
                revision: Seq<char>,
            |
                (#[trigger] plan_entries(root, pkgs, installed, force, remote)[i]).candidate
                    == #[trigger] candidate_of(
                    plan_entries(root, pkgs, installed, force, remote)[i].name,
                    version,
                    revision,
                ),
{
    lemma_plan_entries_from_request(root, pkgs, installed, force, remote);
    let all = plan_entries(root, pkgs, installed, force, remote);
    assert forall|i: int| 0 <= i < all.len() implies exists|
        version: Seq<char>,
        revision: Seq<char>,
    |
        (#[trigger] all[i]).candidate == #[trigger] candidate_of(all[i].name, version, revision) by {
        let k = choose|k: int|
            0 <= k < pkgs.len() && plan_entry(root, #[trigger] pkgs[k], installed, force, remote)
                == Some(all[i]);
        let v = resolved_version(root, pkgs[k], remote)->Ok_0;
        assert(all[i].candidate == candidate_of(all[i].name, v.0, v.1));
    }
}

} // verus!
