//! The index of installed packages: from a package's name to the full
//! `pkgver` that is installed.

use crate::error::{ErrorKind, VxError, VxErrorView, usage, usage_error};
use crate::source::add::{join_with, joined};
use crate::tool::{ToolOutcome, ToolOutcomeView, check_outcome, succeeded, tool_failure};
use crate::text::{
    char_is_digit, from_chars, is_digit, join2, join4, last_of, lemma_last_of_at, lines, same, seqs,
    slice, split_lines, split_words, strs, to_chars, trim, trimmed, words,
};
use vstd::prelude::*;

verus! {

/// The position of the last hyphen of `s`, or -1 where it has none.
pub open spec fn last_hyphen(s: Seq<char>) -> int {
    last_of(s, '-')
}

/// The package name of a `pkgver`: what precedes its last hyphen, where a
/// digit follows that hyphen.
pub open spec fn pkgname(pkgver: Seq<char>) -> Option<Seq<char>> {
    let i = last_hyphen(pkgver);
    if 0 <= i && i + 1 < pkgver.len() && is_digit(pkgver[i + 1]) {
        Some(pkgver.take(i))
    } else {
        None
    }
}

/// A name, a hyphen and a version that begins with a digit and holds no
/// hyphen: the package name is the name, however many hyphens it holds.
pub proof fn lemma_pkgname_of_name_and_version(name: Seq<char>, version: Seq<char>)
    requires
        version.len() > 0,
        is_digit(version[0]),
        forall|k: int| 0 <= k < version.len() ==> #[trigger] version[k] != '-',
    ensures
        pkgname(name.push('-') + version) == Some(name),
{
    let s = name.push('-') + version;
    let i = name.len() as int;
    assert(s[i] == '-');
    assert forall|k: int| i < k < s.len() implies #[trigger] s[k] != '-' by {
        assert(s[k] == version[k - i - 1]);
    }
    lemma_last_of_at(s, '-', i);
    assert(s[i + 1] == version[0]);
    assert(s.take(i) =~= name);
}

/// The package name of `pkgver`, as characters.
pub fn pkgname_chars(pkgver: &Vec<char>) -> (r: Option<Vec<char>>)
    ensures
        match r {
            Some(name) => pkgname(pkgver@) == Some(name@),
            None => pkgname(pkgver@) is None,
        },
{
    let n = pkgver.len();
    let mut i: usize = n;
    while i > 0 && pkgver[i - 1] != '-'
        invariant
            i <= n,
            n == pkgver.len(),
            forall|k: int| i <= k < n ==> #[trigger] pkgver@[k] != '-',
        decreases i,
    {
        i -= 1;
    }
    proof {
        lemma_last_of_at(pkgver@, '-', i - 1);
    }
    if i > 0 && i < n && char_is_digit(pkgver[i]) {
        Some(slice(pkgver, 0, i - 1))
    } else {
        None
    }
}

/// The package name of a `pkgver` such as `foo-bar-1.2_1`: what precedes the
/// last hyphen, where a digit follows it.
pub fn pkgname_from_pkgver(pkgver: &str) -> (r: Option<String>)
    ensures
        match r {
            Some(name) => pkgname(pkgver@) == Some(name@),
            None => pkgname(pkgver@) is None,
        },
{
    let chars = to_chars(pkgver);
    match pkgname_chars(&chars) {
        Some(name) => Some(from_chars(&name)),
        None => None,
    }
}

/// One installed package.
pub struct InstalledEntry {
    pub name: String,
    pub pkgver: String,
}

/// The map that a list of entries stands for; a later entry replaces an
/// earlier one of the same name.
pub open spec fn entries_map(entries: Seq<InstalledEntry>) -> Map<Seq<char>, Seq<char>>
    decreases entries.len(),
{
    if entries.len() == 0 {
        Map::empty()
    } else {
        entries_map(entries.drop_last()).insert(entries.last().name@, entries.last().pkgver@)
    }
}

/// Installed packages by name.
pub struct InstalledIndex {
    entries: Vec<InstalledEntry>,
}

impl View for InstalledIndex {
    type V = Map<Seq<char>, Seq<char>>;

    closed spec fn view(&self) -> Map<Seq<char>, Seq<char>> {
        entries_map(self.entries@)
    }
}

impl InstalledIndex {
    /// The index of a system on which nothing is known to be installed.
    pub fn new() -> (index: InstalledIndex)
        ensures
            index@ == Map::<Seq<char>, Seq<char>>::empty(),
    {
        InstalledIndex { entries: Vec::new() }
    }

    /// Records that `pkgver` is the installed version of `name`.
    pub fn insert(&mut self, name: String, pkgver: String)
        ensures
            final(self)@ == old(self)@.insert(name@, pkgver@),
    {
        self.entries.push(InstalledEntry { name, pkgver });
        assert(self.entries@.drop_last() =~= old(self).entries@);
    }

    /// The installed `pkgver` of `name`, if any.
    pub fn get(&self, name: &str) -> (r: Option<String>)
        ensures
            match r {
                Some(v) => self@.contains_key(name@) && self@[name@] == v@,
                None => !self@.contains_key(name@),
            },
    {
        let key = to_chars(name);
        self.get_chars(&key)
    }

    /// The installed `pkgver` of the package named by `name`, if any.
    pub fn get_chars(&self, name: &Vec<char>) -> (r: Option<String>)
        ensures
            match r {
                Some(v) => self@.contains_key(name@) && self@[name@] == v@,
                None => !self@.contains_key(name@),
            },
    {
        let mut i: usize = self.entries.len();
        assert(self.entries@.take(i as int) =~= self.entries@);
        while i > 0
            invariant
                i <= self.entries.len(),
                entries_map(self.entries@).contains_key(name@) == entries_map(
                    self.entries@.take(i as int),
                ).contains_key(name@),
                entries_map(self.entries@).contains_key(name@) ==> entries_map(self.entries@)[name@]
                    == entries_map(self.entries@.take(i as int))[name@],
            decreases i,
        {
            let e = &self.entries[i - 1];
            let key = to_chars(e.name.as_str());
            proof {
                let t = self.entries@.take(i as int);
                assert(t.last() == self.entries@[i - 1]);
                assert(t.drop_last() =~= self.entries@.take(i - 1));
            }
            if same(&key, name) {
                return Some(e.pkgver.clone());
            }
            i -= 1;
        }
        None
    }
}

/// The name and `pkgver` that one line of the list of installed packages
/// records: the line's second word, where its first word marks the package as
/// fully installed and the second word names a package.
pub open spec fn list_entry(line: Seq<char>) -> Option<(Seq<char>, Seq<char>)> {
    let cols = split_words(line);
    if cols.len() >= 2 && cols[0] == "ii"@ {
        match pkgname(cols[1]) {
            Some(name) => Some((name, cols[1])),
            None => None,
        }
    } else {
        None
    }
}

/// The index that the lines of a list of installed packages give; a later
/// line replaces an earlier one of the same name.
pub open spec fn index_of_lines(lines: Seq<Seq<char>>) -> Map<Seq<char>, Seq<char>>
    decreases lines.len(),
{
    if lines.len() == 0 {
        Map::empty()
    } else {
        let before = index_of_lines(lines.drop_last());
        match list_entry(lines.last()) {
            Some((name, pkgver)) => before.insert(name, pkgver),
            None => before,
        }
    }
}

/// The index that the text of a list of installed packages gives.
pub open spec fn index_of_list(text: Seq<char>) -> Map<Seq<char>, Seq<char>> {
    index_of_lines(split_lines(text))
}

/// Every value of the index of a list is a full `pkgver`, filed under the
/// name of its package.
pub proof fn lemma_index_holds_pkgvers(lines: Seq<Seq<char>>)
    ensures
        forall|name: Seq<char>| #[trigger]
            index_of_lines(lines).contains_key(name) ==> pkgname(index_of_lines(lines)[name])
                == Some(name),
    decreases lines.len(),
{
    if lines.len() > 0 {
        lemma_index_holds_pkgvers(lines.drop_last());
    }
}

/// Builds the index of installed packages from the output of one bulk query,
/// which lists one package per line as `ii pkgver description`.
pub fn load_installed_pkgver_map(list: &str) -> (index: InstalledIndex)
    ensures
        index@ == index_of_list(list@),
{
    let chars = to_chars(list);
    let ls = lines(&chars);
    let marker = to_chars("ii");
    let ghost all = seqs(ls@);
    let mut index = InstalledIndex::new();
    let mut i: usize = 0;
    assert(all.take(0) =~= Seq::<Seq<char>>::empty());
    while i < ls.len()
        invariant
            i <= ls.len(),
            all == seqs(ls@),
            marker@ == "ii"@,
            index@ == index_of_lines(all.take(i as int)),
        decreases ls.len() - i,
    {
        proof {
            assert(all.take(i + 1).last() == ls@[i as int]@);
            assert(all.take(i + 1).drop_last() =~= all.take(i as int));
        }
        let cols = words(&ls[i]);
        if cols.len() >= 2 && same(&cols[0], &marker) {
            match pkgname_chars(&cols[1]) {
                Some(name) => {
                    index.insert(from_chars(&name), from_chars(&cols[1]));
                },
                None => {},
            }
        }
        i += 1;
    }
    assert(all.take(ls.len() as int) =~= all);
    index
}

/// The failure of a query tool that could not be started.
pub open spec fn query_not_started(tool: Seq<char>, why: Seq<char>) -> VxErrorView {
    VxErrorView {
        kind: ErrorKind::ProcessInvocation,
        message: "failed to run "@ + tool + ": "@ + why,
    }
}

/// Whether a package is installed, as the query for its `pkgver` tells: it
/// is where the query succeeded. A query that could not be started tells
/// nothing.
pub fn is_installed(tool: &str, o: &ToolOutcome) -> (r: Result<bool, VxError>)
    ensures
        match r {
            Ok(b) => !(o@ is NotStarted) && b == succeeded(o@),
            Err(e) => o@ is NotStarted && e@ == query_not_started(tool@, o@->NotStarted_0),
        },
{
    match o {
        ToolOutcome::NotStarted(why) => Err(
            VxError::new(
                ErrorKind::ProcessInvocation,
                join4("failed to run ", tool, ": ", why.as_str()),
            ),
        ),
        ToolOutcome::Exited { .. } => Ok(o.success()),
    }
}

/// The installed `pkgver` that the query for it wrote: none where the query
/// failed or wrote nothing but whitespace.
pub open spec fn queried_pkgver(o: ToolOutcomeView) -> Option<Seq<char>> {
    if succeeded(o) && trim(o->stdout).len() > 0 {
        Some(trim(o->stdout))
    } else {
        None
    }
}

/// The installed `pkgver` of a package, as the query for it tells.
pub fn installed_pkgver(o: &ToolOutcome) -> (r: Result<Option<String>, VxError>)
    ensures
        match r {
            Ok(Some(v)) => !(o@ is NotStarted) && queried_pkgver(o@) == Some(v@),
            Ok(None) => !(o@ is NotStarted) && queried_pkgver(o@) is None,
            Err(e) => o@ is NotStarted && e@ == query_not_started(
                "xbps-query"@,
                o@->NotStarted_0,
            ),
        },
{
    match o {
        ToolOutcome::NotStarted(why) => Err(
            VxError::new(
                ErrorKind::ProcessInvocation,
                join4("failed to run ", "xbps-query", ": ", why.as_str()),
            ),
        ),
        ToolOutcome::Exited { code, stdout, stderr } => {
            if !o.success() {
                return Ok(None);
            }
            let text = trimmed(&to_chars(stdout.as_str()));
            if text.len() == 0 {
                Ok(None)
            } else {
                Ok(Some(from_chars(&text)))
            }
        },
    }
}

/// The words of a query with one option and one subject.
pub open spec fn query_words(opt: Seq<char>, subject: Seq<char>) -> Seq<Seq<char>> {
    seq!["xbps-query"@, opt, subject]
}

/// A query with one option and one subject.
fn query(opt: &str, subject: &str) -> (words: Vec<String>)
    ensures
        strs(words@) == query_words(opt@, subject@),
{
    let mut words: Vec<String> = Vec::new();
    words.push("xbps-query".to_owned());
    words.push(opt.to_owned());
    words.push(subject.to_owned());
    assert(strs(words@) =~= query_words(opt@, subject@));
    words
}

/// The query that searches the words of `term`, joined by blanks: among the
/// installed packages where `installed` is set, else in the repositories. A
/// search without a word is refused.
pub fn search(installed: bool, term: &Vec<String>) -> (r: Result<Vec<String>, VxError>)
    ensures
        match r {
            Ok(words) => term.len() > 0 && strs(words@) == query_words(
                if installed {
                    "-s"@
                } else {
                    "-Rs"@
                },
                joined(strs(term@), " "@),
            ),
            Err(e) => term.len() == 0 && e@ == usage("usage: vx search <term>"@),
        },
{
    if term.len() == 0 {
        return Err(usage_error("usage: vx search <term>"));
    }
    let needle = join_with(term, " ");
    if installed {
        Ok(query("-s", needle.as_str()))
    } else {
        Ok(query("-Rs", needle.as_str()))
    }
}

/// A query on `subject`; a blank subject is refused with `usage_text`.
fn query_subject(opt: &str, subject: &str, usage_text: &str) -> (r: Result<Vec<String>, VxError>)
    ensures
        match r {
            Ok(words) => trim(subject@).len() > 0 && strs(words@) == query_words(opt@, subject@),
            Err(e) => trim(subject@).len() == 0 && e@ == usage(usage_text@),
        },
{
    if trimmed(&to_chars(subject)).len() == 0 {
        Err(usage_error(usage_text))
    } else {
        Ok(query(opt, subject))
    }
}

/// The query that shows what the repositories know of `pkg`; a blank name
/// is refused.
pub fn info(pkg: &str) -> (r: Result<Vec<String>, VxError>)
    ensures
        match r {
            Ok(words) => trim(pkg@).len() > 0 && strs(words@) == query_words("-R"@, pkg@),
            Err(e) => trim(pkg@).len() == 0 && e@ == usage("usage: vx info <pkg>"@),
        },
{
    query_subject("-R", pkg, "usage: vx info <pkg>")
}

/// The query that lists the files of the installed package `pkg`; a blank
/// name is refused.
pub fn files(pkg: &str) -> (r: Result<Vec<String>, VxError>)
    ensures
        match r {
            Ok(words) => trim(pkg@).len() > 0 && strs(words@) == query_words("-f"@, pkg@),
            Err(e) => trim(pkg@).len() == 0 && e@ == usage("usage: vx files <pkg>"@),
        },
{
    query_subject("-f", pkg, "usage: vx files <pkg>")
}

/// The query that finds the installed package that owns `path`; a blank
/// path is refused.
pub fn provides(path: &str) -> (r: Result<Vec<String>, VxError>)
    ensures
        match r {
            Ok(words) => trim(path@).len() > 0 && strs(words@) == query_words("-o"@, path@),
            Err(e) => trim(path@).len() == 0 && e@ == usage("usage: vx provides <path>"@),
        },
{
    query_subject("-o", path, "usage: vx provides <path>")
}

/// The warning with which planning goes on without an index, where the
/// bulk query failed.
pub open spec fn index_warning(o: ToolOutcomeView) -> Option<Seq<char>> {
    match tool_failure("xbps-query -l"@, o) {
        Some(e) => Some("failed to load installed package list: "@ + e.message),
        None => None,
    }
}

/// The index of installed packages that one bulk query gives. A query that
/// failed is no failure of the planning: it gives an empty index and a
/// warning, and every package then counts as not known to be installed.
pub fn index_from_query(o: &ToolOutcome) -> (r: (InstalledIndex, Option<String>))
    ensures
        match r.1 {
            Some(w) => index_warning(o@) == Some(w@) && r.0@ == Map::<
                Seq<char>,
                Seq<char>,
            >::empty(),
            None => index_warning(o@) is None && r.0@ == index_of_list(o@->stdout),
        },
{
    match check_outcome("xbps-query -l", o) {
        Err(e) => (
            InstalledIndex::new(),
            Some(join2("failed to load installed package list: ", e.message.as_str())),
        ),
        Ok(_) => match o {
            ToolOutcome::Exited { code, stdout, stderr } => (
                load_installed_pkgver_map(stdout.as_str()),
                None,
            ),
            ToolOutcome::NotStarted(_) => (InstalledIndex::new(), None),
        },
    }
}

} // verus!
