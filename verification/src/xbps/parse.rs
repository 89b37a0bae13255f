//! Reading the preview that the package manager prints for a dry run.
//!
//! The text is first freed of ANSI escape sequences. Each line is then
//! classified, and the data rows are turned into update candidates: rows of the
//! table that follows a header, or columnar rows that begin with a `pkgver`.

use crate::error::{ErrorKind, VxError, VxErrorView};
use crate::text::{
    ascending, chain, char_is_letter, contains, from_chars, has_infix, has_prefix, is_letter,
    last_of, lemma_ascending_unique, lemma_infix_transitive, lemma_last_of, lemma_lex_asymmetric,
    lemma_lex_total, lemma_lex_transitive, lemma_line_is_infix, lemma_prefix_is_infix,
    lemma_trim_is_infix, less, lex_less, lines, same, seqs, split_lines, split_words, starts_with,
    to_chars, trim, trimmed, words,
};
use crate::xbps::plan::{SysUpdate, SysUpdateView, updates_view};
use crate::xbps::query::{InstalledIndex, pkgname, pkgname_chars};
use vstd::prelude::*;

verus! {

/// The length of the rest of an escape sequence: the characters of `s` up to
/// and including its first ASCII letter, or all of `s` where it has none.
pub open spec fn escape_tail(s: Seq<char>) -> nat
    decreases s.len(),
{
    if s.len() == 0 {
        0
    } else if is_letter(s[0]) {
        1
    } else {
        1 + escape_tail(s.drop_first())
    }
}

/// The rest of an escape sequence lies within the text.
pub proof fn lemma_escape_tail_bound(s: Seq<char>)
    ensures
        escape_tail(s) <= s.len(),
    decreases s.len(),
{
    if s.len() > 0 && !is_letter(s[0]) {
        lemma_escape_tail_bound(s.drop_first());
    }
}

/// No letter before `k`; a letter at `k`, or the end there.
proof fn lemma_escape_tail_at(s: Seq<char>, k: int)
    requires
        0 <= k <= s.len(),
        forall|m: int| 0 <= m < k ==> !is_letter(#[trigger] s[m]),
        k == s.len() || is_letter(s[k]),
    ensures
        escape_tail(s) == if k == s.len() {
            k
        } else {
            k + 1
        },
    decreases k,
{
    if k > 0 {
        let t = s.drop_first();
        assert forall|m: int| 0 <= m < k - 1 implies !is_letter(#[trigger] t[m]) by {
            assert(t[m] == s[m + 1]);
        }
        lemma_escape_tail_at(t, k - 1);
    }
}

/// `s` without its ANSI escape sequences: each escape character that a `[`
/// follows is dropped together with everything up to and including the next
/// ASCII letter.
pub open spec fn without_ansi(s: Seq<char>) -> Seq<char>
    decreases s.len(),
{
    if s.len() == 0 {
        Seq::empty()
    } else if s[0] == '\x1b' && s.len() >= 2 && s[1] == '[' {
        proof {
            lemma_escape_tail_bound(s.skip(2));
        }
        without_ansi(s.skip(2 + escape_tail(s.skip(2)) as int))
    } else {
        seq![s[0]] + without_ansi(s.drop_first())
    }
}

/// `s` without its ANSI escape sequences, as characters.
pub fn strip_ansi_chars(s: &Vec<char>) -> (out: Vec<char>)
    ensures
        out@ == without_ansi(s@),
{
    let n = s.len();
    let mut out: Vec<char> = Vec::new();
    let mut i: usize = 0;
    assert(s@.skip(0) =~= s@);
    while i < n
        invariant
            i <= n,
            n == s.len(),
            without_ansi(s@) == out@ + without_ansi(s@.skip(i as int)),
        decreases n - i,
    {
        let ghost t = s@.skip(i as int);
        assert(t[0] == s@[i as int]);
        if s[i] == '\x1b' && n - i >= 2 && s[i + 1] == '[' {
            assert(t[1] == s@[i + 1]);
            let mut j: usize = i + 2;
            while j < n && !char_is_letter(s[j])
                invariant
                    i + 2 <= j <= n,
                    n == s.len(),
                    forall|m: int| i + 2 <= m < j ==> !is_letter(#[trigger] s@[m]),
                decreases n - j,
            {
                j += 1;
            }
            proof {
                let u = t.skip(2);
                assert(u =~= s@.skip(i + 2));
                assert forall|m: int| 0 <= m < j - i - 2 implies !is_letter(#[trigger] u[m]) by {
                    assert(u[m] == s@[m + i + 2]);
                }
                if j < n {
                    assert(u[j - i - 2] == s@[j as int]);
                }
                lemma_escape_tail_at(u, j - i - 2);
            }
            let next: usize = if j < n {
                j + 1
            } else {
                n
            };
            assert(t.skip(2 + escape_tail(t.skip(2)) as int) =~= s@.skip(next as int));
            i = next;
        } else {
            let c = s[i];
            proof {
                assert(t.drop_first() =~= s@.skip(i + 1));
                assert(out@ + (seq![c] + without_ansi(s@.skip(i + 1))) =~= out@.push(c)
                    + without_ansi(s@.skip(i + 1)));
            }
            out.push(c);
            i += 1;
        }
    }
    assert(out@ + Seq::<char>::empty() =~= out@);
    out
}

/// `s` without its ANSI escape sequences.
pub fn strip_ansi(s: &str) -> (out: String)
    ensures
        out@ == without_ansi(s@),
{
    let chars = to_chars(s);
    let clean = strip_ansi_chars(&chars);
    from_chars(&clean)
}

/// How a trimmed line of the preview is read.
#[derive(Clone, Copy, Debug, PartialEq, Eq, Structural)]
pub enum LineKind {
    /// Nothing but whitespace.
    Blank,
    /// Progress markers, size summaries, prompts and aborts.
    Chatter,
    /// The header that opens a table.
    Header,
    /// Anything else: a row, if its columns fit.
    Data,
}

/// Whether a trimmed line is informational chatter.
pub open spec fn is_chatter(line: Seq<char>) -> bool {
    ||| has_prefix(line, "[*]"@)
    ||| has_prefix(line, "=>"@)
    ||| has_prefix(line, "xbps-install:"@)
    ||| has_prefix(line, "Size to download:"@)
    ||| has_prefix(line, "Size required on disk:"@)
    ||| has_prefix(line, "Space available on disk:"@)
    ||| has_prefix(line, "Do you want to continue?"@)
    ||| has_prefix(line, "Aborting!"@)
}

/// Whether `s` names the columns of an update table somewhere in it.
pub open spec fn names_table_columns(s: Seq<char>) -> bool {
    &&& has_infix(s, "Action"@)
    &&& has_infix(s, "Version"@) || has_infix(s, "Current"@)
    &&& has_infix(s, "New"@) || has_infix(s, "New version"@)
}

/// Whether a trimmed line is the header of an update table.
pub open spec fn is_header(line: Seq<char>) -> bool {
    has_prefix(line, "Name"@) && names_table_columns(line)
}

/// Whether a whole preview looks like it holds an update table.
pub open spec fn looks_tabular(text: Seq<char>) -> bool {
    has_infix(text, "Name"@) && names_table_columns(text)
}

/// The kind of a trimmed line.
pub open spec fn classify(line: Seq<char>) -> LineKind {
    if line.len() == 0 {
        LineKind::Blank
    } else if is_chatter(line) {
        LineKind::Chatter
    } else if is_header(line) {
        LineKind::Header
    } else {
        LineKind::Data
    }
}

/// Whether `word` is an action that changes a package.
pub open spec fn is_action(word: Seq<char>) -> bool {
    ||| word == "update"@
    ||| word == "install"@
    ||| word == "reinstall"@
    ||| word == "downgrade"@
}

/// The candidate of a table row `name action old new ..`.
pub open spec fn table_row(cols: Seq<Seq<char>>) -> Option<SysUpdateView> {
    if cols.len() >= 4 && is_action(cols[1]) {
        Some(
            SysUpdateView {
                name: cols[0],
                from: cols[0] + "-"@ + cols[2],
                to: cols[0] + "-"@ + cols[3],
            },
        )
    } else {
        None
    }
}

/// What stands for the installed version of a package that is not installed.
pub open spec fn not_installed() -> Seq<char> {
    "<not installed>"@
}

/// The candidate of a columnar row `pkgver action ..`.
pub open spec fn column_row(cols: Seq<Seq<char>>, installed: Map<Seq<char>, Seq<char>>) -> Option<
    SysUpdateView,
> {
    if cols.len() >= 2 && is_action(cols[1]) {
        match pkgname(cols[0]) {
            Some(name) => Some(
                SysUpdateView {
                    name,
                    from: if installed.contains_key(name) {
                        installed[name]
                    } else {
                        not_installed()
                    },
                    to: cols[0],
                },
            ),
            None => None,
        }
    } else {
        None
    }
}

/// Where the reader stands between two lines.
pub struct ScanState {
    /// A header was seen and its table has not ended.
    pub in_table: bool,
    /// The table has given at least one row.
    pub saw_row: bool,
}

/// The state before the first line.
pub open spec fn scan_start() -> ScanState {
    ScanState { in_table: false, saw_row: false }
}

/// One line read in state `st`: the next state, and the candidate that the
/// line gives, if any.
///
/// A blank line right after a header is a spacer; any other blank line ends
/// the table. Chatter changes nothing. A header opens a table. A data line is
/// a table row inside a table and a columnar row outside.
pub open spec fn scan_line(
    st: ScanState,
    raw: Seq<char>,
    installed: Map<Seq<char>, Seq<char>>,
) -> (ScanState, Option<SysUpdateView>) {
    let line = trim(raw);
    match classify(line) {
        LineKind::Blank => if st.in_table && !st.saw_row {
            (st, None)
        } else {
            (scan_start(), None)
        },
        LineKind::Chatter => (st, None),
        LineKind::Header => (ScanState { in_table: true, saw_row: false }, None),
        LineKind::Data => if st.in_table {
            match table_row(split_words(line)) {
                Some(c) => (ScanState { in_table: true, saw_row: true }, Some(c)),
                None => (st, None),
            }
        } else {
            (st, column_row(split_words(line), installed))
        },
    }
}

/// The candidates that `lines` give when read from state `st`, in the order
/// of the lines.
pub open spec fn scan_lines(
    st: ScanState,
    lines: Seq<Seq<char>>,
    installed: Map<Seq<char>, Seq<char>>,
) -> Seq<SysUpdateView>
    decreases lines.len(),
{
    if lines.len() == 0 {
        Seq::empty()
    } else {
        let (next, row) = scan_line(st, lines[0], installed);
        let rest = scan_lines(next, lines.drop_first(), installed);
        match row {
            Some(c) => seq![c] + rest,
            None => rest,
        }
    }
}

/// The rows of a preview, in order, before they are sorted and merged by name.
pub open spec fn preview_rows(text: Seq<char>, installed: Map<Seq<char>, Seq<char>>) -> Seq<
    SysUpdateView,
> {
    scan_lines(scan_start(), split_lines(without_ansi(text)), installed)
}

/// The rows by name; of two rows of one name the later one stays.
pub open spec fn rows_by_name(rows: Seq<SysUpdateView>) -> Map<Seq<char>, SysUpdateView>
    decreases rows.len(),
{
    if rows.len() == 0 {
        Map::empty()
    } else {
        rows_by_name(rows.drop_last()).insert(rows.last().name, rows.last())
    }
}

/// Whether the names of `plan` strictly ascend.
pub open spec fn sorted_by_name(plan: Seq<SysUpdateView>) -> bool {
    forall|i: int, j: int|
        0 <= i < j < plan.len() ==> lex_less((#[trigger] plan[i]).name, (#[trigger] plan[j]).name)
}

/// Whether `plan` is the plan of `rows`: sorted by name, one candidate for
/// each name that occurs in `rows`, and that candidate the last row of its
/// name.
pub open spec fn is_plan_of(plan: Seq<SysUpdateView>, rows: Seq<SysUpdateView>) -> bool {
    &&& sorted_by_name(plan)
    &&& forall|i: int|
        0 <= i < plan.len() ==> rows_by_name(rows).contains_key((#[trigger] plan[i]).name)
            && rows_by_name(rows)[plan[i].name] == plan[i]
    &&& forall|name: Seq<char>| #[trigger]
        rows_by_name(rows).contains_key(name) ==> exists|i: int|
            0 <= i < plan.len() && (#[trigger] plan[i]).name == name
}

/// The text of the failure that a table without rows gives.
pub open spec fn empty_table_message() -> Seq<char> {
    "failed to parse xbps dry-run output (format changed); refusing to report empty plan"@
}

/// What reading a preview gives: the plan of its rows; or, where no row was
/// found in a text that looks like it holds a table, a parse failure.
pub open spec fn is_preview_result(
    text: Seq<char>,
    installed: Map<Seq<char>, Seq<char>>,
    result: Result<Seq<SysUpdateView>, VxErrorView>,
) -> bool {
    let rows = preview_rows(text, installed);
    let refused = rows.len() == 0 && looks_tabular(without_ansi(text));
    match result {
        Ok(plan) => !refused && is_plan_of(plan, rows),
        Err(e) => refused && e == (VxErrorView {
            kind: ErrorKind::Parse,
            message: empty_table_message(),
        }),
    }
}

/// The kind of a trimmed line.
pub fn classify_line(line: &Vec<char>) -> (kind: LineKind)
    ensures
        kind == classify(line@),
{
    if line.len() == 0 {
        LineKind::Blank
    } else if line_is_chatter(line) {
        LineKind::Chatter
    } else if starts_with(line, &to_chars("Name")) && has_table_columns(line) {
        LineKind::Header
    } else {
        LineKind::Data
    }
}

/// Whether a trimmed line is informational chatter.
fn line_is_chatter(line: &Vec<char>) -> (b: bool)
    ensures
        b == is_chatter(line@),
{
    starts_with(line, &to_chars("[*]")) || starts_with(line, &to_chars("=>")) || starts_with(
        line,
        &to_chars("xbps-install:"),
    ) || starts_with(line, &to_chars("Size to download:")) || starts_with(
        line,
        &to_chars("Size required on disk:"),
    ) || starts_with(line, &to_chars("Space available on disk:")) || starts_with(
        line,
        &to_chars("Do you want to continue?"),
    ) || starts_with(line, &to_chars("Aborting!"))
}

/// Whether `s` names the columns of an update table.
fn has_table_columns(s: &Vec<char>) -> (b: bool)
    ensures
        b == names_table_columns(s@),
{
    contains(s, &to_chars("Action")) && (contains(s, &to_chars("Version")) || contains(
        s,
        &to_chars("Current"),
    )) && (contains(s, &to_chars("New")) || contains(s, &to_chars("New version")))
}

/// Whether `word` is an action that changes a package.
fn word_is_action(word: &Vec<char>) -> (b: bool)
    ensures
        b == is_action(word@),
{
    same(word, &to_chars("update")) || same(word, &to_chars("install")) || same(
        word,
        &to_chars("reinstall"),
    ) || same(word, &to_chars("downgrade"))
}

/// `name`, a hyphen and `version`.
fn hyphenate(name: &Vec<char>, version: &Vec<char>) -> (r: String)
    ensures
        r@ == name@ + "-"@ + version@,
{
    let head = chain(name, &to_chars("-"));
    let all = chain(&head, version);
    from_chars(&all)
}

/// The candidate of a table row.
fn read_table_row(cols: &Vec<Vec<char>>) -> (r: Option<SysUpdate>)
    ensures
        match r {
            Some(u) => table_row(seqs(cols@)) == Some(u@),
            None => table_row(seqs(cols@)) is None,
        },
{
    if cols.len() >= 4 && word_is_action(&cols[1]) {
        let name = from_chars(&cols[0]);
        let from = hyphenate(&cols[0], &cols[2]);
        let to = hyphenate(&cols[0], &cols[3]);
        Some(SysUpdate { name, from, to })
    } else {
        None
    }
}

/// The candidate of a columnar row.
fn read_column_row(cols: &Vec<Vec<char>>, installed: &InstalledIndex) -> (r: Option<SysUpdate>)
    ensures
        match r {
            Some(u) => column_row(seqs(cols@), installed@) == Some(u@),
            None => column_row(seqs(cols@), installed@) is None,
        },
{
    if cols.len() >= 2 && word_is_action(&cols[1]) {
        match pkgname_chars(&cols[0]) {
            Some(name) => {
                let from = match installed.get_chars(&name) {
                    Some(v) => v,
                    None => "<not installed>".to_owned(),
                };
                Some(SysUpdate { name: from_chars(&name), from, to: from_chars(&cols[0]) })
            },
            None => None,
        }
    } else {
        None
    }
}

/// Whether the name of `u` comes before `key`.
fn name_before(u: &SysUpdate, key: &Vec<char>) -> (b: bool)
    ensures
        b == lex_less(u@.name, key@),
{
    let name = to_chars(u.name.as_str());
    less(&name, key)
}

/// Whether the name of `u` is `key`.
fn name_is(u: &SysUpdate, key: &Vec<char>) -> (b: bool)
    ensures
        b == (u@.name == key@),
{
    let name = to_chars(u.name.as_str());
    same(&name, key)
}

/// Puts `u` into a plan: in place of the candidate of its name, or, where
/// there is none, at the place that keeps the names ascending.
fn upsert(plan: &mut Vec<SysUpdate>, u: SysUpdate, Ghost(rows): Ghost<Seq<SysUpdateView>>)
    requires
        is_plan_of(updates_view(old(plan)@), rows),
    ensures
        is_plan_of(updates_view(final(plan)@), rows.push(u@)),
{
    let key = to_chars(u.name.as_str());
    let ghost before = updates_view(plan@);
    let ghost uv = u@;
    let mut p: usize = 0;
    while p < plan.len() && name_before(&plan[p], &key)
        invariant
            p <= plan.len(),
            before == updates_view(plan@),
            forall|j: int| 0 <= j < p ==> lex_less((#[trigger] before[j]).name, key@),
        decreases plan.len() - p,
    {
        p += 1;
    }
    let replace = p < plan.len() && name_is(&plan[p], &key);
    if replace {
        plan.remove(p);
    }
    plan.insert(p, u);
    proof {
        let after = updates_view(plan@);
        let all = rows.push(uv);
        assert(all.drop_last() =~= rows);
        assert(rows_by_name(all) == rows_by_name(rows).insert(uv.name, uv));
        assert(after.len() == if replace {
            before.len()
        } else {
            before.len() + 1
        });
        assert(after[p as int] == uv);
        assert forall|i: int| 0 <= i < after.len() && i != p implies #[trigger] after[i]
            == before[if i < p || replace {
            i
        } else {
            i - 1
        }] by {}
        if !replace && p < before.len() {
            lemma_lex_total(before[p as int].name, key@);
        }
        assert forall|j: int| p < j < before.len() implies lex_less(
            key@,
            (#[trigger] before[j]).name,
        ) by {
            if replace {
                assert(lex_less(before[p as int].name, before[j].name));
            } else {
                if p < j {
                    assert(lex_less(before[p as int].name, before[j].name));
                    lemma_lex_transitive(key@, before[p as int].name, before[j].name);
                }
            }
        }
        if !replace && p < before.len() {
            assert(lex_less(key@, before[p as int].name));
        }
        assert forall|i: int, j: int| 0 <= i < j < after.len() implies lex_less(
            (#[trigger] after[i]).name,
            (#[trigger] after[j]).name,
        ) by {
            let oi = if i < p || replace {
                i
            } else {
                i - 1
            };
            let oj = if j < p || replace {
                j
            } else {
                j - 1
            };
            if i != p && j != p {
                assert(after[i] == before[oi]);
                assert(after[j] == before[oj]);
                assert(lex_less(before[oi].name, before[oj].name));
            } else if i == p {
                assert(after[j] == before[oj]);
                assert(lex_less(key@, before[oj].name));
            } else {
                assert(after[i] == before[oi]);
                assert(lex_less(before[oi].name, key@));
            }
        }
        assert forall|i: int| 0 <= i < after.len() implies rows_by_name(all).contains_key(
            (#[trigger] after[i]).name,
        ) && rows_by_name(all)[after[i].name] == after[i] by {
            if i != p {
                let oi = if i < p || replace {
                    i
                } else {
                    i - 1
                };
                assert(after[i] == before[oi]);
                if oi < p {
                    lemma_lex_asymmetric(before[oi].name, key@);
                } else {
                    lemma_lex_asymmetric(key@, before[oi].name);
                }
            }
        }
        assert forall|name: Seq<char>| #[trigger]
            rows_by_name(all).contains_key(name) implies exists|i: int|
            0 <= i < after.len() && (#[trigger] after[i]).name == name by {
            if name == uv.name {
                assert(after[p as int].name == name);
            } else {
                assert(rows_by_name(rows).contains_key(name));
                let k = choose|k: int| 0 <= k < before.len() && (#[trigger] before[k]).name == name;
                let i = if k < p || replace {
                    k
                } else {
                    k + 1
                };
                assert(after[i] == before[k]);
            }
        }
    }
}

/// A plan is empty exactly where there are no rows.
proof fn lemma_plan_empty(plan: Seq<SysUpdateView>, rows: Seq<SysUpdateView>)
    requires
        is_plan_of(plan, rows),
    ensures
        plan.len() == 0 <==> rows.len() == 0,
{
    if rows.len() > 0 {
        assert(rows_by_name(rows).contains_key(rows.last().name));
    }
    if plan.len() > 0 {
        assert(rows_by_name(rows).contains_key(plan[0].name));
    }
}

/// Reads the preview of a dry run into an update plan.
///
/// `installed` gives the version that a columnar row updates from. The plan
/// holds one candidate for each package named by a row, the last row of a
/// name winning, in ascending order of the names. A text that looks like it
/// holds a table and yet gives no row is refused with a parse failure.
pub fn parse_xbps_sun_plan(text: &str, installed: &InstalledIndex) -> (r: Result<
    Vec<SysUpdate>,
    VxError,
>)
    ensures
        is_preview_result(
            text@,
            installed@,
            match r {
                Ok(plan) => Ok(updates_view(plan@)),
                Err(e) => Err(e@),
            },
        ),
{
    let chars = to_chars(text);
    let clean = strip_ansi_chars(&chars);
    let ls = lines(&clean);
    let ghost all = seqs(ls@);
    let ghost mut rows: Seq<SysUpdateView> = Seq::empty();
    let mut plan: Vec<SysUpdate> = Vec::new();
    let mut in_table = false;
    let mut saw_row = false;
    let mut i: usize = 0;
    assert(all.skip(0) =~= all);
    assert(rows + scan_lines(scan_start(), all, installed@) =~= scan_lines(
        scan_start(),
        all,
        installed@,
    ));
    while i < ls.len()
        invariant
            i <= ls.len(),
            all == seqs(ls@),
            scan_lines(scan_start(), all, installed@) == rows + scan_lines(
                ScanState { in_table, saw_row },
                all.skip(i as int),
                installed@,
            ),
            is_plan_of(updates_view(plan@), rows),
        decreases ls.len() - i,
    {
        let ghost st = ScanState { in_table, saw_row };
        let ghost rest = all.skip(i as int);
        proof {
            assert(rest[0] == ls@[i as int]@);
            assert(rest.drop_first() =~= all.skip(i + 1));
        }
        let line = trimmed(&ls[i]);
        let mut found: Option<SysUpdate> = None;
        match classify_line(&line) {
            LineKind::Blank => {
                if !(in_table && !saw_row) {
                    in_table = false;
                    saw_row = false;
                }
            },
            LineKind::Chatter => {},
            LineKind::Header => {
                in_table = true;
                saw_row = false;
            },
            LineKind::Data => {
                let cols = words(&line);
                if in_table {
                    found = read_table_row(&cols);
                    if found.is_some() {
                        saw_row = true;
                    }
                } else {
                    found = read_column_row(&cols, installed);
                }
            },
        }
        proof {
            let (next, row) = scan_line(st, rest[0], installed@);
            assert(next == ScanState { in_table, saw_row });
            assert(match found {
                Some(u) => row == Some(u@),
                None => row is None,
            });
        }
        match found {
            Some(u) => {
                proof {
                    let tail = scan_lines(
                        ScanState { in_table, saw_row },
                        all.skip(i + 1),
                        installed@,
                    );
                    assert(rows + (seq![u@] + tail) =~= rows.push(u@) + tail);
                }
                upsert(&mut plan, u, Ghost(rows));
                proof {
                    rows = rows.push(u@);
                }
            },
            None => {},
        }
        i += 1;
    }
    proof {
        assert(all.skip(ls.len() as int).len() == 0);
        assert(rows + Seq::<SysUpdateView>::empty() =~= rows);
        assert(rows == preview_rows(text@, installed@));
        lemma_plan_empty(updates_view(plan@), rows);
    }
    if plan.len() == 0 && contains(&clean, &to_chars("Name")) && has_table_columns(&clean) {
        Err(
            VxError::new(
                ErrorKind::Parse,
                "failed to parse xbps dry-run output (format changed); refusing to report empty plan".to_owned(),
            ),
        )
    } else {
        Ok(plan)
    }
}

/// Whether `line` is a row of an update table: a data line of at least four
/// columns whose second column is an action.
pub open spec fn is_table_row(line: Seq<char>) -> bool {
    let cols = split_words(trim(line));
    classify(trim(line)) == LineKind::Data && cols.len() >= 4 && is_action(cols[1])
}

/// The candidate that a row `name action old new ..` stands for: the name,
/// and the name joined by a hyphen to the old and to the new version.
pub open spec fn row_candidate(line: Seq<char>) -> SysUpdateView {
    let cols = split_words(trim(line));
    SysUpdateView { name: cols[0], from: cols[0] + "-"@ + cols[2], to: cols[0] + "-"@ + cols[3] }
}

/// The candidates of the rows among `lines`, in order.
pub open spec fn table_rows(lines: Seq<Seq<char>>) -> Seq<SysUpdateView>
    decreases lines.len(),
{
    if lines.len() == 0 {
        Seq::empty()
    } else if is_table_row(lines[0]) {
        seq![row_candidate(lines[0])] + table_rows(lines.drop_first())
    } else {
        table_rows(lines.drop_first())
    }
}

/// Whether `line` may stand before the header of a table: chatter, or a
/// blank line.
pub open spec fn is_preamble(line: Seq<char>) -> bool {
    classify(trim(line)) == LineKind::Chatter || classify(trim(line)) == LineKind::Blank
}

/// Whether `line` may stand in a table: a row, chatter, or a header.
pub open spec fn is_table_line(line: Seq<char>) -> bool {
    ||| is_table_row(line)
    ||| classify(trim(line)) == LineKind::Chatter
    ||| classify(trim(line)) == LineKind::Header
}

/// Whether `lines` are an update table whose header is line `header`:
/// before the header stand chatter and blank lines alone, after it rows,
/// chatter and headers alone, and no two rows are for one name.
pub open spec fn is_table(lines: Seq<Seq<char>>, header: int) -> bool {
    &&& 0 <= header < lines.len()
    &&& classify(trim(lines[header])) == LineKind::Header
    &&& forall|i: int| 0 <= i < header ==> is_preamble(#[trigger] lines[i])
    &&& forall|i: int| header < i < lines.len() ==> is_table_line(#[trigger] lines[i])
    &&& forall|i: int, j: int|
        0 <= i < j < table_rows(lines.skip(header + 1)).len() ==> (#[trigger] table_rows(
            lines.skip(header + 1),
        )[i]).name != (#[trigger] table_rows(lines.skip(header + 1))[j]).name
}

/// Inside a table, the lines of a table give the candidates of their rows.
proof fn lemma_scan_table(
    st: ScanState,
    lines: Seq<Seq<char>>,
    installed: Map<Seq<char>, Seq<char>>,
)
    requires
        st.in_table,
        forall|i: int| 0 <= i < lines.len() ==> is_table_line(#[trigger] lines[i]),
    ensures
        scan_lines(st, lines, installed) == table_rows(lines),
    decreases lines.len(),
{
    if lines.len() > 0 {
        let (next, row) = scan_line(st, lines[0], installed);
        assert(is_table_line(lines[0]));
        assert(next.in_table);
        let rest = lines.drop_first();
        assert forall|i: int| 0 <= i < rest.len() implies is_table_line(#[trigger] rest[i]) by {
            assert(rest[i] == lines[i + 1]);
        }
        lemma_scan_table(next, rest, installed);
    }
}

/// Before a table, chatter and blank lines give nothing and change nothing.
proof fn lemma_scan_preamble(lines: Seq<Seq<char>>, n: int, installed: Map<Seq<char>, Seq<char>>)
    requires
        0 <= n <= lines.len(),
        forall|i: int| 0 <= i < n ==> is_preamble(#[trigger] lines[i]),
    ensures
        scan_lines(scan_start(), lines, installed) == scan_lines(
            scan_start(),
            lines.skip(n),
            installed,
        ),
    decreases n,
{
    if n == 0 {
        assert(lines.skip(0) =~= lines);
    } else {
        assert(is_preamble(lines[0]));
        let rest = lines.drop_first();
        assert forall|i: int| 0 <= i < n - 1 implies is_preamble(#[trigger] rest[i]) by {
            assert(rest[i] == lines[i + 1]);
        }
        lemma_scan_preamble(rest, n - 1, installed);
        assert(rest.skip(n - 1) =~= lines.skip(n));
    }
}

/// Each row among `lines` has its candidate among `table_rows`.
pub proof fn lemma_table_rows_hold(lines: Seq<Seq<char>>, k: int)
    requires
        0 <= k < lines.len(),
        is_table_row(lines[k]),
    ensures
        table_rows(lines).contains(row_candidate(lines[k])),
    decreases lines.len(),
{
    let rest = lines.drop_first();
    let all = table_rows(lines);
    if k == 0 {
        assert(all[0] == row_candidate(lines[0]));
    } else {
        assert(rest[k - 1] == lines[k]);
        lemma_table_rows_hold(rest, k - 1);
        let i = choose|i: int| 0 <= i < table_rows(rest).len() && table_rows(rest)[i]
            == row_candidate(lines[k]);
        if is_table_row(lines[0]) {
            assert(all[i + 1] == table_rows(rest)[i]);
        } else {
            assert(all[i] == table_rows(rest)[i]);
        }
    }
}

/// Every key of `rows_by_name` is the name of a row; and where the names are
/// distinct, each row is the value at its name.
proof fn lemma_rows_by_name(rows: Seq<SysUpdateView>)
    ensures
        forall|name: Seq<char>| #[trigger]
            rows_by_name(rows).contains_key(name) ==> exists|i: int|
                0 <= i < rows.len() && (#[trigger] rows[i]).name == name,
        forall|i: int|
            0 <= i < rows.len() ==> rows_by_name(rows).contains_key((#[trigger] rows[i]).name),
        (forall|i: int, j: int|
            0 <= i < j < rows.len() ==> (#[trigger] rows[i]).name != (#[trigger] rows[j]).name)
            ==> forall|i: int|
            0 <= i < rows.len() ==> rows_by_name(rows)[(#[trigger] rows[i]).name] == rows[i],
    decreases rows.len(),
{
    if rows.len() > 0 {
        let init = rows.drop_last();
        lemma_rows_by_name(init);
        assert forall|name: Seq<char>| #[trigger]
            rows_by_name(rows).contains_key(name) implies exists|i: int|
            0 <= i < rows.len() && (#[trigger] rows[i]).name == name by {
            if name == rows.last().name {
                assert(rows[rows.len() - 1].name == name);
            } else {
                let k = choose|k: int| 0 <= k < init.len() && (#[trigger] init[k]).name == name;
                assert(rows[k] == init[k]);
            }
        }
        assert forall|i: int| 0 <= i < rows.len() implies rows_by_name(rows).contains_key(
            (#[trigger] rows[i]).name,
        ) by {
            if i < init.len() {
                assert(rows[i] == init[i]);
            }
        }
        if forall|i: int, j: int|
            0 <= i < j < rows.len() ==> (#[trigger] rows[i]).name != (#[trigger] rows[j]).name {
            assert forall|i: int, j: int| 0 <= i < j < init.len() implies (#[trigger] init[i]).name
                != (#[trigger] init[j]).name by {
                assert(init[i] == rows[i] && init[j] == rows[j]);
            }
            assert forall|i: int| 0 <= i < rows.len() implies rows_by_name(rows)[(
            #[trigger] rows[i]).name] == rows[i] by {
                if i < init.len() {
                    assert(rows[i] == init[i]);
                    assert(rows[i].name != rows[rows.len() - 1].name);
                }
            }
        }
    }
}

/// A plan of rows with distinct names has one candidate for each row, and
/// holds each row as it is.
pub proof fn lemma_plan_of_distinct_rows(plan: Seq<SysUpdateView>, rows: Seq<SysUpdateView>)
    requires
        is_plan_of(plan, rows),
        forall|i: int, j: int|
            0 <= i < j < rows.len() ==> (#[trigger] rows[i]).name != (#[trigger] rows[j]).name,
    ensures
        plan.len() == rows.len(),
        forall|i: int| 0 <= i < rows.len() ==> plan.contains(#[trigger] rows[i]),
{
    lemma_rows_by_name(rows);
    let names = |c: SysUpdateView| c.name;
    let pn = plan.map_values(names);
    let rn = rows.map_values(names);
    assert forall|i: int, j: int| 0 <= i < pn.len() && 0 <= j < pn.len() && i != j implies pn[i]
        != pn[j] by {
        if i < j {
            lemma_lex_asymmetric(plan[i].name, plan[j].name);
        } else {
            lemma_lex_asymmetric(plan[j].name, plan[i].name);
        }
    }
    assert forall|i: int, j: int| 0 <= i < rn.len() && 0 <= j < rn.len() && i != j implies rn[i]
        != rn[j] by {
        if i < j {
            assert(rows[i].name != rows[j].name);
        } else {
            assert(rows[j].name != rows[i].name);
        }
    }
    assert forall|x: Seq<char>| pn.to_set().contains(x) <==> rn.to_set().contains(x) by {
        if pn.to_set().contains(x) {
            let i = choose|i: int| 0 <= i < pn.len() && pn[i] == x;
            assert(rows_by_name(rows).contains_key(plan[i].name));
            let k = choose|k: int| 0 <= k < rows.len() && (#[trigger] rows[k]).name == x;
            assert(rn[k] == x);
        }
        if rn.to_set().contains(x) {
            let k = choose|k: int| 0 <= k < rn.len() && rn[k] == x;
            assert(rows_by_name(rows).contains_key(rows[k].name));
            let i = choose|i: int| 0 <= i < plan.len() && (#[trigger] plan[i]).name == x;
            assert(pn[i] == x);
        }
    }
    assert(pn.to_set() =~= rn.to_set());
    pn.unique_seq_to_set();
    rn.unique_seq_to_set();
    assert forall|i: int| 0 <= i < rows.len() implies plan.contains(#[trigger] rows[i]) by {
        assert(rows_by_name(rows).contains_key(rows[i].name));
        let k = choose|k: int| 0 <= k < plan.len() && (#[trigger] plan[k]).name == rows[i].name;
        assert(plan[k] == rows[i]);
    }
}

/// A table of one or more rows of distinct names reads into a plan of as many
/// candidates as it has rows, sorted by name; and each row is in the plan
/// with its name, `name-old` and `name-new`.
pub proof fn lemma_table_plan(
    text: Seq<char>,
    installed: Map<Seq<char>, Seq<char>>,
    result: Result<Seq<SysUpdateView>, VxErrorView>,
    header: int,
)
    requires
        is_table(split_lines(without_ansi(text)), header),
        table_rows(split_lines(without_ansi(text)).skip(header + 1)).len() >= 1,
        is_preview_result(text, installed, result),
    ensures
        result is Ok,
        result->Ok_0.len() == table_rows(split_lines(without_ansi(text)).skip(header + 1)).len(),
        sorted_by_name(result->Ok_0),
        forall|i: int|
            header < i < split_lines(without_ansi(text)).len() && is_table_row(
                #[trigger] split_lines(without_ansi(text))[i],
            ) ==> result->Ok_0.contains(row_candidate(split_lines(without_ansi(text))[i])),
{
    let lines = split_lines(without_ansi(text));
    let tail = lines.skip(header);
    let body = lines.skip(header + 1);
    let rows = preview_rows(text, installed);
    lemma_scan_preamble(lines, header, installed);
    assert(tail[0] == lines[header]);
    assert(tail.drop_first() =~= body);
    let (next, row) = scan_line(scan_start(), tail[0], installed);
    assert(next.in_table && row is None);
    assert forall|i: int| 0 <= i < body.len() implies is_table_line(#[trigger] body[i]) by {
        assert(body[i] == lines[i + header + 1]);
    }
    lemma_scan_table(next, body, installed);
    assert(rows == table_rows(body));
    let plan = result->Ok_0;
    lemma_plan_of_distinct_rows(plan, rows);
    assert forall|i: int|
        header < i < lines.len() && is_table_row(#[trigger] lines[i]) implies plan.contains(
        row_candidate(lines[i]),
    ) by {
        assert(body[i - header - 1] == lines[i]);
        lemma_table_rows_hold(body, i - header - 1);
        let k = choose|k: int| 0 <= k < rows.len() && rows[k] == row_candidate(lines[i]);
        assert(plan.contains(rows[k]));
    }
}

/// What occurs in a trimmed line of a text occurs in the text.
proof fn lemma_in_line_in_text(s: Seq<char>, i: int, p: Seq<char>)
    requires
        0 <= i < split_lines(s).len(),
        has_infix(trim(split_lines(s)[i]), p),
    ensures
        has_infix(s, p),
{
    let line = split_lines(s)[i];
    lemma_line_is_infix(s, i);
    lemma_trim_is_infix(line);
    lemma_infix_transitive(line, trim(line), p);
    lemma_infix_transitive(s, line, p);
}

/// A text with a header among its lines looks like it holds a table.
pub proof fn lemma_header_looks_tabular(s: Seq<char>, i: int)
    requires
        0 <= i < split_lines(s).len(),
        is_header(trim(split_lines(s)[i])),
    ensures
        looks_tabular(s),
{
    let line = trim(split_lines(s)[i]);
    lemma_prefix_is_infix(line, "Name"@);
    lemma_in_line_in_text(s, i, "Name"@);
    lemma_in_line_in_text(s, i, "Action"@);
    if has_infix(line, "Version"@) {
        lemma_in_line_in_text(s, i, "Version"@);
    } else {
        lemma_in_line_in_text(s, i, "Current"@);
    }
    if has_infix(line, "New"@) {
        lemma_in_line_in_text(s, i, "New"@);
    } else {
        lemma_in_line_in_text(s, i, "New version"@);
    }
}

/// Lines without a data line give no row.
proof fn lemma_scan_without_data(
    st: ScanState,
    lines: Seq<Seq<char>>,
    installed: Map<Seq<char>, Seq<char>>,
)
    requires
        forall|i: int|
            0 <= i < lines.len() ==> classify(trim(#[trigger] lines[i])) != LineKind::Data,
    ensures
        scan_lines(st, lines, installed).len() == 0,
    decreases lines.len(),
{
    if lines.len() > 0 {
        let (next, row) = scan_line(st, lines[0], installed);
        let rest = lines.drop_first();
        assert forall|i: int| 0 <= i < rest.len() implies classify(trim(#[trigger] rest[i]))
            != LineKind::Data by {
            assert(rest[i] == lines[i + 1]);
        }
        lemma_scan_without_data(next, rest, installed);
    }
}

/// A preview that holds a header and, besides, nothing but blank lines,
/// chatter and headers is refused with a parse failure: it is never read as
/// an empty plan.
pub proof fn lemma_header_without_rows(
    text: Seq<char>,
    installed: Map<Seq<char>, Seq<char>>,
    result: Result<Seq<SysUpdateView>, VxErrorView>,
    header: int,
)
    requires
        forall|i: int|
            0 <= i < split_lines(without_ansi(text)).len() ==> classify(
                trim(#[trigger] split_lines(without_ansi(text))[i]),
            ) != LineKind::Data,
        0 <= header < split_lines(without_ansi(text)).len(),
        classify(trim(split_lines(without_ansi(text))[header])) == LineKind::Header,
        is_preview_result(text, installed, result),
    ensures
        result == Err::<Seq<SysUpdateView>, _>(
            VxErrorView { kind: ErrorKind::Parse, message: empty_table_message() },
        ),
{
    let clean = without_ansi(text);
    lemma_scan_without_data(scan_start(), split_lines(clean), installed);
    lemma_header_looks_tabular(clean, header);
}

/// In every row of a preview, what the package becomes begins with the
/// name of the package and a hyphen.
pub proof fn lemma_rows_name_their_package(
    st: ScanState,
    lines: Seq<Seq<char>>,
    installed: Map<Seq<char>, Seq<char>>,
)
    ensures
        forall|i: int|
            0 <= i < scan_lines(st, lines, installed).len() ==> has_prefix(
                (#[trigger] scan_lines(st, lines, installed)[i]).to,
                scan_lines(st, lines, installed)[i].name + "-"@,
            ),
    decreases lines.len(),
{
    if lines.len() > 0 {
        let (next, row) = scan_line(st, lines[0], installed);
        let rest = scan_lines(next, lines.drop_first(), installed);
        lemma_rows_name_their_package(next, lines.drop_first(), installed);
        let all = scan_lines(st, lines, installed);
        match row {
            Some(c) => {
                let head = c.name + "-"@;
                if st.in_table {
                    let cols = split_words(trim(lines[0]));
                    assert(c.to == head + cols[3]);
                    assert(c.to.take(head.len() as int) =~= head);
                } else {
                    let pkgver = split_words(trim(lines[0]))[0];
                    let i = last_of(pkgver, '-');
                    lemma_last_of(pkgver, '-');
                    reveal_strlit("-");
                    assert("-"@ =~= seq!['-']);
                    assert(pkgver.take(head.len() as int) =~= head);
                }
                assert forall|i: int| 0 <= i < all.len() implies has_prefix(
                    (#[trigger] all[i]).to,
                    all[i].name + "-"@,
                ) by {
                    if i > 0 {
                        assert(all[i] == rest[i - 1]);
                    }
                }
            },
            None => {},
        }
    }
}

/// The names of a plan, in its order.
pub open spec fn plan_names(plan: Seq<SysUpdateView>) -> Seq<Seq<char>> {
    Seq::new(plan.len(), |i: int| plan[i].name)
}

/// There is one plan of given rows, and no other: what reading a preview
/// gives is determined by the preview.
pub proof fn lemma_plan_unique(
    a: Seq<SysUpdateView>,
    b: Seq<SysUpdateView>,
    rows: Seq<SysUpdateView>,
)
    requires
        is_plan_of(a, rows),
        is_plan_of(b, rows),
    ensures
        a == b,
{
    let na = plan_names(a);
    let nb = plan_names(b);
    assert forall|x: Seq<char>| na.contains(x) <==> nb.contains(x) by {
        if na.contains(x) {
            let i = choose|i: int| 0 <= i < na.len() && na[i] == x;
            assert(rows_by_name(rows).contains_key(a[i].name));
            let k = choose|k: int| 0 <= k < b.len() && (#[trigger] b[k]).name == x;
            assert(nb[k] == x);
        }
        if nb.contains(x) {
            let i = choose|i: int| 0 <= i < nb.len() && nb[i] == x;
            assert(rows_by_name(rows).contains_key(b[i].name));
            let k = choose|k: int| 0 <= k < a.len() && (#[trigger] a[k]).name == x;
            assert(na[k] == x);
        }
    }
    assert forall|i: int, j: int| 0 <= i < j < na.len() implies lex_less(
        #[trigger] na[i],
        #[trigger] na[j],
    ) by {
        assert(lex_less(a[i].name, a[j].name));
    }
    assert forall|i: int, j: int| 0 <= i < j < nb.len() implies lex_less(
        #[trigger] nb[i],
        #[trigger] nb[j],
    ) by {
        assert(lex_less(b[i].name, b[j].name));
    }
    lemma_ascending_unique(na, nb);
    assert forall|i: int| 0 <= i < a.len() implies a[i] == b[i] by {
        assert(na[i] == nb[i]);
        assert(rows_by_name(rows)[a[i].name] == a[i]);
        assert(rows_by_name(rows)[b[i].name] == b[i]);
    }
    assert(a.len() == na.len() && b.len() == nb.len());
    assert(a =~= b);
}

/// What reading a preview gives is determined by the preview and the index.
pub proof fn lemma_preview_result_unique(
    text: Seq<char>,
    installed: Map<Seq<char>, Seq<char>>,
    a: Result<Seq<SysUpdateView>, VxErrorView>,
    b: Result<Seq<SysUpdateView>, VxErrorView>,
)
    requires
        is_preview_result(text, installed, a),
        is_preview_result(text, installed, b),
    ensures
        a == b,
{
    if a is Ok {
        lemma_plan_unique(a->Ok_0, b->Ok_0, preview_rows(text, installed));
    }
}

} // verus!
