//! The summary of a plan, and the reading of the user's answer to it.

use crate::log::Log;
use crate::source::plan::{SrcUpdate, SrcUpdateView, src_updates_view};
use crate::text::{join4, lower_seq, lowered, push_text, same, strs, to_chars, trim, trimmed};
use crate::xbps::parse::not_installed;
use crate::xbps::plan::{SysUpdate, SysUpdateView, updates_view};
use vstd::prelude::*;

verus! {

/// The line that shows a change: the name, what is there, and what comes.
pub open spec fn change_line(indent: Seq<char>, name: Seq<char>, from: Seq<char>, to: Seq<char>)
    -> Seq<char> {
    indent + name + "  "@ + from + " → "@ + to
}

/// The line of a system update.
pub open spec fn sys_line(indent: Seq<char>, u: SysUpdateView) -> Seq<char> {
    change_line(indent, u.name, u.from, u.to)
}

/// The line of a source update; a package that is not installed shows as
/// such.
pub open spec fn src_line(indent: Seq<char>, u: SrcUpdateView) -> Seq<char> {
    change_line(
        indent,
        u.name,
        match u.installed {
            Some(v) => v,
            None => not_installed(),
        },
        u.candidate,
    )
}

/// The lines of the system updates, or the line that says that there are
/// none.
pub open spec fn sys_lines(sys: Seq<SysUpdateView>) -> Seq<Seq<char>> {
    if sys.len() == 0 {
        seq!["    (no system updates found)"@]
    } else {
        Seq::new(sys.len(), |i: int| sys_line("    "@, sys[i]))
    }
}

/// The lines of the source updates.
pub open spec fn src_lines(indent: Seq<char>, src: Seq<SrcUpdateView>) -> Seq<Seq<char>> {
    Seq::new(src.len(), |i: int| src_line(indent, src[i]))
}

/// The summary of an update of the system and of the source packages: none
/// where output is quiet.
pub open spec fn up_all_summary(quiet: bool, sys: Seq<SysUpdateView>, src: Seq<SrcUpdateView>)
    -> Seq<Seq<char>> {
    if quiet {
        Seq::empty()
    } else {
        seq!["Summary:"@, "  system: xbps-install -Su"@] + sys_lines(sys)
            + seq!["  source: vx-managed packages"@] + (if src.len() == 0 {
            seq!["    (no source updates found)"@]
        } else {
            src_lines("    "@, src)
        })
    }
}

/// The summary of an update of source packages: none where output is quiet.
pub open spec fn src_plan_summary(quiet: bool, plan: Seq<SrcUpdateView>) -> Seq<Seq<char>> {
    if quiet {
        Seq::empty()
    } else {
        seq!["vx: source update plan"@] + src_lines("  "@, plan)
    }
}

/// The line that shows a change.
fn show_change(indent: &str, name: &str, from: &str, to: &str) -> (line: String)
    ensures
        line@ == change_line(indent@, name@, from@, to@),
{
    let mut line = join4(indent, name, "  ", from);
    line.append(" → ");
    line.append(to);
    line
}

/// The line of a source update.
fn show_src(indent: &str, u: &SrcUpdate) -> (line: String)
    ensures
        line@ == src_line(indent@, u@),
{
    match &u.installed {
        Some(v) => show_change(indent, u.name.as_str(), v.as_str(), u.candidate.as_str()),
        None => show_change(indent, u.name.as_str(), "<not installed>", u.candidate.as_str()),
    }
}

/// Puts the lines of the source updates at the end of `lines`.
fn push_src_lines(
    lines: &mut Vec<String>,
    indent: &str,
    src: &Vec<SrcUpdate>,
)
    ensures
        strs(final(lines)@) == strs(old(lines)@) + src_lines(indent@, src_updates_view(src@)),
{
    let ghost head = strs(lines@);
    let ghost all = src_lines(indent@, src_updates_view(src@));
    let mut i: usize = 0;
    assert(head + all.take(0) =~= head);
    while i < src.len()
        invariant
            i <= src.len(),
            all == src_lines(indent@, src_updates_view(src@)),
            strs(lines@) == head + all.take(i as int),
        decreases src.len() - i,
    {
        let line = show_src(indent, &src[i]);
        push_text(lines, line);
        assert(head + all.take(i + 1) =~= (head + all.take(i as int)).push(all[i as int]));
        i += 1;
    }
    assert(all.take(src.len() as int) =~= all);
}

/// The lines that sum an update of the system and of the source packages
/// up.
pub fn print_up_all_summary(log: &Log, sys: &Vec<SysUpdate>, src: &Vec<SrcUpdate>) -> (lines: Vec<
    String,
>)
    ensures
        strs(lines@) == up_all_summary(log.quiet, updates_view(sys@), src_updates_view(src@)),
{
    let mut lines: Vec<String> = Vec::new();
    assert(strs(lines@) =~= Seq::<Seq<char>>::empty());
    if log.quiet {
        return lines;
    }
    push_text(&mut lines, "Summary:".to_owned());
    push_text(&mut lines, "  system: xbps-install -Su".to_owned());
    let ghost head = strs(lines@);
    assert(head =~= seq!["Summary:"@, "  system: xbps-install -Su"@]);
    if sys.len() == 0 {
        push_text(&mut lines, "    (no system updates found)".to_owned());
        assert(strs(lines@) =~= head + sys_lines(updates_view(sys@)));
    } else {
        let ghost all = sys_lines(updates_view(sys@));
        let mut i: usize = 0;
        assert(head + all.take(0) =~= head);
        while i < sys.len()
            invariant
                i <= sys.len(),
                sys.len() > 0,
                all == sys_lines(updates_view(sys@)),
                strs(lines@) == head + all.take(i as int),
            decreases sys.len() - i,
        {
            let u = &sys[i];
            let line = show_change("    ", u.name.as_str(), u.from.as_str(), u.to.as_str());
            push_text(&mut lines, line);
            assert(head + all.take(i + 1) =~= (head + all.take(i as int)).push(all[i as int]));
            i += 1;
        }
        assert(all.take(sys.len() as int) =~= all);
    }
    push_text(&mut lines, "  source: vx-managed packages".to_owned());
    let ghost mid = strs(lines@);
    assert(mid =~= head + sys_lines(updates_view(sys@)) + seq!["  source: vx-managed packages"@]);
    if src.len() == 0 {
        push_text(&mut lines, "    (no source updates found)".to_owned());
        assert(strs(lines@) =~= mid + seq!["    (no source updates found)"@]);
    } else {
        push_src_lines(&mut lines, "    ", src);
    }
    lines
}

/// The lines that sum an update of source packages up.
pub fn print_src_plan_summary(log: &Log, plan: &Vec<SrcUpdate>) -> (lines: Vec<String>)
    ensures
        strs(lines@) == src_plan_summary(log.quiet, src_updates_view(plan@)),
{
    let mut lines: Vec<String> = Vec::new();
    assert(strs(lines@) =~= Seq::<Seq<char>>::empty());
    if log.quiet {
        return lines;
    }
    push_text(&mut lines, "vx: source update plan".to_owned());
    assert(strs(lines@) =~= seq!["vx: source update plan"@]);
    push_src_lines(&mut lines, "  ", plan);
    lines
}

/// The question that is put to the user once before changes are made.
pub fn confirm_prompt(prompt: &str) -> (text: String)
    ensures
        text@ == prompt@ + " [Y/n] "@,
{
    let mut text = prompt.to_owned();
    text.append(" [Y/n] ");
    text
}

/// Whether an answer agrees: an empty line, `y` or `yes`, in any case,
/// whitespace around it apart.
pub open spec fn agrees(answer: Seq<char>) -> bool {
    let t = lower_seq(trim(answer));
    t.len() == 0 || t == "y"@ || t == "yes"@
}

/// Whether the user agreed. `answer` is the line that was read, if one could
/// be read; no line is no agreement.
pub fn confirm_once(answer: Option<&str>) -> (b: bool)
    ensures
        b == match answer {
            Some(a) => agrees(a@),
            None => false,
        },
{
    match answer {
        Some(a) => {
            let low = lowered(&trimmed(&to_chars(a)));
            low.len() == 0 || same(&low, &to_chars("y")) || same(&low, &to_chars("yes"))
        },
        None => false,
    }
}

} // verus!
