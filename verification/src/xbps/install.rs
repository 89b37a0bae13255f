//! Installing, removing and updating packages: which packages a request
//! comes to, and the command that is handed to the package manager.

use crate::error::{VxError, usage, usage_error};
use crate::source::add::{is_installed_at, select_wanted, wanted};
use crate::text::{extend_texts, join3, push_text, same, strs, to_chars};
use vstd::prelude::*;

verus! {

/// The words of a command of the package manager: the tool under `sudo`,
/// the options, `-y` where the user confirmed already, and the packages.
pub open spec fn command_words(
    tool: Seq<char>,
    opts: Seq<Seq<char>>,
    args: Seq<Seq<char>>,
    yes: bool,
) -> Seq<Seq<char>> {
    seq!["sudo"@, tool] + opts + (if yes {
        seq!["-y"@]
    } else {
        Seq::empty()
    }) + args
}

/// The words of a command of the package manager.
fn command(tool: &str, opts: &Vec<String>, args: &Vec<String>, yes: bool) -> (words: Vec<String>)
    ensures
        strs(words@) == command_words(tool@, strs(opts@), strs(args@), yes),
{
    let mut words: Vec<String> = Vec::new();
    assert(strs(words@) =~= Seq::<Seq<char>>::empty());
    push_text(&mut words, "sudo".to_owned());
    push_text(&mut words, tool.to_owned());
    assert(strs(words@) =~= seq!["sudo"@, tool@]);
    extend_texts(&mut words, opts);
    if yes {
        push_text(&mut words, "-y".to_owned());
    }
    assert(strs(words@) =~= seq!["sudo"@, tool@] + strs(opts@) + (if yes {
        seq!["-y"@]
    } else {
        Seq::empty()
    }));
    extend_texts(&mut words, args);
    words
}

/// The command that installs `args` with the options `opts`.
pub fn run_install_cmd(opts: &Vec<String>, args: &Vec<String>, yes: bool) -> (words: Vec<String>)
    ensures
        strs(words@) == command_words("xbps-install"@, strs(opts@), strs(args@), yes),
{
    command("xbps-install", opts, args, yes)
}

/// The command that removes `args` with the options `opts`.
pub fn run_remove_cmd(opts: &Vec<String>, args: &Vec<String>, yes: bool) -> (words: Vec<String>)
    ensures
        strs(words@) == command_words("xbps-remove"@, strs(opts@), strs(args@), yes),
{
    command("xbps-remove", opts, args, yes)
}

/// The command that updates the system after synchronising.
pub fn up_with_yes(yes: bool) -> (words: Vec<String>)
    ensures
        strs(words@) == command_words(
            "xbps-install"@,
            seq!["-Su"@],
            Seq::<Seq<char>>::empty(),
            yes,
        ),
{
    let mut opts: Vec<String> = Vec::new();
    opts.push("-Su".to_owned());
    assert(strs(opts@) =~= seq!["-Su"@]);
    let none: Vec<String> = Vec::new();
    assert(strs(none@) =~= Seq::<Seq<char>>::empty());
    command("xbps-install", &opts, &none, yes)
}

/// The command that an installation comes to: none where every package is
/// installed already; else the installation, after synchronising, of those
/// that are not.
pub open spec fn add_command(pkgs: Seq<Seq<char>>, installed: Seq<bool>, yes: bool) -> Option<
    Seq<Seq<char>>,
> {
    if wanted(pkgs, installed, false).len() == 0 {
        None
    } else {
        Some(command_words("xbps-install"@, seq!["-S"@], wanted(pkgs, installed, false), yes))
    }
}

/// Decides what the installation of `pkgs` comes to. `installed` says of
/// each package whether it is installed. A request without packages is
/// refused.
pub fn add(pkgs: &Vec<String>, installed: &Vec<bool>, yes: bool) -> (r: Result<
    Option<Vec<String>>,
    VxError,
>)
    ensures
        match r {
            Ok(Some(words)) => pkgs.len() > 0 && add_command(strs(pkgs@), installed@, yes) == Some(
                strs(words@),
            ),
            Ok(None) => pkgs.len() > 0 && add_command(strs(pkgs@), installed@, yes) is None,
            Err(e) => pkgs.len() == 0 && e@ == usage("usage: vx add <pkg> [pkg...]"@),
        },
{
    if pkgs.len() == 0 {
        return Err(
            usage_error("usage: vx add <pkg> [pkg...]"),
        );
    }
    let (to_install, _) = select_wanted(pkgs, installed, false);
    if to_install.len() == 0 {
        return Ok(None);
    }
    let mut opts: Vec<String> = Vec::new();
    opts.push("-S".to_owned());
    assert(strs(opts@) =~= seq!["-S"@]);
    Ok(Some(command("xbps-install", &opts, &to_install, yes)))
}

/// The packages of a request that are installed, in order.
pub open spec fn removable(pkgs: Seq<Seq<char>>, installed: Seq<bool>) -> Seq<Seq<char>>
    decreases pkgs.len(),
{
    if pkgs.len() == 0 {
        Seq::empty()
    } else {
        let before = removable(pkgs.drop_last(), installed);
        if is_installed_at(installed, pkgs.len() - 1) {
            before.push(pkgs.last())
        } else {
            before
        }
    }
}

/// The warnings for the packages of a request that are not installed, in
/// order.
pub open spec fn missing_warnings(pkgs: Seq<Seq<char>>, installed: Seq<bool>) -> Seq<Seq<char>>
    decreases pkgs.len(),
{
    if pkgs.len() == 0 {
        Seq::empty()
    } else {
        let before = missing_warnings(pkgs.drop_last(), installed);
        if is_installed_at(installed, pkgs.len() - 1) {
            before
        } else {
            before.push("package '"@ + pkgs.last() + "' not installed."@)
        }
    }
}

/// Those of `names`, in order, that are among `managed`.
pub open spec fn managed_among(names: Seq<Seq<char>>, managed: Seq<Seq<char>>) -> Seq<Seq<char>>
    decreases names.len(),
{
    if names.len() == 0 {
        Seq::empty()
    } else {
        let before = managed_among(names.drop_last(), managed);
        if managed.contains(names.last()) {
            before.push(names.last())
        } else {
            before
        }
    }
}

/// What a removal comes to.
#[derive(Debug, Clone, PartialEq, Eq)]
pub struct Removal {
    /// The packages to remove: those of the request that are installed.
    pub to_remove: Vec<String>,
    /// Those of them that the managed list holds, and loses once the removal
    /// succeeded.
    pub to_untrack: Vec<String>,
    /// A warning for each package of the request that is not installed.
    pub warnings: Vec<String>,
}

/// Whether `list` holds `name`.
fn holds(list: &Vec<String>, name: &str) -> (b: bool)
    ensures
        b == strs(list@).contains(name@),
{
    let key = to_chars(name);
    let mut i: usize = 0;
    while i < list.len()
        invariant
            i <= list.len(),
            key@ == name@,
            forall|k: int| 0 <= k < i ==> #[trigger] strs(list@)[k] != name@,
        decreases list.len() - i,
    {
        if same(&to_chars(list[i].as_str()), &key) {
            assert(strs(list@)[i as int] == name@);
            return true;
        }
        i += 1;
    }
    false
}

/// Decides what the removal of `pkgs` comes to. `installed` says of each
/// package whether it is installed, `managed` is the managed list. A request
/// without packages is refused.
pub fn rm(pkgs: &Vec<String>, installed: &Vec<bool>, managed: &Vec<String>) -> (r: Result<
    Removal,
    VxError,
>)
    ensures
        match r {
            Ok(plan) => pkgs.len() > 0 && strs(plan.to_remove@) == removable(
                strs(pkgs@),
                installed@,
            ) && strs(plan.to_untrack@) == managed_among(
                removable(strs(pkgs@), installed@),
                strs(managed@),
            ) && strs(plan.warnings@) == missing_warnings(strs(pkgs@), installed@),
            Err(e) => pkgs.len() == 0 && e@ == usage("usage: vx rm <pkg> [pkg...]"@),
        },
{
    if pkgs.len() == 0 {
        return Err(
            usage_error("usage: vx rm <pkg> [pkg...]"),
        );
    }
    let ghost all = strs(pkgs@);
    let mut to_remove: Vec<String> = Vec::new();
    let mut to_untrack: Vec<String> = Vec::new();
    let mut warnings: Vec<String> = Vec::new();
    let mut k: usize = 0;
    assert(all.take(0) =~= Seq::<Seq<char>>::empty());
    assert(strs(to_remove@) =~= Seq::<Seq<char>>::empty());
    assert(strs(to_untrack@) =~= Seq::<Seq<char>>::empty());
    assert(strs(warnings@) =~= Seq::<Seq<char>>::empty());
    while k < pkgs.len()
        invariant
            k <= pkgs.len(),
            all == strs(pkgs@),
            strs(to_remove@) == removable(all.take(k as int), installed@),
            strs(to_untrack@) == managed_among(
                removable(all.take(k as int), installed@),
                strs(managed@),
            ),
            strs(warnings@) == missing_warnings(all.take(k as int), installed@),
        decreases pkgs.len() - k,
    {
        proof {
            assert(all.take(k + 1).last() == pkgs@[k as int]@);
            assert(all.take(k + 1).drop_last() =~= all.take(k as int));
        }
        if k < installed.len() && installed[k] {
            let ghost before = strs(to_remove@);
            push_text(&mut to_remove, pkgs[k].clone());
            assert(before.push(pkgs@[k as int]@).drop_last() =~= before);
            if holds(managed, pkgs[k].as_str()) {
                push_text(&mut to_untrack, pkgs[k].clone());
            }
        } else {
            push_text(&mut warnings, join3("package '", pkgs[k].as_str(), "' not installed."));
        }
        k += 1;
    }
    assert(all.take(pkgs.len() as int) =~= all);
    Ok(Removal { to_remove, to_untrack, warnings })
}

} // verus!
