//! Searching the package definitions of a checkout by name.

use crate::error::{VxError, VxErrorView, usage, usage_error};
use crate::text::{contains, from_chars, has_infix, lower_seq, lowered, to_chars, trim, trimmed};
use vstd::prelude::*;

verus! {

/// The failure of a search without a term.
pub open spec fn no_term() -> VxErrorView {
    usage("usage: vx src search <term>"@)
}

/// What is searched for: the term without the whitespace around it, in
/// lower case.
pub open spec fn needle_of(term: Seq<char>) -> Seq<char> {
    lower_seq(trim(term))
}

/// What a term searches for; a blank term is refused.
pub fn search_needle(term: &str) -> (r: Result<String, VxError>)
    ensures
        match r {
            Ok(needle) => trim(term@).len() > 0 && needle@ == needle_of(term@),
            Err(e) => trim(term@).len() == 0 && e@ == no_term(),
        },
{
    let t = trimmed(&to_chars(term));
    if t.len() == 0 {
        Err(usage_error("usage: vx src search <term>"))
    } else {
        Ok(from_chars(&lowered(&t)))
    }
}

/// Whether the name of a package matches: where the needle occurs in it,
/// the case of the name apart.
pub fn name_matches(name: &str, needle: &str) -> (b: bool)
    ensures
        b == has_infix(lower_seq(name@), needle@),
{
    contains(&lowered(&to_chars(name)), &to_chars(needle))
}

/// `name` followed by as many blanks as it lacks to `width` characters.
pub open spec fn padded(name: Seq<char>, width: nat) -> Seq<char>
    decreases width - name.len(),
{
    if name.len() >= width {
        name
    } else {
        padded(name.push(' '), width)
    }
}

/// The line of a hit: whether the package is installed, its name, and its
/// version and revision where its definition gives them.
pub open spec fn hit_line(name: Seq<char>, version: Option<Seq<char>>, installed: bool) -> Seq<
    char,
> {
    let mark = if installed {
        "[*] "@
    } else {
        "[-] "@
    };
    match version {
        Some(v) => mark + padded(name, 20) + " "@ + v,
        None => mark + name,
    }
}

/// The line that shows one hit of a search.
pub fn search_line(name: &str, version: Option<&str>, installed: bool) -> (line: String)
    ensures
        line@ == hit_line(
            name@,
            match version {
                Some(v) => Some(v@),
                None => None,
            },
            installed,
        ),
{
    let mut line = if installed {
        "[*] ".to_owned()
    } else {
        "[-] ".to_owned()
    };
    match version {
        Some(v) => {
            let mut cell = to_chars(name);
            while cell.len() < 20
                invariant
                    padded(cell@, 20) == padded(name@, 20),
                decreases 20 - cell.len(),
            {
                cell.push(' ');
            }
            let cell = from_chars(&cell);
            line.append(cell.as_str());
            line.append(" ");
            line.append(v);
        },
        None => {
            line.append(name);
        },
    }
    line
}

} // verus!
