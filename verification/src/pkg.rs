//! Work on the definition of one package: what a request asks the helper
//! tools to do.

use crate::cli::PkgCmd;
use crate::error::{VxError, VxErrorView, usage, usage_error};
use crate::text::{from_chars, push_text, strs, to_chars, trim, trimmed};
use vstd::prelude::*;

verus! {

/// What a request on a package definition comes to.
#[derive(Debug, Clone, PartialEq, Eq)]
pub enum PkgAction {
    /// Make the definition of a new package with this name.
    New { name: String },
    /// Regenerate the checksums of a definition: the arguments of the tool.
    Gensum { args: Vec<String> },
}

/// A request as a mathematical value.
pub enum PkgActionView {
    New { name: Seq<char> },
    Gensum { args: Seq<Seq<char>> },
}

impl View for PkgAction {
    type V = PkgActionView;

    open spec fn view(&self) -> PkgActionView {
        match self {
            PkgAction::New { name } => PkgActionView::New { name: name@ },
            PkgAction::Gensum { args } => PkgActionView::Gensum { args: strs(args@) },
        }
    }
}

/// The arguments with which the checksums of `pkg` are regenerated: always
/// in place; forced and by content where asked; for an architecture and with
/// a host directory where one is named.
pub open spec fn gensum_words(
    pkg: Seq<char>,
    force: bool,
    content: bool,
    arch: Option<Seq<char>>,
    hostdir: Option<Seq<char>>,
) -> Seq<Seq<char>> {
    seq!["-i"@] + (if force {
        seq!["-f"@]
    } else {
        Seq::empty()
    }) + (if content {
        seq!["-c"@]
    } else {
        Seq::empty()
    }) + (if arch is Some && trim(arch->0).len() > 0 {
        seq!["-a"@, trim(arch->0)]
    } else {
        Seq::empty()
    }) + (if hostdir is Some && hostdir->0.len() > 0 {
        seq!["-H"@, hostdir->0]
    } else {
        Seq::empty()
    }) + seq![pkg]
}

/// What a request on a package definition comes to. A subcommand decides;
/// without one the checksums are regenerated where that is asked for. A
/// request that names no package, or asks for nothing, is refused with its
/// usage.
pub open spec fn pkg_request(
    name: Option<Seq<char>>,
    new_name: Option<Seq<char>>,
    gensum: bool,
    force: bool,
    content: bool,
    arch: Option<Seq<char>>,
    hostdir: Option<Seq<char>>,
) -> Result<PkgActionView, VxErrorView> {
    if new_name is Some {
        if trim(new_name->0).len() == 0 {
            Err(usage("usage: vx pkg new <name>"@))
        } else {
            Ok(PkgActionView::New { name: trim(new_name->0) })
        }
    } else if gensum {
        if name is None || trim(name->0).len() == 0 {
            Err(usage("usage: vx pkg <name> --gensum"@))
        } else {
            Ok(
                PkgActionView::Gensum {
                    args: gensum_words(trim(name->0), force, content, arch, hostdir),
                },
            )
        }
    } else {
        Err(usage("usage: vx pkg <name> --gensum   OR   vx pkg new <name>"@))
    }
}

/// `s` without the whitespace around it.
fn clean(s: &str) -> (r: String)
    ensures
        r@ == trim(s@),
{
    from_chars(&trimmed(&to_chars(s)))
}

/// Decides what a request on a package definition comes to.
pub fn pkg_action(
    name: Option<&str>,
    cmd: Option<&PkgCmd>,
    gensum: bool,
    force: bool,
    content: bool,
    arch: Option<&str>,
    hostdir: Option<&str>,
) -> (r: Result<PkgAction, VxError>)
    ensures
        match r {
            Ok(action) => pkg_request(
                match name {
                    Some(n) => Some(n@),
                    None => None,
                },
                match cmd {
                    Some(c) => Some(c->name@),
                    None => None,
                },
                gensum,
                force,
                content,
                match arch {
                    Some(a) => Some(a@),
                    None => None,
                },
                match hostdir {
                    Some(h) => Some(h@),
                    None => None,
                },
            ) == Ok::<_, VxErrorView>(action@),
            Err(e) => pkg_request(
                match name {
                    Some(n) => Some(n@),
                    None => None,
                },
                match cmd {
                    Some(c) => Some(c->name@),
                    None => None,
                },
                gensum,
                force,
                content,
                match arch {
                    Some(a) => Some(a@),
                    None => None,
                },
                match hostdir {
                    Some(h) => Some(h@),
                    None => None,
                },
            ) == Err::<PkgActionView, _>(e@),
        },
{
    match cmd {
        Some(PkgCmd::New { name: new_name }) => {
            let n = clean(new_name.as_str());
            if n.as_str().unicode_len() == 0 {
                return Err(
                    usage_error("usage: vx pkg new <name>"),
                );
            }
            return Ok(PkgAction::New { name: n });
        },
        None => {},
    }
    if !gensum {
        return Err(
            usage_error("usage: vx pkg <name> --gensum   OR   vx pkg new <name>"),
        );
    }
    let pkg = match name {
        Some(n) => clean(n),
        None => String::new(),
    };
    if pkg.as_str().unicode_len() == 0 {
        return Err(
            usage_error("usage: vx pkg <name> --gensum"),
        );
    }
    let mut args: Vec<String> = Vec::new();
    assert(strs(args@) =~= Seq::<Seq<char>>::empty());
    push_text(&mut args, "-i".to_owned());
    if force {
        push_text(&mut args, "-f".to_owned());
    }
    if content {
        push_text(&mut args, "-c".to_owned());
    }
    match arch {
        Some(a) => {
            let a = clean(a);
            if a.as_str().unicode_len() > 0 {
                push_text(&mut args, "-a".to_owned());
                push_text(&mut args, a);
            }
        },
        None => {},
    }
    match hostdir {
        Some(h) => {
            if h.unicode_len() > 0 {
                push_text(&mut args, "-H".to_owned());
                push_text(&mut args, h.to_owned());
            }
        },
        None => {},
    }
    push_text(&mut args, pkg);
    assert(strs(args@) =~= gensum_words(
        trim(name->0@),
        force,
        content,
        match arch {
            Some(a) => Some(a@),
            None => None,
        },
        match hostdir {
            Some(h) => Some(h@),
            None => None,
        },
    ));
    Ok(PkgAction::Gensum { args })
}

} // verus!
