//! Where the checkout of the package definitions lies.

use crate::config::{Config, ConfigView, default_local_repo};
use crate::error::{ErrorKind, VxError, VxErrorView};
use vstd::prelude::*;

verus! {

/// The checkout that source commands work on.
#[derive(Debug, Clone)]
pub struct SrcResolved {
    /// The root of the checkout.
    pub voidpkgs: String,
    /// The binary repository, relative to the root.
    pub local_repo_rel: String,
    /// Whether `nonfree` repositories are searched too.
    pub use_nonfree: bool,
}

/// A resolved checkout as a mathematical value.
pub struct SrcResolvedView {
    pub voidpkgs: Seq<char>,
    pub local_repo_rel: Seq<char>,
    pub use_nonfree: bool,
}

impl View for SrcResolved {
    type V = SrcResolvedView;

    open spec fn view(&self) -> SrcResolvedView {
        SrcResolvedView {
            voidpkgs: self.voidpkgs@,
            local_repo_rel: self.local_repo_rel@,
            use_nonfree: self.use_nonfree,
        }
    }
}

/// The root of the checkout: what the command line gives; else a non-empty
/// value of the environment; else a non-empty path of the settings.
pub open spec fn resolved_root(
    given: Option<Seq<char>>,
    env: Option<Seq<char>>,
    cfg: Option<ConfigView>,
) -> Option<Seq<char>> {
    if given is Some {
        given
    } else if env is Some && env->0.len() > 0 {
        env
    } else if cfg is Some && cfg->0.void_packages_path is Some
        && cfg->0.void_packages_path->0.len() > 0 {
        cfg->0.void_packages_path
    } else {
        None
    }
}

/// The binary repository: that of the settings where they name one.
pub open spec fn resolved_local_repo(cfg: Option<ConfigView>) -> Seq<char> {
    if cfg is Some && cfg->0.local_repo_rel.len() > 0 {
        cfg->0.local_repo_rel
    } else {
        default_local_repo()
    }
}

/// The text of the failure that a missing checkout gives.
pub open spec fn missing_root_message() -> Seq<char> {
    "vx src requires a void-packages path.\nProvide one of:\n- --voidpkgs /path/to/void-packages\n- VX_VOIDPKGS=/path/to/void-packages\n- ~/.config/vx/vx.rune with void_packages.path\n"@
}

/// Finds the checkout: from the command line, else from the environment,
/// else from the settings. The repository and the use of `nonfree` come from
/// the settings, or are `hostdir/binpkgs` and `true` without them.
pub fn resolve_voidpkgs(given: Option<String>, env: Option<String>, cfg: Option<&Config>) -> (r:
    Result<SrcResolved, VxError>)
    ensures
        match r {
            Ok(res) => resolved_root(
                match given {
                    Some(p) => Some(p@),
                    None => None,
                },
                match env {
                    Some(p) => Some(p@),
                    None => None,
                },
                match cfg {
                    Some(c) => Some(c@),
                    None => None,
                },
            ) == Some(res@.voidpkgs) && res@.local_repo_rel == resolved_local_repo(
                match cfg {
                    Some(c) => Some(c@),
                    None => None,
                },
            ) && res.use_nonfree == (cfg is None || cfg->0.use_nonfree),
            Err(e) => resolved_root(
                match given {
                    Some(p) => Some(p@),
                    None => None,
                },
                match env {
                    Some(p) => Some(p@),
                    None => None,
                },
                match cfg {
                    Some(c) => Some(c@),
                    None => None,
                },
            ) is None && e@ == (VxErrorView {
                kind: ErrorKind::Configuration,
                message: missing_root_message(),
            }),
        },
{
    let mut local_repo_rel = "hostdir/binpkgs".to_owned();
    let mut use_nonfree = true;
    let mut from_cfg: Option<String> = None;
    match cfg {
        Some(c) => {
            if c.local_repo_rel.as_str().unicode_len() > 0 {
                local_repo_rel = c.local_repo_rel.clone();
            }
            use_nonfree = c.use_nonfree;
            match &c.void_packages_path {
                Some(p) => {
                    if p.as_str().unicode_len() > 0 {
                        from_cfg = Some(p.clone());
                    }
                },
                None => {},
            }
        },
        None => {},
    }
    let root = match given {
        Some(p) => Some(p),
        None => match env {
            Some(v) => if v.as_str().unicode_len() > 0 {
                Some(v)
            } else {
                from_cfg
            },
            None => from_cfg,
        },
    };
    match root {
        Some(voidpkgs) => Ok(SrcResolved { voidpkgs, local_repo_rel, use_nonfree }),
        None => Err(
            VxError::new(
                ErrorKind::Configuration,
                "vx src requires a void-packages path.\nProvide one of:\n- --voidpkgs /path/to/void-packages\n- VX_VOIDPKGS=/path/to/void-packages\n- ~/.config/vx/vx.rune with void_packages.path\n".to_owned(),
            ),
        ),
    }
}

/// Where the root of the checkout comes from.
#[derive(Clone, Copy, Debug, PartialEq, Eq, Structural)]
pub enum RootSource {
    /// The command line.
    Cli,
    /// The environment.
    Env,
    /// The settings.
    Config,
    /// Nowhere: no checkout is named.
    Unset,
}

/// Tells where the root of the checkout comes from, for the status report.
/// There an empty path on the command line names no checkout.
pub fn root_source(given: Option<&str>, env: Option<&str>, cfg: Option<&Config>) -> (r: RootSource)
    ensures
        r == if given is Some && given->0@.len() > 0 {
            RootSource::Cli
        } else if env is Some && env->0@.len() > 0 {
            RootSource::Env
        } else if cfg is Some && cfg->0@.void_packages_path is Some
            && cfg->0@.void_packages_path->0.len() > 0 {
            RootSource::Config
        } else {
            RootSource::Unset
        },
{
    let from_cli = match given {
        Some(p) => p.unicode_len() > 0,
        None => false,
    };
    let from_env = match env {
        Some(p) => p.unicode_len() > 0,
        None => false,
    };
    let from_cfg = match cfg {
        Some(c) => match &c.void_packages_path {
            Some(p) => p.as_str().unicode_len() > 0,
            None => false,
        },
        None => false,
    };
    if from_cli {
        RootSource::Cli
    } else if from_env {
        RootSource::Env
    } else if from_cfg {
        RootSource::Config
    } else {
        RootSource::Unset
    }
}

} // verus!
