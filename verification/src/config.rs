//! The user's settings, as far as planning reads them.

use crate::error::{ErrorKind, VxError, VxErrorView};
use crate::paths::{file_in, join_file, parent_dir, parent_of};
use crate::text::{from_chars, join2, lemma_trim_clean, to_chars, trim, trimmed};
use vstd::prelude::*;

verus! {

/// The settings of a user.
#[derive(Debug, Clone)]
pub struct Config {
    pub debug: bool,
    /// Where the checkout of the package definitions lies, if the file says so.
    pub void_packages_path: Option<String>,
    /// The binary repository, relative to the checkout.
    pub local_repo_rel: String,
    /// Whether `nonfree` repositories are searched too.
    pub use_nonfree: bool,
}

/// The settings of a user as a mathematical value.
pub struct ConfigView {
    pub debug: bool,
    pub void_packages_path: Option<Seq<char>>,
    pub local_repo_rel: Seq<char>,
    pub use_nonfree: bool,
}

impl View for Config {
    type V = ConfigView;

    open spec fn view(&self) -> ConfigView {
        ConfigView {
            debug: self.debug,
            void_packages_path: match self.void_packages_path {
                Some(p) => Some(p@),
                None => None,
            },
            local_repo_rel: self.local_repo_rel@,
            use_nonfree: self.use_nonfree,
        }
    }
}

/// The settings that the values of a configuration file give. A missing
/// value takes its default: no debugging, no path, the default repository,
/// `nonfree` in use. A path of nothing but whitespace is no path, and a path
/// loses the whitespace around it.
pub open spec fn config_of(
    debug: Option<bool>,
    path: Option<Seq<char>>,
    local_repo: Option<Seq<char>>,
    use_nonfree: Option<bool>,
) -> ConfigView {
    ConfigView {
        debug: debug == Some(true),
        void_packages_path: match path {
            Some(p) => if trim(p).len() == 0 {
                None
            } else {
                Some(trim(p))
            },
            None => None,
        },
        local_repo_rel: match local_repo {
            Some(r) => r,
            None => default_local_repo(),
        },
        use_nonfree: use_nonfree != Some(false),
    }
}

/// Whether the path of `c`, if it has one, is non-empty and has no whitespace
/// around it.
pub open spec fn has_clean_path(c: ConfigView) -> bool {
    match c.void_packages_path {
        Some(p) => p.len() > 0 && trim(p) == p,
        None => true,
    }
}

/// The binary repository of a checkout where the settings name none.
pub open spec fn default_local_repo() -> Seq<char> {
    "hostdir/binpkgs"@
}

impl Config {
    /// The settings that the values of a configuration file give.
    pub fn from_values(
        debug: Option<bool>,
        path: Option<String>,
        local_repo: Option<String>,
        use_nonfree: Option<bool>,
    ) -> (c: Config)
        ensures
            c@ == config_of(
                debug,
                match path {
                    Some(p) => Some(p@),
                    None => None,
                },
                match local_repo {
                    Some(r) => Some(r@),
                    None => None,
                },
                use_nonfree,
            ),
            has_clean_path(c@),
    {
        let void_packages_path = match path {
            Some(p) => {
                let t = trimmed(&to_chars(p.as_str()));
                if t.len() == 0 {
                    None
                } else {
                    Some(from_chars(&t))
                }
            },
            None => None,
        };
        let local_repo_rel = match local_repo {
            Some(r) => r,
            None => "hostdir/binpkgs".to_owned(),
        };
        proof {
            if path is Some {
                lemma_trim_clean(path->0@);
            }
        }
        Config {
            debug: match debug {
                Some(d) => d,
                None => false,
            },
            void_packages_path,
            local_repo_rel,
            use_nonfree: match use_nonfree {
                Some(u) => u,
                None => true,
            },
        }
    }
}

/// Where it is recorded that the user declined a first configuration: in
/// the file `.vx_bootstrap_asked` beside the settings. A path without a
/// directory above it is refused.
pub fn bootstrap_sentinel_path(config_path: &str) -> (r: Result<String, VxError>)
    ensures
        match r {
            Ok(path) => parent_dir(config_path@) is Some && path@ == file_in(
                parent_dir(config_path@)->0,
                ".vx_bootstrap_asked"@,
            ),
            Err(e) => parent_dir(config_path@) is None && e@ == (VxErrorView {
                kind: ErrorKind::Configuration,
                message: "invalid config path: "@ + config_path@,
            }),
        },
{
    match parent_of(config_path) {
        Some(dir) => Ok(join_file(dir.as_str(), ".vx_bootstrap_asked")),
        None => Err(
            VxError::new(ErrorKind::Configuration, join2("invalid config path: ", config_path)),
        ),
    }
}

/// The text of the settings that a user starts with.
pub open spec fn default_config() -> Seq<char> {
    "@author \"Dustin Pilgrim\"\n@description \"Unified Void package manager config (xbps + void-packages)\"\n\nbase:\n  debug false\nend\n\n# Optional. Only needed if you want `vx src ...` without setting VX_VOIDPKGS or using --voidpkgs.\nvoid_packages:\n  # Uncomment and set this variable to the location of your void-packages directory\n  #path \"$env.HOME/void-packages\"\n\n  # relative to void-packages root\n  local_repo \"hostdir/binpkgs\"\n\n  # if true, and a `nonfree/` repo exists under local_repo, VX will add it as -R too\n  use_nonfree true\nend\n"@
}

/// The text of the settings that a user starts with. It names no checkout:
/// the command line and the environment can name one.
pub fn default_config_text() -> (text: String)
    ensures
        text@ == default_config(),
{
    "@author \"Dustin Pilgrim\"\n@description \"Unified Void package manager config (xbps + void-packages)\"\n\nbase:\n  debug false\nend\n\n# Optional. Only needed if you want `vx src ...` without setting VX_VOIDPKGS or using --voidpkgs.\nvoid_packages:\n  # Uncomment and set this variable to the location of your void-packages directory\n  #path \"$env.HOME/void-packages\"\n\n  # relative to void-packages root\n  local_repo \"hostdir/binpkgs\"\n\n  # if true, and a `nonfree/` repo exists under local_repo, VX will add it as -R too\n  use_nonfree true\nend\n".to_owned()
}

} // verus!
