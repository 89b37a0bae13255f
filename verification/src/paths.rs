//! Where this tool keeps its files.

use crate::error::{ErrorKind, VxError, VxErrorView};
use crate::text::{from_chars, join3, last_of, lemma_last_of_at, slice, to_chars};
use vstd::prelude::*;

verus! {

/// The user's configuration directory, as `dirs::config_dir` finds it in the
/// environment: nothing is claimed of it. A path that is no Unicode text
/// counts as none.
#[verifier::external_body]
fn config_dir() -> (dir: Option<String>) {
    match dirs::config_dir() {
        Some(p) => p.into_os_string().into_string().ok(),
        None => None,
    }
}

/// The text of the failure of a user without a configuration directory.
pub open spec fn no_config_dir() -> VxErrorView {
    VxErrorView { kind: ErrorKind::Configuration, message: "could not locate config dir"@ }
}

/// The file `name` of this tool under the configuration directory `base`.
pub fn config_file_in(base: Option<&str>, name: &str) -> (r: Result<String, VxError>)
    ensures
        match r {
            Ok(path) => base is Some && path@ == base->0@ + "/vx/"@ + name@,
            Err(e) => base is None && e@ == no_config_dir(),
        },
{
    match base {
        Some(b) => Ok(join3(b, "/vx/", name)),
        None => Err(
            VxError::new(ErrorKind::Configuration, "could not locate config dir".to_owned()),
        ),
    }
}

/// Whether `path` is the file `name` of this tool under some directory.
pub open spec fn is_config_file(path: Seq<char>, name: Seq<char>) -> bool {
    exists|base: Seq<char>| path == base + "/vx/"@ + name
}

/// Where the settings of the user lie.
pub fn user_config_path() -> (r: Result<String, VxError>)
    ensures
        match r {
            Ok(path) => is_config_file(path@, "vx.rune"@),
            Err(e) => e@ == no_config_dir(),
        },
{
    let base = config_dir();
    match base {
        Some(b) => config_file_in(Some(b.as_str()), "vx.rune"),
        None => config_file_in(None, "vx.rune"),
    }
}

/// Where the managed list of the user lies.
pub fn managed_src_path() -> (r: Result<String, VxError>)
    ensures
        match r {
            Ok(path) => is_config_file(path@, "managed-src.rune"@),
            Err(e) => e@ == no_config_dir(),
        },
{
    let base = config_dir();
    match base {
        Some(b) => config_file_in(Some(b.as_str()), "managed-src.rune"),
        None => config_file_in(None, "managed-src.rune"),
    }
}

/// `p` without the slashes at its end.
pub open spec fn without_trailing_slashes(p: Seq<char>) -> Seq<char>
    decreases p.len(),
{
    if p.len() > 0 && p.last() == '/' {
        without_trailing_slashes(p.drop_last())
    } else {
        p
    }
}

/// The directory that holds `path`: `path` without its last component. The
/// root and the empty path have none; a path of one component lies in the
/// empty path.
pub open spec fn parent_dir(path: Seq<char>) -> Option<Seq<char>> {
    let p = without_trailing_slashes(path);
    if p.len() == 0 {
        None
    } else {
        let i = last_of(p, '/');
        if i < 0 {
            Some(Seq::empty())
        } else {
            let q = without_trailing_slashes(p.take(i));
            if q.len() == 0 {
                Some(seq!['/'])
            } else {
                Some(q)
            }
        }
    }
}

/// Slashes from `j` on, and none right before: what is left is the first `j`
/// characters.
proof fn lemma_without_trailing_slashes_at(p: Seq<char>, j: int)
    requires
        0 <= j <= p.len(),
        forall|k: int| j <= k < p.len() ==> #[trigger] p[k] == '/',
        j == 0 || p[j - 1] != '/',
    ensures
        without_trailing_slashes(p) == p.take(j),
    decreases p.len() - j,
{
    if j == p.len() {
        assert(p.take(j) =~= p);
    } else {
        let t = p.drop_last();
        assert forall|k: int| j <= k < t.len() implies #[trigger] t[k] == '/' by {
            assert(t[k] == p[k]);
        }
        lemma_without_trailing_slashes_at(t, j);
        assert(t.take(j) =~= p.take(j));
    }
}

/// The number of characters of `p` before the slashes at its end.
fn trimmed_len(p: &Vec<char>, upto: usize) -> (j: usize)
    requires
        upto <= p.len(),
    ensures
        j <= upto,
        without_trailing_slashes(p@.take(upto as int)) == p@.take(j as int),
{
    let mut j: usize = upto;
    while j > 0 && p[j - 1] == '/'
        invariant
            j <= upto <= p.len(),
            forall|k: int| j <= k < upto ==> #[trigger] p@[k] == '/',
        decreases j,
    {
        j -= 1;
    }
    proof {
        let t = p@.take(upto as int);
        assert forall|k: int| j <= k < t.len() implies #[trigger] t[k] == '/' by {
            assert(t[k] == p@[k]);
        }
        if j > 0 {
            assert(t[j - 1] == p@[j - 1]);
        }
        lemma_without_trailing_slashes_at(t, j as int);
        assert(t.take(j as int) =~= p@.take(j as int));
    }
    j
}

/// The directory that holds `path`.
pub fn parent_of(path: &str) -> (r: Option<String>)
    ensures
        match r {
            Some(dir) => parent_dir(path@) == Some(dir@),
            None => parent_dir(path@) is None,
        },
{
    let chars = to_chars(path);
    assert(chars@.take(chars.len() as int) =~= chars@);
    let n = trimmed_len(&chars, chars.len());
    if n == 0 {
        return None;
    }
    let ghost p = chars@.take(n as int);
    let mut i: usize = n;
    while i > 0 && chars[i - 1] != '/'
        invariant
            i <= n <= chars.len(),
            p == chars@.take(n as int),
            forall|k: int| i <= k < n ==> #[trigger] p[k] != '/',
        decreases i,
    {
        i -= 1;
    }
    proof {
        if i > 0 {
            assert(p[i - 1] == chars@[i - 1]);
        }
        lemma_last_of_at(p, '/', i - 1);
    }
    if i == 0 {
        return Some(String::new());
    }
    let m = trimmed_len(&chars, i - 1);
    proof {
        assert(p.take(i - 1) =~= chars@.take(i - 1));
    }
    if m == 0 {
        let root = "/".to_owned();
        proof {
            reveal_strlit("/");
            assert(root@ =~= seq!['/']);
        }
        Some(root)
    } else {
        let dir = slice(&chars, 0, m);
        assert(chars@.subrange(0, m as int) =~= chars@.take(m as int));
        Some(from_chars(&dir))
    }
}

/// The file `name` in the directory `dir`; in the empty path it is `name`
/// itself.
pub open spec fn file_in(dir: Seq<char>, name: Seq<char>) -> Seq<char> {
    if dir.len() == 0 {
        name
    } else {
        dir + "/"@ + name
    }
}

/// The file `name` in the directory `dir`.
pub fn join_file(dir: &str, name: &str) -> (path: String)
    ensures
        path@ == file_in(dir@, name@),
{
    if dir.unicode_len() == 0 {
        name.to_owned()
    } else {
        join3(dir, "/", name)
    }
}

} // verus!
