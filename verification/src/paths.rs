//! Path resolution for file references inside the declaration document.
//! Paths are plain strings: absolute ones pass through, relative ones are
//! joined onto a base directory. No filesystem access happens here.

use vstd::prelude::*;
use vstd::string::StrSliceExecFns;
use vstd::string::StringExecFns;

verus! {

/// Whether a path string is absolute.
pub open spec fn spec_is_absolute(p: Seq<char>) -> bool {
    p.len() > 0 && p[0] == '/'
}

/// Joining a relative path onto a directory, inserting a separator only
/// where one is needed.
pub open spec fn spec_join(base: Seq<char>, p: Seq<char>) -> Seq<char> {
    if base.len() == 0 {
        p
    } else if base.last() == '/' {
        base + p
    } else {
        base + "/"@ + p
    }
}

/// The path a reference resolves to: absolute references pass through,
/// relative ones resolve against the base directory.
pub open spec fn spec_resolve(base: Seq<char>, p: Seq<char>) -> Seq<char> {
    if spec_is_absolute(p) {
        p
    } else {
        spec_join(base, p)
    }
}

/// Checks whether a path string is absolute.
pub fn is_absolute(p: &str) -> (r: bool)
    ensures
        r == spec_is_absolute(p@),
{
    p.unicode_len() > 0 && p.get_char(0) == '/'
}

/// Resolves a path against a base directory if it is relative; an
/// absolute path is returned unchanged.
pub fn resolve_against_base(base_dir: &str, p: &str) -> (r: String)
    ensures
        r@ == spec_resolve(base_dir@, p@),
{
    if is_absolute(p) {
        return String::from_str(p);
    }
    let blen = base_dir.unicode_len();
    if blen == 0 {
        return String::from_str(p);
    }
    if base_dir.get_char(blen - 1) == '/' {
        let s = String::from_str(base_dir);
        s.concat(p)
    } else {
        let s = String::from_str(base_dir);
        let s = s.concat("/");
        s.concat(p)
    }
}

/// Makes a path absolute for error reporting, resolving a relative one
/// against the caller's working directory.
pub fn absolutize_for_errors(cwd: &str, p: &str) -> (r: String)
    ensures
        r@ == spec_resolve(cwd@, p@),
{
    resolve_against_base(cwd, p)
}

/// The index of the last separator in a path, or -1 when it has none.
pub open spec fn spec_last_slash(s: Seq<char>) -> int
    decreases s.len(),
{
    if s.len() == 0 {
        -1
    } else if s.last() == '/' {
        s.len() - 1
    } else {
        spec_last_slash(s.drop_last())
    }
}

/// The directory against which a declaration document's file references
/// resolve: the document's parent directory, or the caller's working
/// directory when the document path has none.
pub open spec fn spec_base_dir(yaml_path: Seq<char>, cwd: Seq<char>) -> Seq<char> {
    let idx = spec_last_slash(yaml_path);
    if idx < 0 {
        cwd
    } else if idx == 0 {
        "/"@
    } else {
        yaml_path.take(idx)
    }
}

/// Derives the base directory from the declaration document's own path.
pub fn base_dir_from_yaml_path(yaml_path: &str, cwd: &str) -> (r: String)
    ensures
        r@ == spec_base_dir(yaml_path@, cwd@),
{
    let n = yaml_path.unicode_len();
    let mut j: usize = n;
    proof {
        assert(yaml_path@.take(n as int) =~= yaml_path@);
    }
    while j > 0 && yaml_path.get_char(j - 1) != '/'
        invariant
            j <= n,
            n == yaml_path@.len(),
            spec_last_slash(yaml_path@.take(j as int)) == spec_last_slash(yaml_path@),
        decreases j,
    {
        proof {
            let pre = yaml_path@.take(j as int);
            assert(pre.drop_last() =~= yaml_path@.take(j as int - 1));
            assert(pre.last() == yaml_path@[j as int - 1]);
        }
        j = j - 1;
    }
    proof {
        if j == 0 {
            assert(yaml_path@.take(0) =~= Seq::<char>::empty());
            assert(spec_last_slash(yaml_path@) == -1);
        } else {
            let pre = yaml_path@.take(j as int);
            assert(pre.last() == yaml_path@[j as int - 1]);
            assert(spec_last_slash(pre) == j - 1);
        }
    }
    if j == 0 {
        String::from_str(cwd)
    } else if j - 1 == 0 {
        String::from_str("/")
    } else {
        let parent = yaml_path.substring_char(0, j - 1);
        String::from_str(parent)
    }
}

} // verus!
