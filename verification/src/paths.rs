//! String-level helpers for paths and argument tokens: joining a glob pattern
//! under a base directory, forced-include argument tokens, and the file-suffix
//! test that selects the C or C++ compiler.

use vstd::prelude::*;
use vstd::string::StrSliceExecFns;
use vstd::string::StringExecFns;

verus! {

/// The pattern a folder hands to the filesystem: `root`, `folder` and
/// `pattern` joined with single `/` separators.
pub open spec fn joined_pattern(root: Seq<char>, folder: Seq<char>, pattern: Seq<char>) -> Seq<
    char,
> {
    root + "/"@ + folder + "/"@ + pattern
}

/// Joins `root`, `folder` and `pattern` with single `/` separators.
pub fn join_pattern(root: &str, folder: &str, pattern: &str) -> (r: String)
    ensures
        r@ == joined_pattern(root@, folder@, pattern@),
{
    let mut s: String = root.to_owned();
    s.append("/");
    s.append(folder);
    s.append("/");
    s.append(pattern);
    s
}

/// The forced-include argument token for one directory.
pub open spec fn include_arg(dir: Seq<char>) -> Seq<char> {
    "-include"@ + dir
}

/// Builds the forced-include argument token for one directory.
pub fn make_include_arg(dir: &str) -> (r: String)
    ensures
        r@ == include_arg(dir@),
{
    let mut s: String = "-include".to_owned();
    s.append(dir);
    s
}

/// `s` ends with `suffix`.
pub open spec fn has_suffix(s: Seq<char>, suffix: Seq<char>) -> bool {
    s.len() >= suffix.len() && s.subrange(s.len() - suffix.len(), s.len() as int) == suffix
}

/// Character-exact suffix test.
pub fn ends_with_str(s: &str, suffix: &str) -> (r: bool)
    ensures
        r == has_suffix(s@, suffix@),
{
    let n = s.unicode_len();
    let m = suffix.unicode_len();
    if m > n {
        return false;
    }
    let mut i: usize = 0;
    while i < m
        invariant
            n == s@.len(),
            m == suffix@.len(),
            m <= n,
            i <= m,
            forall|j: int| 0 <= j < i ==> s@[n - m + j] == suffix@[j],
        decreases m - i,
    {
        let sc = s.get_char(n - m + i);
        let tc = suffix.get_char(i);
        if sc != tc {
            proof {
                assert(s@.subrange(n - m, n as int)[i as int] != suffix@[i as int]);
            }
            return false;
        }
        i += 1;
    }
    proof {
        assert(s@.subrange(n - m, n as int) =~= suffix@);
    }
    true
}

/// A path that the C++ compiler is selected for: it ends in `.cpp`, `.cxx`
/// or `.cc`.
pub open spec fn spec_is_cpp_path(p: Seq<char>) -> bool {
    has_suffix(p, ".cpp"@) || has_suffix(p, ".cxx"@) || has_suffix(p, ".cc"@)
}

/// Decides whether the C++ compiler is selected for `p`.
pub fn is_cpp_path(p: &str) -> (r: bool)
    ensures
        r == spec_is_cpp_path(p@),
{
    if ends_with_str(p, ".cpp") {
        true
    } else if ends_with_str(p, ".cxx") {
        true
    } else {
        ends_with_str(p, ".cc")
    }
}

} // verus!
