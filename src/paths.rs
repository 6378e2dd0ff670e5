//! Path strings: absolute paths, joining, and quoting for messages.

use vstd::prelude::*;
use vstd::string::*;

verus! {

/// A path is absolute when it starts with the separator.
pub open spec fn is_absolute(p: Seq<char>) -> bool {
    p.len() > 0 && p[0] == '/'
}

/// Adjoining `sub` to `prefix`: an absolute `sub` replaces the prefix, otherwise a
/// separator is put between them unless `prefix` is empty or already ends with one.
pub open spec fn joined(prefix: Seq<char>, sub: Seq<char>) -> Seq<char> {
    if is_absolute(sub) {
        sub
    } else if prefix.len() == 0 || prefix.last() == '/' {
        prefix + sub
    } else {
        prefix + seq!['/'] + sub
    }
}

/// `p` followed by a separator, unless it already ends with one.
pub open spec fn with_trailing_slash(p: Seq<char>) -> Seq<char> {
    if p.len() > 0 && p.last() == '/' {
        p
    } else {
        p.push('/')
    }
}

/// What `uniquote` renders for a string: the text between double quotes, escaped.
pub uninterp spec fn quoted(s: Seq<char>) -> Seq<char>;

/// Relies on `uniquote::Quote::quote` for `str`: its rendering depends on the
/// characters alone.
#[verifier::external_body]
pub fn quote(string: &str) -> (r: String)
    ensures
        r@ == quoted(string@),
{
    uniquote::Quote::quote(string).to_string()
}

/// Whether `path` starts with the separator.
pub fn path_is_absolute(path: &str) -> (r: bool)
    ensures
        r == is_absolute(path@),
{
    path.unicode_len() > 0 && path.get_char(0) == '/'
}

/// Adjoins `sub` to `prefix` the way `Path::join` does on Unix.
pub fn join_path(prefix: &str, sub: &str) -> (r: String)
    ensures
        r@ == joined(prefix@, sub@),
{
    proof {
        reveal_strlit("/");
    }
    if path_is_absolute(sub) {
        return String::from_str(sub);
    }
    let n = prefix.unicode_len();
    if n == 0 || prefix.get_char(n - 1) == '/' {
        String::from_str(prefix).concat(sub)
    } else {
        let r = String::from_str(prefix).concat("/").concat(sub);
        assert(r@ =~= prefix@ + seq!['/'] + sub@);
        r
    }
}

/// The source argument of a directory mirror: the path with a trailing separator, so
/// that the contents of the directory are mirrored rather than the directory itself.
pub fn add_trailing_slash(path: &str) -> (r: String)
    ensures
        r@ == with_trailing_slash(path@),
{
    proof {
        reveal_strlit("/");
    }
    let n = path.unicode_len();
    if n > 0 && path.get_char(n - 1) == '/' {
        String::from_str(path)
    } else {
        let r = String::from_str(path).concat("/");
        assert(r@ =~= path@.push('/'));
        r
    }
}

} // verus!
