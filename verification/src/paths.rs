//! Path strings in the POSIX form the orchestrator works with.
//!
//! Paths are held as text. Joining and sanitising are defined here on
//! characters; taking a path apart into parent and final component is left
//! to the standard library.

use crate::text::{append_chars, from_chars, to_chars};
use vstd::prelude::*;

verus! {

/// A path is absolute when it starts at the root.
pub open spec fn spec_is_absolute(p: Seq<char>) -> bool {
    p.len() > 0 && p[0] == '/'
}

/// Tells whether `p` starts at the root.
pub fn is_absolute(p: &str) -> (r: bool)
    ensures
        r == spec_is_absolute(p@),
{
    if p.unicode_len() == 0 {
        false
    } else {
        p.get_char(0) == '/'
    }
}

/// `rel` adjoined to `base`: an absolute `rel` stands alone; otherwise one
/// `/` separates the two unless `base` is empty or already ends in `/`.
pub open spec fn spec_join_path(base: Seq<char>, rel: Seq<char>) -> Seq<char> {
    if spec_is_absolute(rel) || base.len() == 0 {
        rel
    } else if base.last() == '/' {
        base + rel
    } else {
        base.push('/') + rel
    }
}

/// Adjoins `rel` to `base`.
pub fn join_path(base: &str, rel: &str) -> (r: String)
    ensures
        r@ == spec_join_path(base@, rel@),
{
    let b = to_chars(base);
    let t = to_chars(rel);
    if (t.len() > 0 && t[0] == '/') || b.len() == 0 {
        return from_chars(&t);
    }
    let mut out: Vec<char> = Vec::new();
    append_chars(&mut out, &b);
    if b[b.len() - 1] != '/' {
        out.push('/');
    }
    append_chars(&mut out, &t);
    assert(out@ =~= spec_join_path(base@, rel@));
    from_chars(&out)
}

/// Characters that may not appear in a file name derived from a package
/// name or version.
pub open spec fn is_unsafe_name_char(c: char) -> bool {
    c == '/' || c == '\\' || c == ' ' || c == ':'
}

/// `name` with every unsafe character replaced by `_`.
pub open spec fn spec_sanitize_name(name: Seq<char>) -> Seq<char> {
    Seq::new(
        name.len(),
        |i: int|
            if is_unsafe_name_char(name[i]) {
                '_'
            } else {
                name[i]
            },
    )
}

/// Makes a package name or version safe to use as a file name.
pub fn sanitize_name(name: &str) -> (r: String)
    ensures
        r@ == spec_sanitize_name(name@),
{
    let v = to_chars(name);
    let mut out: Vec<char> = Vec::new();
    let mut i: usize = 0;
    while i < v.len()
        invariant
            i <= v.len(),
            out.len() == i,
            forall|j: int| 0 <= j < i ==> out@[j] == spec_sanitize_name(v@)[j],
        decreases v.len() - i,
    {
        let c = v[i];
        if c == '/' || c == '\\' || c == ' ' || c == ':' {
            out.push('_');
        } else {
            out.push(c);
        }
        i += 1;
    }
    assert(out@ =~= spec_sanitize_name(name@));
    from_chars(&out)
}

/// `name` with every `/` replaced by `#`.
pub open spec fn spec_cache_key(name: Seq<char>) -> Seq<char> {
    Seq::new(
        name.len(),
        |i: int|
            if name[i] == '/' {
                '#'
            } else {
                name[i]
            },
    )
}

/// The form of a package name used in version-cache file names.
pub fn cache_key(name: &str) -> (r: String)
    ensures
        r@ == spec_cache_key(name@),
{
    let v = to_chars(name);
    let mut out: Vec<char> = Vec::new();
    let mut i: usize = 0;
    while i < v.len()
        invariant
            i <= v.len(),
            out.len() == i,
            forall|j: int| 0 <= j < i ==> out@[j] == spec_cache_key(v@)[j],
        decreases v.len() - i,
    {
        let c = v[i];
        if c == '/' {
            out.push('#');
        } else {
            out.push(c);
        }
        i += 1;
    }
    assert(out@ =~= spec_cache_key(name@));
    from_chars(&out)
}

/// The path without its final component, as `std::path::Path::parent`
/// gives it; `None` when the path ends in a root or is empty.
pub uninterp spec fn path_parent(p: Seq<char>) -> Option<Seq<char>>;

/// The final component of the path, as `std::path::Path::file_name` gives
/// it; `None` when the path ends in `..` or has no component.
pub uninterp spec fn path_file_name(p: Seq<char>) -> Option<Seq<char>>;

/// The directory that holds `p`.
///
/// Trusted: stands for `std::path::Path::parent`. The contract only names
/// the result; it is a function of the path text alone.
#[verifier::external_body]
pub(crate) fn parent_of(p: &str) -> (r: Option<String>)
    ensures
        crate::text::opt_view(r) == path_parent(p@),
{
    std::path::Path::new(p).parent().map(|d| d.to_string_lossy().into_owned())
}

/// The last component of `p`.
///
/// Trusted: stands for `std::path::Path::file_name`. The contract only
/// names the result; it is a function of the path text alone.
#[verifier::external_body]
pub(crate) fn file_name_of(p: &str) -> (r: Option<String>)
    ensures
        crate::text::opt_view(r) == path_file_name(p@),
{
    std::path::Path::new(p).file_name().map(|n| n.to_string_lossy().into_owned())
}

/// The final component of the path without its extension, as
/// `std::path::Path::file_stem` gives it; `None` when the path has no file
/// name.
pub uninterp spec fn path_file_stem(p: Seq<char>) -> Option<Seq<char>>;

/// The last component of `p` without its extension.
///
/// Trusted: stands for `std::path::Path::file_stem`. The contract only
/// names the result; it is a function of the path text alone.
#[verifier::external_body]
pub(crate) fn file_stem_of(p: &str) -> (r: Option<String>)
    ensures
        crate::text::opt_view(r) == path_file_stem(p@),
{
    std::path::Path::new(p).file_stem().map(|n| n.to_string_lossy().into_owned())
}

} // verus!
