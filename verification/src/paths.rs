//! File-system paths, held as UTF-8 strings.
//!
//! The parsing of a path into components is `std::path`'s: what `Path::file_name`,
//! `Path::join`, `Path::with_file_name` and `Path::with_extension` return is named
//! below and reached through one wrapper each. The extension and the stem of a path are
//! stated over its file name, as the documentation of `Path::extension` and
//! `Path::file_stem` defines them.
use vstd::prelude::*;
use crate::text::{after_last, opt_view};

verus! {

/// The last component of `p`, as `Path::file_name` gives it.
pub uninterp spec fn path_file_name(p: Seq<char>) -> Option<Seq<char>>;

/// `base` joined with `p`, as `Path::join` gives it.
pub uninterp spec fn path_join(base: Seq<char>, p: Seq<char>) -> Seq<char>;

/// `p` with its file name replaced by `name`, as `Path::with_file_name` gives it.
pub uninterp spec fn path_with_file_name(p: Seq<char>, name: Seq<char>) -> Seq<char>;

/// `p` with its extension replaced by `ext`, as `Path::with_extension` gives it.
pub uninterp spec fn path_with_extension(p: Seq<char>, ext: Seq<char>) -> Seq<char>;

/// Whether two paths are equal component by component, as `Path`'s `==` decides.
pub uninterp spec fn path_eq(a: Seq<char>, b: Seq<char>) -> bool;

/// The extension of a file name: the text after its last `.`, unless there is no `.`
/// or the only one begins the name.
pub open spec fn extension_of_name(n: Seq<char>) -> Option<Seq<char>> {
    let k = after_last(n, '.');
    if k <= 1 {
        None
    } else {
        Some(n.skip(k))
    }
}

/// The stem of a file name: the text before its last `.`, or the whole name where
/// [`extension_of_name`] finds no extension.
pub open spec fn stem_of_name(n: Seq<char>) -> Seq<char> {
    let k = after_last(n, '.');
    if k <= 1 {
        n
    } else {
        n.take(k - 1)
    }
}

/// `Path::extension`.
pub open spec fn path_extension(p: Seq<char>) -> Option<Seq<char>> {
    match path_file_name(p) {
        Some(n) => extension_of_name(n),
        None => None,
    }
}

/// `Path::file_stem`.
pub open spec fn path_file_stem(p: Seq<char>) -> Option<Seq<char>> {
    match path_file_name(p) {
        Some(n) => Some(stem_of_name(n)),
        None => None,
    }
}

/// Calls `Path::file_name`; the result is the named [`path_file_name`]. A component of
/// a UTF-8 path is UTF-8, so the conversion back to a string always succeeds.
#[verifier::external_body]
pub(crate) fn file_name_of(p: &str) -> (r: Option<String>)
    ensures
        opt_view(r) == path_file_name(p@),
{
    std::path::Path::new(p).file_name().and_then(|n| n.to_str()).map(|n| n.to_string())
}

/// Calls `Path::extension`, which the documentation defines over the file name
/// ([`path_extension`]).
#[verifier::external_body]
pub(crate) fn extension_of(p: &str) -> (r: Option<String>)
    ensures
        opt_view(r) == path_extension(p@),
{
    std::path::Path::new(p).extension().and_then(|e| e.to_str()).map(|e| e.to_string())
}

/// Calls `Path::file_stem`, which the documentation defines over the file name
/// ([`path_file_stem`]).
#[verifier::external_body]
pub(crate) fn file_stem_of(p: &str) -> (r: Option<String>)
    ensures
        opt_view(r) == path_file_stem(p@),
{
    std::path::Path::new(p).file_stem().and_then(|s| s.to_str()).map(|s| s.to_string())
}

/// Calls `Path::join`; the result is the named [`path_join`]. Joining UTF-8 paths
/// gives a UTF-8 path, so the lossy conversion loses nothing.
#[verifier::external_body]
pub(crate) fn join_path(base: &str, p: &str) -> (r: String)
    ensures
        r@ == path_join(base@, p@),
{
    std::path::Path::new(base).join(p).to_string_lossy().into_owned()
}

/// Calls `Path::with_file_name`; the result is the named [`path_with_file_name`].
#[verifier::external_body]
pub(crate) fn with_file_name(p: &str, name: &str) -> (r: String)
    ensures
        r@ == path_with_file_name(p@, name@),
{
    std::path::Path::new(p).with_file_name(name).to_string_lossy().into_owned()
}

/// Whether `s` holds neither `/` nor a backslash: those are the characters that a
/// path separator can be, `/` on every platform and the backslash on Windows besides.
pub open spec fn separator_free(s: Seq<char>) -> bool {
    forall|i: int| 0 <= i < s.len() ==> #[trigger] s[i] != '/' && s[i] != '\\'
}

/// Whether `s` is [`separator_free`], so that it can stand as an extension on every
/// platform.
pub fn is_separator_free(s: &str) -> (r: bool)
    ensures
        r == separator_free(s@),
{
    let v = crate::text::chars_of(s);
    let mut i: usize = 0;
    while i < v.len()
        invariant
            i <= v@.len(),
            v@ == s@,
            forall|k: int| 0 <= k < i ==> #[trigger] v@[k] != '/' && v@[k] != '\\',
        decreases v@.len() - i,
    {
        if v[i] == '/' || v[i] == '\\' {
            return false;
        }
        i = i + 1;
    }
    true
}

/// Calls `Path::with_extension`; the result is the named [`path_with_extension`].
/// `Path::with_extension` panics where the extension holds a path separator, so the
/// extension must be [`separator_free`].
#[verifier::external_body]
pub(crate) fn with_extension(p: &str, ext: &str) -> (r: String)
    requires
        separator_free(ext@),
    ensures
        r@ == path_with_extension(p@, ext@),
{
    std::path::Path::new(p).with_extension(ext).to_string_lossy().into_owned()
}


/// Compares two paths with `Path`'s `==`; the result is the named [`path_eq`].
#[verifier::external_body]
pub(crate) fn paths_equal(a: &str, b: &str) -> (r: bool)
    ensures
        r == path_eq(a@, b@),
{
    std::path::Path::new(a) == std::path::Path::new(b)
}

} // verus!
