//! File-system paths, held as text. Path arithmetic is delegated to
//! `std::path` and `pathdiff`; each result is named by an uninterpreted
//! function of the texts given. Those functions are fixed for the target
//! the library is compiled for (Unix or Windows path rules), so they hold
//! within one build.

use std::path::Path;
use vstd::prelude::*;

verus! {

/// What `pathdiff::diff_paths(path, base)` answers, as text.
pub uninterp spec fn diff_paths_of(path: Seq<char>, base: Seq<char>) -> Option<Seq<char>>;

/// What `Path::with_extension(ext)` answers for a path, as text.
pub uninterp spec fn path_with_extension(path: Seq<char>, ext: Seq<char>) -> Seq<char>;

/// What `Path::with_file_name(name)` answers for a path, as text.
pub uninterp spec fn path_with_file_name(path: Seq<char>, name: Seq<char>) -> Seq<char>;

/// What `Path::file_stem` answers for a path, as text.
pub uninterp spec fn path_file_stem(path: Seq<char>) -> Option<Seq<char>>;

/// What `Path::file_name` answers for a path, as text.
pub uninterp spec fn path_file_name(path: Seq<char>) -> Option<Seq<char>>;

/// What `Path::parent` answers for a path, as text.
pub uninterp spec fn path_parent(path: Seq<char>) -> Option<Seq<char>>;

/// What `Path::strip_prefix(prefix)` answers for a path, as text.
pub uninterp spec fn path_strip_prefix(path: Seq<char>, prefix: Seq<char>) -> Option<Seq<char>>;

/// What `Path::join` answers, as text.
pub uninterp spec fn path_join(path: Seq<char>, rest: Seq<char>) -> Seq<char>;

/// What `Path::is_absolute` answers for a path.
pub uninterp spec fn path_is_absolute(path: Seq<char>) -> bool;

/// The text of a path rebuilt from its `Path::components`: repeated
/// separators and `.` components (but a leading one) left out, and no
/// trailing separator. Two paths are equal as `Path`s exactly when they have
/// the same components, so this text is the key a `PathBuf`-keyed map looks
/// them up by.
pub uninterp spec fn path_key(path: Seq<char>) -> Seq<char>;

/// `Path::components`, collected back into a `PathBuf`, as text.
#[verifier::external_body]
pub(crate) fn components_key(path: &str) -> (r: String)
    ensures
        r@ == path_key(path@),
{
    Path::new(path).components().collect::<std::path::PathBuf>().to_string_lossy().into_owned()
}

/// What `Path == Path` answers for two paths: whether they have the same
/// components (so `a/./b` and `a//b` equal `a/b`).
pub uninterp spec fn path_equal(a: Seq<char>, b: Seq<char>) -> bool;

/// `Path::eq`: the two paths have the same components.
#[verifier::external_body]
pub(crate) fn same_path(a: &str, b: &str) -> (r: bool)
    ensures
        r == path_equal(a@, b@),
{
    Path::new(a) == Path::new(b)
}

/// `Path::is_absolute`.
#[verifier::external_body]
pub(crate) fn is_absolute(path: &str) -> (r: bool)
    ensures
        r == path_is_absolute(path@),
{
    Path::new(path).is_absolute()
}

/// `pathdiff::diff_paths`: the relative path from `base` to `path`. Its
/// result is a function of the two paths; a result that is not valid UTF-8
/// (which cannot arise from UTF-8 inputs) would be `None`.
#[verifier::external_body]
pub(crate) fn diff_paths(path: &str, base: &str) -> (r: Option<String>)
    ensures
        r matches Some(s) ==> diff_paths_of(path@, base@) == Some(s@),
        r is None ==> diff_paths_of(path@, base@) is None,
{
    pathdiff::diff_paths(path, base).and_then(|p| p.to_str().map(String::from))
}

/// `Path::with_extension`. It panics when the extension holds a path
/// separator (`/`, or a backslash on Windows), which the `requires` excludes.
#[verifier::external_body]
pub(crate) fn with_extension(path: &str, ext: &str) -> (r: String)
    requires
        !ext@.contains('/'),
        !ext@.contains('\\'),
    ensures
        r@ == path_with_extension(path@, ext@),
{
    Path::new(path).with_extension(ext).to_string_lossy().into_owned()
}

/// `Path::with_file_name`.
#[verifier::external_body]
pub(crate) fn with_file_name(path: &str, name: &str) -> (r: String)
    ensures
        r@ == path_with_file_name(path@, name@),
{
    Path::new(path).with_file_name(name).to_string_lossy().into_owned()
}

/// `Path::file_stem`.
#[verifier::external_body]
pub(crate) fn file_stem(path: &str) -> (r: Option<String>)
    ensures
        r matches Some(s) ==> path_file_stem(path@) == Some(s@),
        r is None ==> path_file_stem(path@) is None,
{
    Path::new(path).file_stem().map(|s| s.to_string_lossy().into_owned())
}

/// `Path::file_name`.
#[verifier::external_body]
pub(crate) fn file_name(path: &str) -> (r: Option<String>)
    ensures
        r matches Some(s) ==> path_file_name(path@) == Some(s@),
        r is None ==> path_file_name(path@) is None,
{
    Path::new(path).file_name().map(|s| s.to_string_lossy().into_owned())
}

/// `Path::parent`.
#[verifier::external_body]
pub(crate) fn parent(path: &str) -> (r: Option<String>)
    ensures
        r matches Some(s) ==> path_parent(path@) == Some(s@),
        r is None ==> path_parent(path@) is None,
{
    Path::new(path).parent().map(|p| p.to_string_lossy().into_owned())
}

/// `Path::strip_prefix`.
#[verifier::external_body]
pub(crate) fn strip_prefix(path: &str, prefix: &str) -> (r: Option<String>)
    ensures
        r matches Some(s) ==> path_strip_prefix(path@, prefix@) == Some(s@),
        r is None ==> path_strip_prefix(path@, prefix@) is None,
{
    Path::new(path).strip_prefix(prefix).ok().map(|p| p.to_string_lossy().into_owned())
}

/// `Path::join`.
#[verifier::external_body]
pub(crate) fn join(path: &str, rest: &str) -> (r: String)
    ensures
        r@ == path_join(path@, rest@),
{
    Path::new(path).join(rest).to_string_lossy().into_owned()
}

} // verus!
