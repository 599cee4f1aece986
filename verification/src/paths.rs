//! The parts of a file path that the library reads, taken from
//! `std::path::Path`.

use vstd::prelude::*;
use crate::text::deep_strings;

verus! {

/// The names of the components of a path (`Path::components`, each as its
/// `OsStr`): empty components and `.` components after the first are
/// dropped; a leading `/` and a leading `.` are components of their own.
pub uninterp spec fn path_components(path: Seq<char>) -> Seq<Seq<char>>;

/// The file name of a path without its extension (`Path::file_stem`).
pub uninterp spec fn path_file_stem(path: Seq<char>) -> Option<Seq<char>>;

/// The extension of the file name of a path (`Path::extension`).
pub uninterp spec fn path_extension(path: Seq<char>) -> Option<Seq<char>>;

/// Lists `Path::components` of `path`, each component as text. The
/// contract claims only that the result is the named list.
#[verifier::external_body]
pub(crate) fn component_names(path: &str) -> (r: Vec<String>)
    ensures
        deep_strings(r@) == path_components(path@),
{
    std::path::Path::new(path).components().map(
        |c| c.as_os_str().to_string_lossy().into_owned(),
    ).collect()
}

/// Calls `Path::file_stem` on `path` and gives the stem as text. The
/// contract claims only that the result is the named stem.
#[verifier::external_body]
pub(crate) fn file_stem_of(path: &str) -> (r: Option<String>)
    ensures
        match r {
            Some(s) => path_file_stem(path@) == Some(s@),
            None => path_file_stem(path@) is None,
        },
{
    std::path::Path::new(path).file_stem().map(|s| s.to_string_lossy().into_owned())
}

/// Calls `Path::extension` on `path` and gives the extension as text. The
/// contract claims only that the result is the named extension.
#[verifier::external_body]
pub(crate) fn extension_of(path: &str) -> (r: Option<String>)
    ensures
        match r {
            Some(s) => path_extension(path@) == Some(s@),
            None => path_extension(path@) is None,
        },
{
    std::path::Path::new(path).extension().map(|s| s.to_string_lossy().into_owned())
}

} // verus!
