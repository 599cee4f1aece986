//! Finding the source files that hold `#[mercury]` annotations: which paths
//! are scanned, and how the annotations of a file are counted.

use vstd::prelude::*;
use vstd::string::*;
use crate::error::MercuryError;
use crate::paths::{component_names, extension_of, path_components, path_extension};
use crate::text::{chars_of, deep_strings, str_eq, string_of};

verus! {

#[verifier::external_type_specification]
#[verifier::external_body]
pub struct ExRegex(regex::Regex);

#[verifier::external_type_specification]
#[verifier::external_body]
pub struct ExRegexError(regex::Error);

/// Whether `regex` accepts the pattern (within its default size limits).
pub uninterp spec fn regex_compiles(pattern: Seq<char>) -> bool;

/// Calls `regex::Regex::new` and keeps the compiled regex in a scanner,
/// together with a copy of the text it was compiled from. The contract claims that
/// compiling succeeds exactly when the pattern is what the name
/// `regex_compiles` stands for, and that the scanner's view is the pattern.
#[verifier::external_body]
fn compile_scanner(pattern: &str) -> (r: Result<AnnotationScanner, regex::Error>)
    ensures
        r is Ok <==> regex_compiles(pattern@),
        r matches Ok(s) ==> s@ == pattern@,
{
    match regex::Regex::new(pattern) {
        Ok(regex) => Ok(AnnotationScanner { regex, source: pattern.to_string() }),
        Err(e) => Err(e),
    }
}

/// The message of a `regex::Error` (its `Display`). Nothing is claimed of it.
#[verifier::external_body]
fn regex_error_text(e: &regex::Error) -> String {
    e.to_string()
}

/// The number of matches that `Regex::find_iter` gives in `haystack` for
/// the regex compiled from `pattern`: successive non-overlapping leftmost
/// matches, counted.
pub uninterp spec fn regex_match_count(pattern: Seq<char>, haystack: Seq<char>) -> nat;

/// Counts the matches that `Regex::find_iter` gives in `haystack` for the
/// scanner's compiled regex. A scanner is only made by `compile_scanner`,
/// which compiles its regex from the text that its view holds, so the
/// contract claims that the count is what `regex_match_count` names for
/// that text and the haystack.
#[verifier::external_body]
fn count_regex_matches(scanner: &AnnotationScanner, haystack: &str) -> (r: usize)
    ensures
        r == regex_match_count(scanner@, haystack@),
{
    scanner.regex.find_iter(haystack).count()
}

/// A file containing #[mercury] annotated types
#[derive(Debug)]
pub struct AnnotatedFile {
    /// Path to the source file
    pub path: String,
    /// Number of #[mercury] annotations found
    pub annotation_count: usize,
}

/// The names of the directories that are not scanned: build output,
/// version control, dependencies, and the generated frontend.
pub open spec fn excluded_name(name: Seq<char>) -> bool {
    name == "target"@ || name == ".git"@ || name == "node_modules"@ || name == "frontend"@ || name
        == "dist"@ || name == "build"@
}

/// Whether some component of the path is an excluded name.
pub open spec fn path_excluded(path: Seq<char>) -> bool {
    exists|i: int|
        0 <= i < path_components(path).len() && excluded_name(#[trigger] path_components(path)[i])
}

/// Check if a path should be excluded from scanning: some component is
/// `target`, `.git`, `node_modules`, `frontend`, `dist` or `build`.
pub fn is_excluded(path: &str) -> (r: bool)
    ensures
        r == path_excluded(path@),
{
    let names = component_names(path);
    let mut i: usize = 0;
    while i < names.len()
        invariant
            i <= names.len(),
            deep_strings(names@) == path_components(path@),
            forall|k: int| 0 <= k < i ==> !excluded_name(#[trigger] path_components(path@)[k]),
        decreases names.len() - i,
    {
        let n = names[i].as_str();
        assert(path_components(path@)[i as int] == names@[i as int]@);
        if str_eq(n, "target") || str_eq(n, ".git") || str_eq(n, "node_modules") || str_eq(
            n,
            "frontend",
        ) || str_eq(n, "dist") || str_eq(n, "build") {
            return true;
        }
        i += 1;
    }
    false
}

/// Whether a file is a Rust source file: its extension is `rs`.
pub fn is_rust_source(path: &str) -> (r: bool)
    ensures
        r == (path_extension(path@) == Some("rs"@)),
{
    match extension_of(path) {
        Some(ext) => str_eq(ext.as_str(), "rs"),
        None => false,
    }
}

/// The pattern of a `#[mercury]` annotation, with any white space around
/// its tokens.
pub open spec fn annotation_pattern() -> Seq<char> {
    "#\\s*\\[\\s*mercury\\s*\\]"@
}

/// The message of the error for a pattern that does not compile.
pub open spec fn invalid_regex_message(detail: Seq<char>) -> Seq<char> {
    "Invalid regex: "@ + detail
}

/// Counts the `#[mercury]` annotations of source files.
pub struct AnnotationScanner {
    /// The annotation pattern, compiled.
    regex: regex::Regex,
    /// The text the regex was compiled from.
    source: String,
}

impl View for AnnotationScanner {
    type V = Seq<char>;

    /// The pattern that the scanner's regex was compiled from.
    closed spec fn view(&self) -> Seq<char> {
        self.source@
    }
}

impl AnnotationScanner {

    /// Compiles the annotation pattern; a pattern that does not compile is a
    /// scan error.
    pub fn new() -> (r: Result<AnnotationScanner, MercuryError>)
        ensures
            r is Ok <==> regex_compiles(annotation_pattern()),
            r matches Ok(s) ==> s@ == annotation_pattern(),
            r is Err ==> (match r {
                Err(MercuryError::ScanError(msg)) => exists|d: Seq<char>|
                    msg@ == invalid_regex_message(d),
                _ => false,
            }),
    {
        match compile_scanner("#\\s*\\[\\s*mercury\\s*\\]") {
            Ok(scanner) => Ok(scanner),
            Err(e) => {
                let detail = regex_error_text(&e);
                let mut msg = string_of(&chars_of("Invalid regex: "));
                msg.append(detail.as_str());
                assert(msg@ == invalid_regex_message(detail@));
                Err(MercuryError::ScanError(msg))
            },
        }
    }

    /// The number of `#[mercury]` annotations in `contents`: the matches of
    /// the scanner's pattern that `find_iter` gives (for a scanner from
    /// `new`, the annotation pattern).
    pub fn count(&self, contents: &str) -> (r: usize)
        ensures
            r == regex_match_count(self@, contents@),
    {
        count_regex_matches(self, contents)
    }

    /// The annotated file for a source file: `Some` when its contents hold
    /// at least one annotation, with the count of them.
    pub fn annotated_file(&self, path: &str, contents: &str) -> (r: Option<AnnotatedFile>)
        ensures
            annotated_file_outcome(path@, regex_match_count(self@, contents@) as usize, r),
    {
        let annotation_count = self.count(contents);
        annotated_file_for(path, annotation_count)
    }
}

/// What `annotated_file_for` gives for a file with `count` annotations.
pub open spec fn annotated_file_outcome(path: Seq<char>, count: usize, r: Option<AnnotatedFile>) -> bool {
    match r {
        Some(f) => count > 0 && f.path@ == path && f.annotation_count == count,
        None => count == 0,
    }
}

/// The annotated file for a source file with `annotation_count`
/// annotations: `Some` exactly when there is at least one.
pub fn annotated_file_for(path: &str, annotation_count: usize) -> (r: Option<AnnotatedFile>)
    ensures
        annotated_file_outcome(path@, annotation_count, r),
{
    if annotation_count > 0 {
        Some(AnnotatedFile { path: string_of(&chars_of(path)), annotation_count })
    } else {
        None
    }
}

} // verus!
