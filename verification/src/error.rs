//! Errors of Mercury code generation.

use vstd::prelude::*;

verus! {

/// Errors that can occur during Mercury code generation. Paths are held as
/// text, and the I/O errors that the reading and writing of files give are
/// held by their message.
#[derive(Debug)]
pub enum MercuryError {
    /// Error scanning workspace for annotated files
    ScanError(String),
    /// Error reading a file
    FileReadError { path: String, source: String },
    /// Error parsing Rust source code
    ParseError { file: String, message: String },
    /// Unsupported type encountered
    UnsupportedType { rust_type: String, file: String, line: usize, suggestion: String },
    /// Conflicting serde attributes
    SerdeAttributeConflict {
        type_ident: String,
        field_name: String,
        file: String,
        line: usize,
        details: String,
    },
    /// Error generating PureScript code
    CodegenError { type_ident: String, reason: String },
    /// Error writing output file
    FileWriteError { path: String, source: String },
    /// Generic IO error
    IoError(String),
    /// Generic error
    Other(String),
}

/// Result type alias using MercuryError
pub type MercuryResult<T> = core::result::Result<T, MercuryError>;

} // verus!
