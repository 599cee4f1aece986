//! Mercury: generation of PureScript types and Argonaut JSON codecs from
//! Rust type definitions marked `#[mercury]`.

pub mod text;
pub mod unicode;
pub mod serde_attrs;
pub mod types;
pub mod analyzer;
pub mod syntax;
pub mod codec_gen;
pub mod codegen;
pub mod parser;
pub mod error;
pub mod syn_access;
pub mod rust_source;
pub mod source_laws;
pub mod paths;
pub mod scanner;
pub mod order;
pub mod generation;
pub mod sources;
pub mod plan;

pub use error::MercuryError;
pub use plan::GenerationResult;
