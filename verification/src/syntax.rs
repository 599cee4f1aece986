//! The parts of Rust source syntax that type extraction reads, held as plain
//! values: items, their attributes, fields, variants and field types.

use vstd::prelude::*;

verus! {

/// An outer attribute such as `#[serde(rename_all = "camelCase")]`.
#[derive(Debug)]
pub struct AttrSyntax {
    /// The identifiers of the segments of the attribute's path.
    pub path_idents: Vec<String>,
    /// Whether the attribute's path is exactly the identifier `serde`.
    pub path_is_serde: bool,
    /// The attribute's meta item printed as tokens, e.g.
    /// `serde (rename_all = "camelCase")`.
    pub tokens: String,
}

/// The last segment of a type path, e.g. `Option<String>` in
/// `std::option::Option<String>`.
#[derive(Debug)]
pub struct PathSegmentSyntax {
    /// The segment's identifier.
    pub ident: String,
    /// The first generic argument in angle brackets, when there is one and it
    /// is a type.
    pub type_argument: Option<Box<TypeSyntax>>,
}

/// The type of a field.
#[derive(Debug)]
pub enum TypeSyntax {
    /// A path type; `None` when the path has no segments.
    Path { last_segment: Option<PathSegmentSyntax> },
    /// Any other type, with its debug text.
    Other { debug_text: String },
}

/// A named field of a struct.
#[derive(Debug)]
pub struct FieldSyntax {
    pub ident: String,
    pub ty: TypeSyntax,
    pub attrs: Vec<AttrSyntax>,
}

/// The fields of a struct.
#[derive(Debug)]
pub enum FieldsSyntax {
    Named(Vec<FieldSyntax>),
    Unnamed,
    Unit,
}

/// A variant of an enum.
#[derive(Debug)]
pub struct VariantSyntax {
    pub ident: String,
    pub attrs: Vec<AttrSyntax>,
}

/// A top-level item of a source file.
#[derive(Debug)]
pub enum ItemSyntax {
    Struct { ident: String, line: usize, attrs: Vec<AttrSyntax>, fields: FieldsSyntax },
    Enum { ident: String, line: usize, attrs: Vec<AttrSyntax>, variants: Vec<VariantSyntax> },
    Other,
}

/// How many levels of type arguments a type holds: `Vec<Option<u8>>` holds
/// two, `u8` none.
pub open spec fn type_nesting(t: TypeSyntax) -> nat
    decreases t,
{
    match t {
        TypeSyntax::Path { last_segment: Some(segment) } => match segment.type_argument {
            Some(inner) => 1 + type_nesting(*inner),
            None => 0,
        },
        _ => 0,
    }
}

/// Whether the types of all named fields hold at most `depth` levels of
/// type arguments.
pub open spec fn fields_within_depth(fields: FieldsSyntax, depth: nat) -> bool {
    match fields {
        FieldsSyntax::Named(fs) => forall|i: int|
            0 <= i < fs@.len() ==> type_nesting(#[trigger] fs@[i].ty) <= depth,
        _ => true,
    }
}

/// Whether an item is a struct whose field types hold at most `depth` levels
/// of type arguments, an enum, or another item.
pub open spec fn item_within_depth(item: ItemSyntax, depth: nat) -> bool {
    match item {
        ItemSyntax::Struct { fields, .. } => fields_within_depth(fields, depth),
        _ => true,
    }
}

} // verus!
