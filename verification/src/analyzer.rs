//! Mapping of Rust types to PureScript types, and the PureScript text of a
//! type.

use vstd::prelude::*;
use vstd::string::*;
use crate::types::{RustType, RustTypeView};

verus! {

/// PureScript type representation
#[derive(Debug, PartialEq, Eq)]
pub enum PureScriptType {
    Int,
    Number,
    Boolean,
    String,
    Maybe(Box<PureScriptType>),
    Array(Box<PureScriptType>),
    Json,
    Custom(String),
}

/// The mathematical value of a `PureScriptType`.
pub enum PureScriptTypeView {
    Int,
    Number,
    Boolean,
    String,
    Maybe(Box<PureScriptTypeView>),
    Array(Box<PureScriptTypeView>),
    Json,
    Custom(Seq<char>),
}

/// The view of a `PureScriptType`, taken node by node.
pub open spec fn purescript_type_view(t: PureScriptType) -> PureScriptTypeView
    decreases t,
{
    match t {
        PureScriptType::Int => PureScriptTypeView::Int,
        PureScriptType::Number => PureScriptTypeView::Number,
        PureScriptType::Boolean => PureScriptTypeView::Boolean,
        PureScriptType::String => PureScriptTypeView::String,
        PureScriptType::Maybe(inner) => PureScriptTypeView::Maybe(
            Box::new(purescript_type_view(*inner)),
        ),
        PureScriptType::Array(inner) => PureScriptTypeView::Array(
            Box::new(purescript_type_view(*inner)),
        ),
        PureScriptType::Json => PureScriptTypeView::Json,
        PureScriptType::Custom(name) => PureScriptTypeView::Custom(name@),
    }
}

impl View for PureScriptType {
    type V = PureScriptTypeView;

    open spec fn view(&self) -> PureScriptTypeView {
        purescript_type_view(*self)
    }
}

/// The PureScript type that a Rust type maps to: `Option` to `Maybe`, `Vec`
/// to `Array`, integers to `Int`, floats and decimals to `Number`, date-times
/// to `String`, UUIDs to the custom type `UUID`, JSON values to `Json`,
/// custom types to themselves, and unsupported types to `String`.
pub open spec fn mapped_type(t: RustTypeView) -> PureScriptTypeView
    decreases t,
{
    match t {
        RustTypeView::Int => PureScriptTypeView::Int,
        RustTypeView::Float => PureScriptTypeView::Number,
        RustTypeView::Bool => PureScriptTypeView::Boolean,
        RustTypeView::String => PureScriptTypeView::String,
        RustTypeView::DateTime => PureScriptTypeView::String,
        RustTypeView::Uuid => PureScriptTypeView::Custom("UUID"@),
        RustTypeView::Decimal => PureScriptTypeView::Number,
        RustTypeView::JsonValue => PureScriptTypeView::Json,
        RustTypeView::Option(inner) => PureScriptTypeView::Maybe(Box::new(mapped_type(*inner))),
        RustTypeView::Vec(inner) => PureScriptTypeView::Array(Box::new(mapped_type(*inner))),
        RustTypeView::Custom(name) => PureScriptTypeView::Custom(name),
        RustTypeView::Unsupported(_) => PureScriptTypeView::String,
    }
}

/// Map a Rust type to its PureScript equivalent, recursively through
/// `Option` and `Vec`.
pub fn map_type(rust_type: &RustType) -> (ps: PureScriptType)
    ensures
        ps@ == mapped_type(rust_type@),
    decreases rust_type,
{
    match rust_type {
        RustType::Int => PureScriptType::Int,
        RustType::Float => PureScriptType::Number,
        RustType::Bool => PureScriptType::Boolean,
        RustType::String => PureScriptType::String,
        RustType::DateTime => PureScriptType::String,
        RustType::Uuid => {
            let mut name = String::new();
            name.append("UUID");
            PureScriptType::Custom(name)
        },
        RustType::Decimal => PureScriptType::Number,
        RustType::JsonValue => PureScriptType::Json,
        RustType::Option(inner) => {
            let m = map_type(inner);
            PureScriptType::Maybe(Box::new(m))
        },
        RustType::Vec(inner) => {
            let m = map_type(inner);
            PureScriptType::Array(Box::new(m))
        },
        RustType::Custom(name) => PureScriptType::Custom(name.clone()),
        RustType::Unsupported(_) => PureScriptType::String,
    }
}

/// The text of the warning that mapping an unsupported type gives, for the
/// unsupported type that `t` holds, if any (`Option` and `Vec` hold one
/// inner type, so there is at most one).
pub open spec fn unsupported_warning_text(t: RustTypeView) -> Option<Seq<char>>
    decreases t,
{
    match t {
        RustTypeView::Option(inner) => unsupported_warning_text(*inner),
        RustTypeView::Vec(inner) => unsupported_warning_text(*inner),
        RustTypeView::Unsupported(s) => Some(
            "Warning: Unsupported type '"@ + s + "' mapped to String"@,
        ),
        _ => None,
    }
}

/// The warning that `map_type` reports for an unsupported type inside
/// `rust_type`, or `None` when every part of it is supported.
pub fn unsupported_type_warning(rust_type: &RustType) -> (w: Option<String>)
    ensures
        match w {
            Some(s) => unsupported_warning_text(rust_type@) == Some(s@),
            None => unsupported_warning_text(rust_type@) is None,
        },
    decreases rust_type,
{
    match rust_type {
        RustType::Option(inner) => unsupported_type_warning(inner),
        RustType::Vec(inner) => unsupported_type_warning(inner),
        RustType::Unsupported(s) => {
            let mut msg = String::new();
            msg.append("Warning: Unsupported type '");
            msg.append(s.as_str());
            msg.append("' mapped to String");
            Some(msg)
        },
        _ => None,
    }
}

/// Whether a type takes parentheses when it stands as the argument of
/// `Maybe` or `Array`: exactly when it is itself a `Maybe` or an `Array`.
pub open spec fn needs_parens_spec(t: PureScriptTypeView) -> bool {
    t is Maybe || t is Array
}

/// Check if a type needs parentheses when nested inside another type constructor
pub fn needs_parens(ty: &PureScriptType) -> (r: bool)
    ensures
        r == needs_parens_spec(ty@),
{
    match ty {
        PureScriptType::Maybe(_) => true,
        PureScriptType::Array(_) => true,
        _ => false,
    }
}

/// The PureScript text of a type argument of `Maybe` or `Array`, in
/// parentheses when it is itself an application.
pub open spec fn argument_text(t: PureScriptTypeView) -> Seq<char>
    decreases t, 1nat,
{
    if needs_parens_spec(t) {
        "("@ + purescript_text(t) + ")"@
    } else {
        purescript_text(t)
    }
}

/// The PureScript text of a type: `Maybe T`, `Array T`, the name of a
/// custom type, or the name of a primitive.
pub open spec fn purescript_text(t: PureScriptTypeView) -> Seq<char>
    decreases t, 0nat,
{
    match t {
        PureScriptTypeView::Int => "Int"@,
        PureScriptTypeView::Number => "Number"@,
        PureScriptTypeView::Boolean => "Boolean"@,
        PureScriptTypeView::String => "String"@,
        PureScriptTypeView::Maybe(inner) => "Maybe "@ + argument_text(*inner),
        PureScriptTypeView::Array(inner) => "Array "@ + argument_text(*inner),
        PureScriptTypeView::Json => "Json"@,
        PureScriptTypeView::Custom(name) => name,
    }
}

impl PureScriptType {
    /// The PureScript source text of this type, as it is written in a type
    /// signature.
    pub fn to_purescript(&self) -> (s: String)
        ensures
            s@ == purescript_text(self@),
        decreases self, 0nat,
    {
        match self {
            PureScriptType::Int => {
                let mut s = String::new();
                s.append("Int");
                s
            },
            PureScriptType::Number => {
                let mut s = String::new();
                s.append("Number");
                s
            },
            PureScriptType::Boolean => {
                let mut s = String::new();
                s.append("Boolean");
                s
            },
            PureScriptType::String => {
                let mut s = String::new();
                s.append("String");
                s
            },
            PureScriptType::Maybe(inner) => {
                let mut s = String::new();
                s.append("Maybe ");
                Self::push_argument(&mut s, inner);
                s
            },
            PureScriptType::Array(inner) => {
                let mut s = String::new();
                s.append("Array ");
                Self::push_argument(&mut s, inner);
                s
            },
            PureScriptType::Json => {
                let mut s = String::new();
                s.append("Json");
                s
            },
            PureScriptType::Custom(name) => name.clone(),
        }
    }

    fn push_argument(out: &mut String, inner: &PureScriptType)
        ensures
            final(out)@ == old(out)@ + argument_text(inner@),
        decreases inner, 1nat,
    {
        let text = inner.to_purescript();
        if needs_parens(inner) {
            out.append("(");
            out.append(text.as_str());
            out.append(")");
        } else {
            out.append(text.as_str());
        }
    }
}

/// `Vec` and `Option` map through: for every Rust type `t`, `Vec<t>` is
/// `Array` of what `t` maps to and `Option<t>` is `Maybe` of it, written
/// `Array T` and `Maybe T` with `T` the text of that argument.
pub proof fn law_wrappers_map_through(t: RustTypeView)
    ensures
        mapped_type(RustTypeView::Vec(Box::new(t))) == PureScriptTypeView::Array(
            Box::new(mapped_type(t)),
        ),
        mapped_type(RustTypeView::Option(Box::new(t))) == PureScriptTypeView::Maybe(
            Box::new(mapped_type(t)),
        ),
        purescript_text(mapped_type(RustTypeView::Vec(Box::new(t)))) == "Array "@ + argument_text(
            mapped_type(t),
        ),
        purescript_text(mapped_type(RustTypeView::Option(Box::new(t)))) == "Maybe "@
            + argument_text(mapped_type(t)),
{
}

/// The type table: `i32`/`i64` map to `Int`, `f32`/`f64` and decimals to
/// `Number`, `bool` to `Boolean`, `String` and date-times to `String`,
/// UUIDs to `UUID`, JSON values to `Json`, a custom type to its own name,
/// and a type with no counterpart to `String`.
pub proof fn law_type_table(name: Seq<char>, text: Seq<char>)
    ensures
        mapped_type(RustTypeView::Int) == PureScriptTypeView::Int,
        mapped_type(RustTypeView::Float) == PureScriptTypeView::Number,
        mapped_type(RustTypeView::Decimal) == PureScriptTypeView::Number,
        mapped_type(RustTypeView::Bool) == PureScriptTypeView::Boolean,
        mapped_type(RustTypeView::String) == PureScriptTypeView::String,
        mapped_type(RustTypeView::DateTime) == PureScriptTypeView::String,
        mapped_type(RustTypeView::Uuid) == PureScriptTypeView::Custom("UUID"@),
        mapped_type(RustTypeView::JsonValue) == PureScriptTypeView::Json,
        mapped_type(RustTypeView::Custom(name)) == PureScriptTypeView::Custom(name),
        mapped_type(RustTypeView::Unsupported(text)) == PureScriptTypeView::String,
        purescript_text(PureScriptTypeView::Int) == "Int"@,
        purescript_text(PureScriptTypeView::Number) == "Number"@,
        purescript_text(PureScriptTypeView::Boolean) == "Boolean"@,
        purescript_text(PureScriptTypeView::String) == "String"@,
        purescript_text(PureScriptTypeView::Json) == "Json"@,
        purescript_text(PureScriptTypeView::Custom(name)) == name,
{
}

} // verus!
