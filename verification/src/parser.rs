//! Extraction of the `#[mercury]` type definitions of a Rust source file.

use vstd::prelude::*;
pub use crate::rust_source::parse_file;
use vstd::string::*;
use crate::analyzer::{mapped_type, PureScriptTypeView};
use crate::serde_attrs::{json_name_of, parse_serde_attrs, serde_attrs_of, skipped, RenameRule};
use crate::syntax::{AttrSyntax, FieldSyntax, FieldsSyntax, ItemSyntax, TypeSyntax, VariantSyntax};
use crate::text::{chars_of, str_eq, string_of};
use crate::types::{
    definitions_view, fields_view, variants_view, EnumType, EnumTypeView, EnumVariant,
    EnumVariantView, Field, FieldView, RustType, RustTypeView, StructType, StructTypeView,
    TypeDefinition, TypeDefinitionView, TypeKind, TypeKindView,
};

verus! {

/// The internal representation of a field type. `DateTime`, `Uuid`,
/// `Decimal` (`rust_decimal::Decimal`) and `Value` (`serde_json::Value`) are
/// recognised by the last path segment alone; `i32`/`i64`, `f32`/`f64`,
/// `bool` and `String` are primitives; `Option<T>` and `Vec<T>` wrap the
/// type of their first type argument; any other name is a custom type.
pub open spec fn parsed_type(t: TypeSyntax) -> RustTypeView
    decreases t,
{
    match t {
        TypeSyntax::Other { debug_text } => RustTypeView::Unsupported(debug_text@),
        TypeSyntax::Path { last_segment } => match last_segment {
            None => RustTypeView::Unsupported("empty path"@),
            Some(seg) => {
                let n = seg.ident@;
                if n == "DateTime"@ {
                    RustTypeView::DateTime
                } else if n == "Uuid"@ {
                    RustTypeView::Uuid
                } else if n == "Decimal"@ {
                    RustTypeView::Decimal
                } else if n == "Value"@ {
                    RustTypeView::JsonValue
                } else if n == "i32"@ || n == "i64"@ {
                    RustTypeView::Int
                } else if n == "f32"@ || n == "f64"@ {
                    RustTypeView::Float
                } else if n == "bool"@ {
                    RustTypeView::Bool
                } else if n == "String"@ {
                    RustTypeView::String
                } else if n == "Option"@ {
                    match seg.type_argument {
                        Some(inner) => RustTypeView::Option(Box::new(parsed_type(*inner))),
                        None => RustTypeView::Unsupported("Option without type argument"@),
                    }
                } else if n == "Vec"@ {
                    match seg.type_argument {
                        Some(inner) => RustTypeView::Vec(Box::new(parsed_type(*inner))),
                        None => RustTypeView::Unsupported("Vec without type argument"@),
                    }
                } else {
                    RustTypeView::Custom(n)
                }
            },
        },
    }
}

fn text_string(s: &str) -> (r: String)
    ensures
        r@ == s@,
{
    let v = chars_of(s);
    string_of(&v)
}

/// Parse a Rust type into our internal representation
pub fn parse_type(ty: &TypeSyntax) -> (r: RustType)
    ensures
        r@ == parsed_type(*ty),
    decreases ty,
{
    match ty {
        TypeSyntax::Other { debug_text } => RustType::Unsupported(debug_text.clone()),
        TypeSyntax::Path { last_segment } => match last_segment {
            None => RustType::Unsupported(text_string("empty path")),
            Some(seg) => {
                let n = seg.ident.as_str();
                if str_eq(n, "DateTime") {
                    RustType::DateTime
                } else if str_eq(n, "Uuid") {
                    RustType::Uuid
                } else if str_eq(n, "Decimal") {
                    RustType::Decimal
                } else if str_eq(n, "Value") {
                    RustType::JsonValue
                } else if str_eq(n, "i32") || str_eq(n, "i64") {
                    RustType::Int
                } else if str_eq(n, "f32") || str_eq(n, "f64") {
                    RustType::Float
                } else if str_eq(n, "bool") {
                    RustType::Bool
                } else if str_eq(n, "String") {
                    RustType::String
                } else if str_eq(n, "Option") {
                    match &seg.type_argument {
                        Some(inner) => {
                            let t = parse_type(inner);
                            RustType::Option(Box::new(t))
                        },
                        None => RustType::Unsupported(text_string("Option without type argument")),
                    }
                } else if str_eq(n, "Vec") {
                    match &seg.type_argument {
                        Some(inner) => {
                            let t = parse_type(inner);
                            RustType::Vec(Box::new(t))
                        },
                        None => RustType::Unsupported(text_string("Vec without type argument")),
                    }
                } else {
                    RustType::Custom(seg.ident.clone())
                }
            },
        },
    }
}

/// Whether some attribute has a path segment named `mercury`.
pub open spec fn has_mercury(attrs: Seq<AttrSyntax>) -> bool {
    exists|i: int, j: int|
        0 <= i < attrs.len() && 0 <= j < attrs[i].path_idents@.len() && (
        #[trigger] attrs[i].path_idents@[j])@ == "mercury"@
}

/// Check if attributes contain #[mercury]
pub fn has_mercury_attribute(attrs: &[AttrSyntax]) -> (r: bool)
    ensures
        r == has_mercury(attrs@),
{
    let mut i: usize = 0;
    while i < attrs.len()
        invariant
            i <= attrs.len(),
            forall|a: int, j: int|
                0 <= a < i && 0 <= j < attrs@[a].path_idents@.len() ==> (
                #[trigger] attrs@[a].path_idents@[j])@ != "mercury"@,
        decreases attrs.len() - i,
    {
        let idents = &attrs[i].path_idents;
        let mut j: usize = 0;
        while j < idents.len()
            invariant
                i < attrs.len(),
                idents == attrs@[i as int].path_idents,
                j <= idents.len(),
                forall|a: int, b: int|
                    0 <= a < i && 0 <= b < attrs@[a].path_idents@.len() ==> (
                    #[trigger] attrs@[a].path_idents@[b])@ != "mercury"@,
                forall|b: int| 0 <= b < j ==> (#[trigger] idents@[b])@ != "mercury"@,
            decreases idents.len() - j,
        {
            if str_eq(idents[j].as_str(), "mercury") {
                return true;
            }
            j += 1;
        }
        i += 1;
    }
    false
}

/// The fields of a struct that are not skipped, each with its JSON name.
pub open spec fn struct_fields_of(fields: Seq<FieldSyntax>, rename_all: Option<RenameRule>) -> Seq<
    FieldView,
>
    decreases fields.len(),
{
    if fields.len() == 0 {
        Seq::empty()
    } else {
        let before = struct_fields_of(fields.drop_last(), rename_all);
        let f = fields.last();
        let attrs = serde_attrs_of(f.attrs@);
        if skipped(attrs) {
            before
        } else {
            before.push(
                FieldView {
                    rust_name: f.ident@,
                    json_name: json_name_of(attrs, f.ident@, rename_all),
                    field_type: parsed_type(f.ty),
                },
            )
        }
    }
}

/// The fields of a struct item.
pub open spec fn item_fields_of(fields: FieldsSyntax, rename_all: Option<RenameRule>) -> Seq<
    FieldView,
> {
    match fields {
        FieldsSyntax::Named(named) => struct_fields_of(named@, rename_all),
        _ => Seq::empty(),
    }
}

/// The variants of an enum item that are not skipped, each with its JSON
/// name.
pub open spec fn enum_variants_of(variants: Seq<VariantSyntax>, rename_all: Option<RenameRule>) -> Seq<
    EnumVariantView,
>
    decreases variants.len(),
{
    if variants.len() == 0 {
        Seq::empty()
    } else {
        let before = enum_variants_of(variants.drop_last(), rename_all);
        let v = variants.last();
        let attrs = serde_attrs_of(v.attrs@);
        if skipped(attrs) {
            before
        } else {
            before.push(
                EnumVariantView {
                    rust_name: v.ident@,
                    json_name: json_name_of(attrs, v.ident@, rename_all),
                },
            )
        }
    }
}

/// The type definition of a struct item.
pub open spec fn struct_definition_of(
    file_path: Seq<char>,
    ident: Seq<char>,
    line: usize,
    attrs: Seq<AttrSyntax>,
    fields: FieldsSyntax,
) -> TypeDefinitionView {
    let sa = serde_attrs_of(attrs);
    TypeDefinitionView {
        name: ident,
        source_file: file_path,
        line: line,
        kind: TypeKindView::Struct(
            StructTypeView { fields: item_fields_of(fields, sa.rename_all), rename_all: sa.rename_all },
        ),
        serde_attrs: sa,
    }
}

/// The type definition of an enum item.
pub open spec fn enum_definition_of(
    file_path: Seq<char>,
    ident: Seq<char>,
    line: usize,
    attrs: Seq<AttrSyntax>,
    variants: Seq<VariantSyntax>,
) -> TypeDefinitionView {
    let sa = serde_attrs_of(attrs);
    TypeDefinitionView {
        name: ident,
        source_file: file_path,
        line: line,
        kind: TypeKindView::Enum(
            EnumTypeView {
                variants: enum_variants_of(variants, sa.rename_all),
                rename_all: sa.rename_all,
            },
        ),
        serde_attrs: sa,
    }
}

/// The type definitions of the `#[mercury]` structs and enums among the
/// items, in source order; other items are ignored.
pub open spec fn definitions_of(file_path: Seq<char>, items: Seq<ItemSyntax>) -> Seq<
    TypeDefinitionView,
>
    decreases items.len(),
{
    if items.len() == 0 {
        Seq::empty()
    } else {
        let before = definitions_of(file_path, items.drop_last());
        match items.last() {
            ItemSyntax::Struct { ident, line, attrs, fields } => if has_mercury(attrs@) {
                before.push(struct_definition_of(file_path, ident@, line, attrs@, fields))
            } else {
                before
            },
            ItemSyntax::Enum { ident, line, attrs, variants } => if has_mercury(attrs@) {
                before.push(enum_definition_of(file_path, ident@, line, attrs@, variants@))
            } else {
                before
            },
            ItemSyntax::Other => before,
        }
    }
}

fn parse_named_fields(fields: &Vec<FieldSyntax>, rename_all: Option<RenameRule>) -> (r: Vec<Field>)
    ensures
        fields_view(r@) == struct_fields_of(fields@, rename_all),
{
    let mut parsed: Vec<Field> = Vec::new();
    let mut i: usize = 0;
    assert(fields_view(parsed@) =~= struct_fields_of(fields@.take(0), rename_all));
    while i < fields.len()
        invariant
            i <= fields.len(),
            fields_view(parsed@) == struct_fields_of(fields@.take(i as int), rename_all),
        decreases fields.len() - i,
    {
        assert(fields@.take(i + 1).drop_last() =~= fields@.take(i as int));
        let field = &fields[i];
        let field_type = parse_type(&field.ty);
        let field_serde_attrs = parse_serde_attrs(field.attrs.as_slice());
        if !field_serde_attrs.should_skip() {
            let json_name = field_serde_attrs.get_json_name(field.ident.as_str(), rename_all);
            let ghost before = parsed@;
            parsed.push(Field { rust_name: field.ident.clone(), json_name, field_type });
            assert(fields_view(parsed@) =~= fields_view(before).push(parsed@.last()@));
        }
        i += 1;
    }
    assert(fields@.take(fields.len() as int) =~= fields@);
    parsed
}

/// Parse a struct item
pub fn parse_struct(
    file_path: &str,
    ident: &String,
    line: usize,
    attrs: &Vec<AttrSyntax>,
    fields: &FieldsSyntax,
) -> (def: TypeDefinition)
    ensures
        def@ == struct_definition_of(file_path@, ident@, line, attrs@, *fields),
{
    let serde_attrs = parse_serde_attrs(attrs.as_slice());
    let rename_all = serde_attrs.rename_all;
    let parsed_fields = match fields {
        FieldsSyntax::Named(named) => parse_named_fields(named, rename_all),
        _ => {
            let v: Vec<Field> = Vec::new();
            assert(fields_view(v@) =~= Seq::<FieldView>::empty());
            v
        },
    };
    TypeDefinition {
        name: ident.clone(),
        source_file: text_string(file_path),
        line,
        kind: TypeKind::Struct(StructType { fields: parsed_fields, rename_all }),
        serde_attrs,
    }
}

/// Parse an enum item
pub fn parse_enum(
    file_path: &str,
    ident: &String,
    line: usize,
    attrs: &Vec<AttrSyntax>,
    variants: &Vec<VariantSyntax>,
) -> (def: TypeDefinition)
    ensures
        def@ == enum_definition_of(file_path@, ident@, line, attrs@, variants@),
{
    let serde_attrs = parse_serde_attrs(attrs.as_slice());
    let rename_all = serde_attrs.rename_all;
    let mut parsed: Vec<EnumVariant> = Vec::new();
    let mut i: usize = 0;
    assert(variants_view(parsed@) =~= enum_variants_of(variants@.take(0), rename_all));
    while i < variants.len()
        invariant
            i <= variants.len(),
            rename_all == serde_attrs_of(attrs@).rename_all,
            variants_view(parsed@) == enum_variants_of(variants@.take(i as int), rename_all),
        decreases variants.len() - i,
    {
        assert(variants@.take(i + 1).drop_last() =~= variants@.take(i as int));
        let variant = &variants[i];
        let variant_serde_attrs = parse_serde_attrs(variant.attrs.as_slice());
        if !variant_serde_attrs.should_skip() {
            let json_name = variant_serde_attrs.get_json_name(variant.ident.as_str(), rename_all);
            let ghost before = parsed@;
            parsed.push(EnumVariant { rust_name: variant.ident.clone(), json_name });
            assert(variants_view(parsed@) =~= variants_view(before).push(parsed@.last()@));
        }
        i += 1;
    }
    assert(variants@.take(variants.len() as int) =~= variants@);
    TypeDefinition {
        name: ident.clone(),
        source_file: text_string(file_path),
        line,
        kind: TypeKind::Enum(EnumType { variants: parsed, rename_all }),
        serde_attrs,
    }
}

/// The type definitions of the `#[mercury]` structs and enums among the
/// items of a file, in source order.
pub fn type_definitions_from_items(file_path: &str, items: &Vec<ItemSyntax>) -> (defs: Vec<
    TypeDefinition,
>)
    ensures
        definitions_view(defs@) == definitions_of(file_path@, items@),
{
    let mut type_defs: Vec<TypeDefinition> = Vec::new();
    let mut i: usize = 0;
    assert(definitions_view(type_defs@) =~= definitions_of(file_path@, items@.take(0)));
    while i < items.len()
        invariant
            i <= items.len(),
            definitions_view(type_defs@) == definitions_of(file_path@, items@.take(i as int)),
        decreases items.len() - i,
    {
        assert(items@.take(i + 1).drop_last() =~= items@.take(i as int));
        let ghost before = type_defs@;
        match &items[i] {
            ItemSyntax::Struct { ident, line, attrs, fields } => {
                if has_mercury_attribute(attrs.as_slice()) {
                    let d = parse_struct(file_path, ident, *line, attrs, fields);
                    type_defs.push(d);
                    assert(definitions_view(type_defs@) =~= definitions_view(before).push(d@));
                }
            },
            ItemSyntax::Enum { ident, line, attrs, variants } => {
                if has_mercury_attribute(attrs.as_slice()) {
                    let d = parse_enum(file_path, ident, *line, attrs, variants);
                    type_defs.push(d);
                    assert(definitions_view(type_defs@) =~= definitions_view(before).push(d@));
                }
            },
            ItemSyntax::Other => {},
        }
        i += 1;
    }
    assert(items@.take(items.len() as int) =~= items@);
    type_defs
}

/// Every definition taken from a file records that file as its source.
pub proof fn lemma_definitions_source_file(file_path: Seq<char>, items: Seq<ItemSyntax>)
    ensures
        forall|k: int|
            0 <= k < definitions_of(file_path, items).len() ==> (#[trigger] definitions_of(
                file_path,
                items,
            )[k]).source_file == file_path,
    decreases items.len(),
{
    if items.len() > 0 {
        lemma_definitions_source_file(file_path, items.drop_last());
    }
}

/// Whether a field is kept: none of its serde attributes skips it.
pub open spec fn field_kept(f: FieldSyntax) -> bool {
    !skipped(serde_attrs_of(f.attrs@))
}

/// Skipped fields are left out: every field of the struct type is a kept
/// field of the source, and every kept field of the source is a field of
/// the struct type, under its own Rust name and in source order.
pub proof fn law_only_kept_fields(fields: Seq<FieldSyntax>, rename_all: Option<RenameRule>)
    ensures
        forall|i: int|
            0 <= i < struct_fields_of(fields, rename_all).len() ==> exists|j: int|
                0 <= j < fields.len() && field_kept(#[trigger] fields[j]) && fields[j].ident@
                    == (#[trigger] struct_fields_of(fields, rename_all)[i]).rust_name,
        forall|j: int|
            0 <= j < fields.len() && field_kept(#[trigger] fields[j]) ==> exists|i: int|
                0 <= i < struct_fields_of(fields, rename_all).len() && fields[j].ident@ == (
                #[trigger] struct_fields_of(fields, rename_all)[i]).rust_name,
    decreases fields.len(),
{
    if fields.len() > 0 {
        let init = fields.drop_last();
        law_only_kept_fields(init, rename_all);
        let before = struct_fields_of(init, rename_all);
        let out = struct_fields_of(fields, rename_all);
        let n = fields.len() - 1;
        assert forall|i: int| 0 <= i < out.len() implies exists|j: int|
            0 <= j < fields.len() && field_kept(#[trigger] fields[j]) && fields[j].ident@ == (
            #[trigger] out[i]).rust_name by {
            if i < before.len() {
                assert(out[i] == before[i]);
                let j = choose|j: int|
                    0 <= j < init.len() && field_kept(#[trigger] init[j]) && init[j].ident@ == (
                    #[trigger] before[i]).rust_name;
                assert(fields[j] == init[j]);
            } else {
                assert(field_kept(fields[n]));
                assert(out[i].rust_name == fields[n].ident@);
            }
        }
        assert forall|j: int| 0 <= j < fields.len() && field_kept(#[trigger] fields[j]) implies exists|
            i: int,
        | 0 <= i < out.len() && fields[j].ident@ == (#[trigger] out[i]).rust_name by {
            if j < n {
                assert(fields[j] == init[j]);
                let i = choose|i: int|
                    0 <= i < before.len() && init[j].ident@ == (#[trigger] before[i]).rust_name;
                assert(out[i] == before[i]);
            } else {
                assert(out[before.len() as int].rust_name == fields[n].ident@);
            }
        }
    }
}

/// The numeric types of the type table: a path type whose last segment is
/// `i32` or `i64` is the internal `Int` (PureScript `Int`), whatever
/// arguments it carries, and one whose last segment is `f32` or `f64` is
/// the internal `Float` (PureScript `Number`); and these are the only types
/// that give `Int` and `Float`. So `i32` and `i64` are read alike, and
/// unlike `f64`.
pub proof fn law_numeric_types(t: TypeSyntax)
    ensures
        t matches TypeSyntax::Path { last_segment: Some(seg) } && (seg.ident@ == "i32"@
            || seg.ident@ == "i64"@) ==> parsed_type(t) == RustTypeView::Int && mapped_type(
            parsed_type(t),
        ) == PureScriptTypeView::Int,
        t matches TypeSyntax::Path { last_segment: Some(seg) } && (seg.ident@ == "f32"@
            || seg.ident@ == "f64"@) ==> parsed_type(t) == RustTypeView::Float && mapped_type(
            parsed_type(t),
        ) == PureScriptTypeView::Number,
        parsed_type(t) == RustTypeView::Int ==> (t matches TypeSyntax::Path {
            last_segment: Some(seg),
        } && (seg.ident@ == "i32"@ || seg.ident@ == "i64"@)),
        parsed_type(t) == RustTypeView::Float ==> (t matches TypeSyntax::Path {
            last_segment: Some(seg),
        } && (seg.ident@ == "f32"@ || seg.ident@ == "f64"@)),
{
    reveal_strlit("i32");
    reveal_strlit("i64");
    reveal_strlit("f32");
    reveal_strlit("f64");
    reveal_strlit("DateTime");
    reveal_strlit("Uuid");
    reveal_strlit("Decimal");
    reveal_strlit("Value");
    reveal_strlit("bool");
    reveal_strlit("String");
    reveal_strlit("Option");
    reveal_strlit("Vec");
    match t {
        TypeSyntax::Path { last_segment: Some(seg) } => {
            let n = seg.ident@;
            if n == "i32"@ || n == "i64"@ || n == "f32"@ || n == "f64"@ {
                assert(n.len() == 3);
                assert(n != "DateTime"@ && n != "Uuid"@ && n != "Decimal"@ && n != "Value"@);
                assert(n[0] == 'i' || n[0] == 'f');
                assert(n != "bool"@ && n != "String"@ && n != "Option"@ && n != "Vec"@);
            }
        },
        _ => {},
    }
}

/// Two path types whose last segments are `i32` and `i64` are read as the
/// same internal type, and a path type whose last segment is `f64` is read
/// as another one.
pub proof fn law_i64_reads_as_i32(a: TypeSyntax, b: TypeSyntax, c: TypeSyntax)
    requires
        a matches TypeSyntax::Path { last_segment: Some(sa) } && sa.ident@ == "i32"@,
        b matches TypeSyntax::Path { last_segment: Some(sb) } && sb.ident@ == "i64"@,
        c matches TypeSyntax::Path { last_segment: Some(sc) } && sc.ident@ == "f64"@,
    ensures
        parsed_type(a) == parsed_type(b),
        parsed_type(b) != parsed_type(c),
{
    law_numeric_types(a);
    law_numeric_types(b);
    law_numeric_types(c);
}

/// `Option` and `Vec` read through: a path type whose last segment is
/// `Option` or `Vec` with a type argument is the internal `Option` or
/// `Vec` of what that argument is read as.
pub proof fn law_wrappers_read_through(t: TypeSyntax)
    ensures
        t matches TypeSyntax::Path { last_segment: Some(seg) } ==> (seg.ident@ == "Option"@
            && seg.type_argument is Some ==> parsed_type(t) == RustTypeView::Option(
            Box::new(parsed_type(*seg.type_argument->0)),
        )),
        t matches TypeSyntax::Path { last_segment: Some(seg) } ==> (seg.ident@ == "Vec"@
            && seg.type_argument is Some ==> parsed_type(t) == RustTypeView::Vec(
            Box::new(parsed_type(*seg.type_argument->0)),
        )),
{
    reveal_strlit("i32");
    reveal_strlit("i64");
    reveal_strlit("f32");
    reveal_strlit("f64");
    reveal_strlit("DateTime");
    reveal_strlit("Uuid");
    reveal_strlit("Decimal");
    reveal_strlit("Value");
    reveal_strlit("bool");
    reveal_strlit("String");
    reveal_strlit("Option");
    reveal_strlit("Vec");
    match t {
        TypeSyntax::Path { last_segment: Some(seg) } => {
            let n = seg.ident@;
            if n == "Option"@ || n == "Vec"@ {
                if n == "Option"@ {
                    assert(n.len() == 6 && n[0] == 'O');
                } else {
                    assert(n.len() == 3 && n[0] == 'V');
                }
                assert(n != "i32"@ && n != "i64"@ && n != "f32"@ && n != "f64"@);
                assert(n != "DateTime"@ && n != "Uuid"@ && n != "Decimal"@ && n != "Value"@);
                assert(n != "bool"@ && n != "String"@);
                assert(n == "Vec"@ ==> n != "Option"@);
            }
        },
        _ => {},
    }
}

} // verus!
