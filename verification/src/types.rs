//! Internal representation of the Rust types that are generated as
//! PureScript, with their mathematical views.

use vstd::prelude::*;
use crate::serde_attrs::{RenameRule, SerdeAttrs, SerdeAttrsView};
use crate::text::deep_strings;

verus! {

/// Rust type representation
#[derive(Debug, PartialEq, Eq)]
pub enum RustType {
    /// i32, i64
    Int,
    /// f32, f64
    Float,
    /// bool
    Bool,
    /// String
    String,
    /// chrono::DateTime<Utc> (serialized as ISO 8601 string)
    DateTime,
    /// uuid::Uuid
    Uuid,
    /// rust_decimal::Decimal (serialized as number)
    Decimal,
    /// serde_json::Value (arbitrary JSON)
    JsonValue,
    /// Option<T>
    Option(Box<RustType>),
    /// Vec<T>
    Vec(Box<RustType>),
    /// Custom type (struct or enum name)
    Custom(String),
    /// Unsupported type
    Unsupported(String),
}

/// The mathematical value of a `RustType`.
pub enum RustTypeView {
    Int,
    Float,
    Bool,
    String,
    DateTime,
    Uuid,
    Decimal,
    JsonValue,
    Option(Box<RustTypeView>),
    Vec(Box<RustTypeView>),
    Custom(Seq<char>),
    Unsupported(Seq<char>),
}

/// The view of a `RustType`, taken node by node.
pub open spec fn rust_type_view(t: RustType) -> RustTypeView
    decreases t,
{
    match t {
        RustType::Int => RustTypeView::Int,
        RustType::Float => RustTypeView::Float,
        RustType::Bool => RustTypeView::Bool,
        RustType::String => RustTypeView::String,
        RustType::DateTime => RustTypeView::DateTime,
        RustType::Uuid => RustTypeView::Uuid,
        RustType::Decimal => RustTypeView::Decimal,
        RustType::JsonValue => RustTypeView::JsonValue,
        RustType::Option(inner) => RustTypeView::Option(Box::new(rust_type_view(*inner))),
        RustType::Vec(inner) => RustTypeView::Vec(Box::new(rust_type_view(*inner))),
        RustType::Custom(name) => RustTypeView::Custom(name@),
        RustType::Unsupported(s) => RustTypeView::Unsupported(s@),
    }
}

impl View for RustType {
    type V = RustTypeView;

    open spec fn view(&self) -> RustTypeView {
        rust_type_view(*self)
    }
}

impl Clone for RustType {
    fn clone(&self) -> (r: Self)
        ensures
            r@ == self@,
        decreases self,
    {
        match self {
            RustType::Int => RustType::Int,
            RustType::Float => RustType::Float,
            RustType::Bool => RustType::Bool,
            RustType::String => RustType::String,
            RustType::DateTime => RustType::DateTime,
            RustType::Uuid => RustType::Uuid,
            RustType::Decimal => RustType::Decimal,
            RustType::JsonValue => RustType::JsonValue,
            RustType::Option(inner) => {
                let c: RustType = (**inner).clone();
                RustType::Option(Box::new(c))
            },
            RustType::Vec(inner) => {
                let c: RustType = (**inner).clone();
                RustType::Vec(Box::new(c))
            },
            RustType::Custom(name) => RustType::Custom(name.clone()),
            RustType::Unsupported(s) => RustType::Unsupported(s.clone()),
        }
    }
}

/// The names of the custom types that a type mentions, left to right.
pub open spec fn custom_types_of(t: RustTypeView) -> Seq<Seq<char>>
    decreases t,
{
    match t {
        RustTypeView::Custom(name) => seq![name],
        RustTypeView::Option(inner) => custom_types_of(*inner),
        RustTypeView::Vec(inner) => custom_types_of(*inner),
        _ => Seq::empty(),
    }
}

impl RustType {
    /// Collect all custom type names referenced by this type
    pub fn collect_custom_types(&self) -> (types: Vec<String>)
        ensures
            deep_strings(types@) == custom_types_of(self@),
        decreases self,
    {
        let mut types: Vec<String> = Vec::new();
        match self {
            RustType::Custom(name) => {
                types.push(name.clone());
                assert(deep_strings(types@) =~= seq![name@]);
            },
            RustType::Option(inner) => {
                types = inner.collect_custom_types();
            },
            RustType::Vec(inner) => {
                types = inner.collect_custom_types();
            },
            _ => {
                assert(deep_strings(types@) =~= Seq::<Seq<char>>::empty());
            },
        }
        types
    }
}

/// A field in a struct
#[derive(Debug)]
pub struct Field {
    /// Rust field name (snake_case)
    pub rust_name: String,
    /// JSON field name (after serde renaming, e.g. camelCase)
    pub json_name: String,
    /// Field type
    pub field_type: RustType,
}

/// The mathematical value of a `Field`.
pub struct FieldView {
    pub rust_name: Seq<char>,
    pub json_name: Seq<char>,
    pub field_type: RustTypeView,
}

impl View for Field {
    type V = FieldView;

    open spec fn view(&self) -> FieldView {
        FieldView {
            rust_name: self.rust_name@,
            json_name: self.json_name@,
            field_type: self.field_type@,
        }
    }
}

impl Clone for Field {
    fn clone(&self) -> (r: Self)
        ensures
            r@ == self@,
    {
        Field {
            rust_name: self.rust_name.clone(),
            json_name: self.json_name.clone(),
            field_type: self.field_type.clone(),
        }
    }
}

/// A variant in an enum
#[derive(Debug)]
pub struct EnumVariant {
    /// Rust variant name
    pub rust_name: String,
    /// JSON variant name (after serde renaming)
    pub json_name: String,
}

/// The mathematical value of an `EnumVariant`.
pub struct EnumVariantView {
    pub rust_name: Seq<char>,
    pub json_name: Seq<char>,
}

impl View for EnumVariant {
    type V = EnumVariantView;

    open spec fn view(&self) -> EnumVariantView {
        EnumVariantView { rust_name: self.rust_name@, json_name: self.json_name@ }
    }
}

impl Clone for EnumVariant {
    fn clone(&self) -> (r: Self)
        ensures
            r@ == self@,
    {
        EnumVariant { rust_name: self.rust_name.clone(), json_name: self.json_name.clone() }
    }
}

/// The views of a list of fields.
pub open spec fn fields_view(fields: Seq<Field>) -> Seq<FieldView> {
    fields.map_values(|f: Field| f@)
}

/// The views of a list of variants.
pub open spec fn variants_view(variants: Seq<EnumVariant>) -> Seq<EnumVariantView> {
    variants.map_values(|v: EnumVariant| v@)
}

/// A struct type definition
#[derive(Debug)]
pub struct StructType {
    /// Fields in the struct
    pub fields: Vec<Field>,
    /// Serde rename_all rule for this struct
    pub rename_all: Option<RenameRule>,
}

/// The mathematical value of a `StructType`.
pub struct StructTypeView {
    pub fields: Seq<FieldView>,
    pub rename_all: Option<RenameRule>,
}

impl View for StructType {
    type V = StructTypeView;

    open spec fn view(&self) -> StructTypeView {
        StructTypeView { fields: fields_view(self.fields@), rename_all: self.rename_all }
    }
}

/// An enum type definition
#[derive(Debug)]
pub struct EnumType {
    /// Variants in the enum
    pub variants: Vec<EnumVariant>,
    /// Serde rename_all rule for this enum
    pub rename_all: Option<RenameRule>,
}

/// The mathematical value of an `EnumType`.
pub struct EnumTypeView {
    pub variants: Seq<EnumVariantView>,
    pub rename_all: Option<RenameRule>,
}

impl View for EnumType {
    type V = EnumTypeView;

    open spec fn view(&self) -> EnumTypeView {
        EnumTypeView { variants: variants_view(self.variants@), rename_all: self.rename_all }
    }
}

/// Kind of Rust type
#[derive(Debug)]
pub enum TypeKind {
    /// A struct with named fields
    Struct(StructType),
    /// An enum with variants
    Enum(EnumType),
}

/// The mathematical value of a `TypeKind`.
pub enum TypeKindView {
    Struct(StructTypeView),
    Enum(EnumTypeView),
}

impl View for TypeKind {
    type V = TypeKindView;

    open spec fn view(&self) -> TypeKindView {
        match self {
            TypeKind::Struct(s) => TypeKindView::Struct(s@),
            TypeKind::Enum(e) => TypeKindView::Enum(e@),
        }
    }
}

/// Represents a Rust type to be generated as PureScript
#[derive(Debug)]
pub struct TypeDefinition {
    /// Name of the type
    pub name: String,
    /// Source file path
    pub source_file: String,
    /// Line number in source file
    pub line: usize,
    /// The kind of type (struct or enum)
    pub kind: TypeKind,
    /// Serde attributes on the type
    pub serde_attrs: SerdeAttrs,
}

/// The mathematical value of a `TypeDefinition`.
pub struct TypeDefinitionView {
    pub name: Seq<char>,
    pub source_file: Seq<char>,
    pub line: usize,
    pub kind: TypeKindView,
    pub serde_attrs: SerdeAttrsView,
}

impl View for TypeDefinition {
    type V = TypeDefinitionView;

    open spec fn view(&self) -> TypeDefinitionView {
        TypeDefinitionView {
            name: self.name@,
            source_file: self.source_file@,
            line: self.line,
            kind: self.kind@,
            serde_attrs: self.serde_attrs@,
        }
    }
}

/// The views of a list of type definitions.
pub open spec fn definitions_view(defs: Seq<TypeDefinition>) -> Seq<TypeDefinitionView> {
    defs.map_values(|d: TypeDefinition| d@)
}

fn clone_fields(fields: &Vec<Field>) -> (r: Vec<Field>)
    ensures
        fields_view(r@) == fields_view(fields@),
{
    let mut r: Vec<Field> = Vec::new();
    let mut i: usize = 0;
    while i < fields.len()
        invariant
            i <= fields.len(),
            r@.len() == i,
            forall|k: int| 0 <= k < i ==> (#[trigger] r@[k])@ == fields@[k]@,
        decreases fields.len() - i,
    {
        let c = fields[i].clone();
        r.push(c);
        i += 1;
    }
    assert(fields_view(r@) =~= fields_view(fields@));
    r
}

fn clone_variants(variants: &Vec<EnumVariant>) -> (r: Vec<EnumVariant>)
    ensures
        variants_view(r@) == variants_view(variants@),
{
    let mut r: Vec<EnumVariant> = Vec::new();
    let mut i: usize = 0;
    while i < variants.len()
        invariant
            i <= variants.len(),
            r@.len() == i,
            forall|k: int| 0 <= k < i ==> (#[trigger] r@[k])@ == variants@[k]@,
        decreases variants.len() - i,
    {
        let c = variants[i].clone();
        r.push(c);
        i += 1;
    }
    assert(variants_view(r@) =~= variants_view(variants@));
    r
}

impl Clone for StructType {
    fn clone(&self) -> (r: Self)
        ensures
            r@ == self@,
    {
        StructType { fields: clone_fields(&self.fields), rename_all: self.rename_all }
    }
}

impl Clone for EnumType {
    fn clone(&self) -> (r: Self)
        ensures
            r@ == self@,
    {
        EnumType { variants: clone_variants(&self.variants), rename_all: self.rename_all }
    }
}

impl Clone for TypeKind {
    fn clone(&self) -> (r: Self)
        ensures
            r@ == self@,
    {
        match self {
            TypeKind::Struct(s) => TypeKind::Struct(s.clone()),
            TypeKind::Enum(e) => TypeKind::Enum(e.clone()),
        }
    }
}

impl Clone for TypeDefinition {
    fn clone(&self) -> (r: Self)
        ensures
            r@ == self@,
    {
        TypeDefinition {
            name: self.name.clone(),
            source_file: self.source_file.clone(),
            line: self.line,
            kind: self.kind.clone(),
            serde_attrs: self.serde_attrs.clone(),
        }
    }
}

/// The custom type names that a list of fields mentions, field by field.
pub open spec fn field_dependencies(fields: Seq<FieldView>) -> Seq<Seq<char>>
    decreases fields.len(),
{
    if fields.len() == 0 {
        Seq::empty()
    } else {
        field_dependencies(fields.drop_last()) + custom_types_of(fields.last().field_type)
    }
}

/// The custom type names that a type definition mentions: those of its
/// fields for a struct, none for an enum.
pub open spec fn dependencies_of(d: TypeDefinitionView) -> Seq<Seq<char>> {
    match d.kind {
        TypeKindView::Struct(s) => field_dependencies(s.fields),
        TypeKindView::Enum(_) => Seq::empty(),
    }
}

impl TypeDefinition {
    /// Collect all custom type names referenced by this type definition
    pub fn collect_dependencies(&self) -> (deps: Vec<String>)
        ensures
            deep_strings(deps@) == dependencies_of(self@),
    {
        let mut deps: Vec<String> = Vec::new();
        match &self.kind {
            TypeKind::Struct(struct_type) => {
                let fields = &struct_type.fields;
                let mut i: usize = 0;
                assert(fields_view(fields@).take(0) =~= Seq::<FieldView>::empty());
                while i < fields.len()
                    invariant
                        i <= fields.len(),
                        self.kind == TypeKind::Struct(*struct_type),
                        deep_strings(deps@) == field_dependencies(
                            fields_view(fields@).take(i as int),
                        ),
                    decreases fields.len() - i,
                {
                    let mut more = fields[i].field_type.collect_custom_types();
                    let ghost before = deps@;
                    deps.append(&mut more);
                    assert(fields_view(fields@).take(i + 1).drop_last() =~= fields_view(
                        fields@,
                    ).take(i as int));
                    assert(deep_strings(deps@) =~= deep_strings(before) + custom_types_of(
                        fields[i as int].field_type@,
                    ));
                    i += 1;
                }
                assert(fields_view(fields@).take(fields.len() as int) =~= fields_view(fields@));
            },
            TypeKind::Enum(_) => {
                assert(deep_strings(deps@) =~= Seq::<Seq<char>>::empty());
            },
        }
        deps
    }
}

/// Enums depend on no other type: their variants carry no fields.
pub proof fn law_enums_have_no_dependencies(d: TypeDefinitionView)
    requires
        d.kind is Enum,
    ensures
        dependencies_of(d) == Seq::<Seq<char>>::empty(),
{
}

/// A custom type is found through any nesting of `Option` and `Vec`, and a
/// type without a custom type inside depends on nothing.
pub proof fn law_custom_types_through_wrappers(t: RustTypeView)
    ensures
        custom_types_of(RustTypeView::Option(Box::new(t))) == custom_types_of(t),
        custom_types_of(RustTypeView::Vec(Box::new(t))) == custom_types_of(t),
        custom_types_of(t).len() <= 1,
    decreases t,
{
    match t {
        RustTypeView::Option(inner) => law_custom_types_through_wrappers(*inner),
        RustTypeView::Vec(inner) => law_custom_types_through_wrappers(*inner),
        _ => {},
    }
}

/// A type with the text of every unsupported type in it left out: what a
/// type is apart from the debug text that syn gives for a type that is not
/// a path, which depends on more than the source.
pub open spec fn type_shape(t: RustTypeView) -> RustTypeView
    decreases t,
{
    match t {
        RustTypeView::Option(inner) => RustTypeView::Option(Box::new(type_shape(*inner))),
        RustTypeView::Vec(inner) => RustTypeView::Vec(Box::new(type_shape(*inner))),
        RustTypeView::Unsupported(_) => RustTypeView::Unsupported(Seq::empty()),
        _ => t,
    }
}

/// A field with the unsupported-type texts of its type left out.
pub open spec fn field_shape(f: FieldView) -> FieldView {
    FieldView { field_type: type_shape(f.field_type), ..f }
}

/// A type definition with the unsupported-type texts of its fields left
/// out.
pub open spec fn definition_shape(d: TypeDefinitionView) -> TypeDefinitionView {
    match d.kind {
        TypeKindView::Struct(s) => TypeDefinitionView {
            kind: TypeKindView::Struct(
                StructTypeView { fields: s.fields.map_values(|f: FieldView| field_shape(f)), ..s },
            ),
            ..d
        },
        TypeKindView::Enum(_) => d,
    }
}

/// Type definitions with the unsupported-type texts of their fields left
/// out.
pub open spec fn definitions_shape(defs: Seq<TypeDefinitionView>) -> Seq<TypeDefinitionView> {
    defs.map_values(|d: TypeDefinitionView| definition_shape(d))
}

} // verus!
