//! Reading `syn`'s syntax tree. Each node that is read is held together with
//! the source text it was parsed from and its position in the tree, a list
//! of integers: a list child is reached by a tag and its index, a single
//! child by a tag alone. What a node holds is then named as a function of
//! the source text and the position, since parsing the same text gives the
//! same tree. Only the functions of this module make nodes.

use vstd::prelude::*;
use vstd::string::*;
use quote::ToTokens;

verus! {

#[verifier::external_type_specification]
#[verifier::external_body]
pub struct ExSynFile(syn::File);

#[verifier::external_type_specification]
#[verifier::external_body]
pub struct ExSynItem(syn::Item);

#[verifier::external_type_specification]
#[verifier::external_body]
pub struct ExSynItemStruct(syn::ItemStruct);

#[verifier::external_type_specification]
#[verifier::external_body]
pub struct ExSynItemEnum(syn::ItemEnum);

#[verifier::external_type_specification]
#[verifier::external_body]
pub struct ExSynVariant(syn::Variant);

#[verifier::external_type_specification]
#[verifier::external_body]
pub struct ExSynAttribute(syn::Attribute);

#[verifier::external_type_specification]
#[verifier::external_body]
pub struct ExSynPath(syn::Path);

#[verifier::external_type_specification]
#[verifier::external_body]
pub struct ExSynPathSegment(syn::PathSegment);

#[verifier::external_type_specification]
#[verifier::external_body]
pub struct ExSynIdent(syn::Ident);

#[verifier::external_type_specification]
#[verifier::external_body]
pub struct ExSynType(syn::Type);

#[verifier::external_type_specification]
#[verifier::external_body]
pub struct ExSynGenericArgument(syn::GenericArgument);

/// The tag of the items of a file.
pub open spec fn tag_item() -> int {
    0
}

/// The tag of the attributes of a node.
pub open spec fn tag_attr() -> int {
    1
}

/// The tag of the named fields of a struct.
pub open spec fn tag_field() -> int {
    2
}

/// The tag of the variants of an enum.
pub open spec fn tag_variant() -> int {
    3
}

/// The tag of the segments of a path.
pub open spec fn tag_segment() -> int {
    4
}

/// The tag of the generic arguments of a path segment.
pub open spec fn tag_arg() -> int {
    5
}

/// The tag of the identifier of a node.
pub open spec fn tag_ident() -> int {
    6
}

/// The tag of the path of an attribute or of a path type.
pub open spec fn tag_path() -> int {
    7
}

/// The tag of the type of a field or of a generic argument.
pub open spec fn tag_type() -> int {
    8
}

/// Whether `syn` parses the text as a Rust source file.
pub uninterp spec fn parses_as_rust_file(contents: Seq<char>) -> bool;

/// The message of the error that `syn` gives for text it does not parse
/// (the `Display` of its `syn::Error`, which holds no span).
pub uninterp spec fn syn_parse_error(contents: Seq<char>) -> Seq<char>;

/// The number of items of the file parsed from `src` (`File::items`).
pub uninterp spec fn syn_item_count(src: Seq<char>) -> nat;

/// The kind of the item at `at`: 0 for a struct, 1 for an enum, 2 for any
/// other item.
pub uninterp spec fn syn_item_kind(src: Seq<char>, at: Seq<int>) -> int;

/// The number of attributes of the node at `at` (its `attrs`).
pub uninterp spec fn syn_attr_count(src: Seq<char>, at: Seq<int>) -> nat;

/// The kind of the fields of the struct at `at`: 0 for named fields, 1 for
/// a tuple struct, 2 for a unit struct.
pub uninterp spec fn syn_fields_kind(src: Seq<char>, at: Seq<int>) -> int;

/// The number of named fields of the struct at `at`.
pub uninterp spec fn syn_field_count(src: Seq<char>, at: Seq<int>) -> nat;

/// Whether the field at `at` has an identifier.
pub uninterp spec fn syn_field_has_ident(src: Seq<char>, at: Seq<int>) -> bool;

/// The number of variants of the enum at `at`.
pub uninterp spec fn syn_variant_count(src: Seq<char>, at: Seq<int>) -> nat;

/// The text of the identifier at `at` (`Ident::to_string`).
pub uninterp spec fn syn_ident_text(src: Seq<char>, at: Seq<int>) -> Seq<char>;

/// The line on which the identifier at `at` starts.
pub uninterp spec fn syn_ident_line(src: Seq<char>, at: Seq<int>) -> usize;

/// The tokens of the meta item of the attribute at `at`, printed.
pub uninterp spec fn syn_attr_tokens(src: Seq<char>, at: Seq<int>) -> Seq<char>;

/// The number of segments of the path at `at`.
pub uninterp spec fn syn_segment_count(src: Seq<char>, at: Seq<int>) -> nat;

/// Whether the path at `at` is exactly the identifier `name`
/// (`Path::is_ident`).
pub uninterp spec fn syn_path_is_ident(src: Seq<char>, at: Seq<int>, name: Seq<char>) -> bool;

/// The number of generic arguments in angle brackets of the path segment at
/// `at` (none for other arguments).
pub uninterp spec fn syn_generic_arg_count(src: Seq<char>, at: Seq<int>) -> nat;

/// Whether the generic argument at `at` is a type.
pub uninterp spec fn syn_generic_arg_is_type(src: Seq<char>, at: Seq<int>) -> bool;

/// Whether the type at `at` is a path type.
pub uninterp spec fn syn_type_is_path(src: Seq<char>, at: Seq<int>) -> bool;


/// A parsed file, with the text it was parsed from.
pub struct ParsedFile {
    file: syn::File,
    src: Ghost<Seq<char>>,
}

impl View for ParsedFile {
    type V = Seq<char>;

    /// The text the file was parsed from.
    closed spec fn view(&self) -> Seq<char> {
        self.src@
    }
}

/// A node of a parsed file, with the text of the file and its position.
pub struct Syn<'a, T> {
    node: &'a T,
    src: Ghost<Seq<char>>,
    at: Ghost<Seq<int>>,
}

impl<'a, T> View for Syn<'a, T> {
    type V = (Seq<char>, Seq<int>);

    /// The text of the file and the position of the node in it.
    closed spec fn view(&self) -> (Seq<char>, Seq<int>) {
        (self.src@, self.at@)
    }
}

/// The two kinds of items that carry type definitions, and the rest.
pub enum ItemForm<'a> {
    Struct(Syn<'a, syn::ItemStruct>),
    Enum(Syn<'a, syn::ItemEnum>),
    Other,
}

/// The fields of a struct item: named ones, with their number, a tuple
/// struct's, or none.
pub enum FieldsForm {
    Named(usize),
    Unnamed,
    Unit,
}

/// Calls `syn::parse_str::<syn::File>` and keeps the tree with the text;
/// an error is given as its message. The contract claims that the parse
/// succeeds exactly when the text is what `parses_as_rust_file` stands for,
/// that the file's view is the text, and that the message is what
/// `syn_parse_error` names for the text.
#[verifier::external_body]
pub fn parse_source(contents: &str) -> (r: Result<ParsedFile, String>)
    ensures
        r is Ok <==> parses_as_rust_file(contents@),
        r matches Ok(p) ==> p@ == contents@,
        r matches Err(m) ==> m@ == syn_parse_error(contents@),
{
    match syn::parse_str::<syn::File>(contents) {
        Ok(file) => Ok(ParsedFile { file, src: Ghost(contents@) }),
        Err(e) => Err(e.to_string()),
    }
}

/// The root node of a parsed file: its position is the empty list.
#[verifier::external_body]
pub fn file_root<'a>(p: &'a ParsedFile) -> (r: Syn<'a, syn::File>)
    ensures
        r@ == (p@, Seq::<int>::empty()),
{
    Syn { node: &p.file, src: Ghost(p.src@), at: Ghost(Seq::empty()) }
}

/// The items of a file (`File::items`), in order: as many as
/// `syn_item_count` names, the `i`th at `[tag_item, i]`.
#[verifier::external_body]
pub fn file_items<'a>(f: &Syn<'a, syn::File>) -> (r: Vec<Syn<'a, syn::Item>>)
    ensures
        f@.1 == Seq::<int>::empty() ==> r@.len() == syn_item_count(f@.0),
        forall|i: int| 0 <= i < r@.len() ==> (#[trigger] r@[i])@ == (f@.0, f@.1 + seq![tag_item(), i]),
{
    f.node.items.iter().enumerate().map(
        |(i, it)| Syn { node: it, src: Ghost(f.src@), at: Ghost(f.at@ + seq![tag_item(), i as int]) },
    ).collect()
}

/// Tells the variants of `syn::Item` apart: structs, enums, and the rest, as
/// `syn_item_kind` names; the struct or enum is the same node.
#[verifier::external_body]
pub fn item_form<'a>(item: &Syn<'a, syn::Item>) -> (r: ItemForm<'a>)
    ensures
        r is Struct <==> syn_item_kind(item@.0, item@.1) == 0,
        r is Enum <==> syn_item_kind(item@.0, item@.1) == 1,
        r matches ItemForm::Struct(s) ==> s@ == item@,
        r matches ItemForm::Enum(e) ==> e@ == item@,
{
    match item.node {
        syn::Item::Struct(s) => ItemForm::Struct(Syn { node: s, src: item.src, at: item.at }),
        syn::Item::Enum(e) => ItemForm::Enum(Syn { node: e, src: item.src, at: item.at }),
        _ => ItemForm::Other,
    }
}

/// `ItemStruct::ident`, at `[tag_ident]` below the struct.
#[verifier::external_body]
pub fn struct_ident<'a>(s: &Syn<'a, syn::ItemStruct>) -> (r: Syn<'a, syn::Ident>)
    ensures
        r@ == (s@.0, s@.1.push(tag_ident())),
{
    Syn { node: &s.node.ident, src: s.src, at: Ghost(s.at@.push(tag_ident())) }
}

/// `ItemStruct::attrs`, in order: as many as `syn_attr_count` names, the
/// `k`th at `[tag_attr, k]` below the struct.
#[verifier::external_body]
pub fn struct_attrs<'a>(s: &Syn<'a, syn::ItemStruct>) -> (r: Vec<Syn<'a, syn::Attribute>>)
    ensures
        r@.len() == syn_attr_count(s@.0, s@.1),
        forall|k: int| 0 <= k < r@.len() ==> (#[trigger] r@[k])@ == (s@.0, s@.1 + seq![tag_attr(), k]),
{
    s.node.attrs.iter().enumerate().map(
        |(k, a)| Syn { node: a, src: s.src, at: Ghost(s.at@ + seq![tag_attr(), k as int]) },
    ).collect()
}

/// `ItemStruct::fields`, its three variants told apart as `syn_fields_kind`
/// names, with the number of named fields that `syn_field_count` names.
#[verifier::external_body]
pub fn struct_fields<'a>(s: &Syn<'a, syn::ItemStruct>) -> (r: FieldsForm)
    ensures
        r is Named <==> syn_fields_kind(s@.0, s@.1) == 0,
        r is Unnamed <==> syn_fields_kind(s@.0, s@.1) == 1,
        r matches FieldsForm::Named(n) ==> n == syn_field_count(s@.0, s@.1),
{
    match &s.node.fields {
        syn::Fields::Named(named) => FieldsForm::Named(named.named.len()),
        syn::Fields::Unnamed(_) => FieldsForm::Unnamed,
        syn::Fields::Unit => FieldsForm::Unit,
    }
}

/// The identifier of the `k`th named field of a struct (`Field::ident`),
/// at `[tag_field, k, tag_ident]` below the struct, when it has one.
#[verifier::external_body]
pub fn named_field_ident<'a>(s: &Syn<'a, syn::ItemStruct>, k: usize) -> (r: Option<
    Syn<'a, syn::Ident>,
>)
    requires
        syn_fields_kind(s@.0, s@.1) == 0,
        k < syn_field_count(s@.0, s@.1),
    ensures
        r is Some <==> syn_field_has_ident(s@.0, s@.1 + seq![tag_field(), k as int]),
        r matches Some(id) ==> id@ == (s@.0, s@.1 + seq![tag_field(), k as int, tag_ident()]),
{
    match &s.node.fields {
        syn::Fields::Named(named) => named.named[k].ident.as_ref().map(
            |id| Syn { node: id, src: s.src, at: Ghost(s.at@ + seq![tag_field(), k as int, tag_ident()]) },
        ),
        _ => None,
    }
}

/// The type of the `k`th named field of a struct (`Field::ty`), at
/// `[tag_field, k, tag_type]` below the struct.
#[verifier::external_body]
pub fn named_field_type<'a>(s: &Syn<'a, syn::ItemStruct>, k: usize) -> (r: Option<Syn<'a, syn::Type>>)
    requires
        syn_fields_kind(s@.0, s@.1) == 0,
        k < syn_field_count(s@.0, s@.1),
    ensures
        r is Some,
        r matches Some(t) ==> t@ == (s@.0, s@.1 + seq![tag_field(), k as int, tag_type()]),
{
    match &s.node.fields {
        syn::Fields::Named(named) => Some(
            Syn { node: &named.named[k].ty, src: s.src, at: Ghost(s.at@ + seq![tag_field(), k as int, tag_type()]) },
        ),
        _ => None,
    }
}

/// The attributes of the `k`th named field of a struct (`Field::attrs`), in
/// order: as many as `syn_attr_count` names, the `j`th at
/// `[tag_field, k, tag_attr, j]` below the struct.
#[verifier::external_body]
pub fn named_field_attrs<'a>(s: &Syn<'a, syn::ItemStruct>, k: usize) -> (r: Vec<Syn<'a, syn::Attribute>>)
    requires
        syn_fields_kind(s@.0, s@.1) == 0,
        k < syn_field_count(s@.0, s@.1),
    ensures
        r@.len() == syn_attr_count(s@.0, s@.1 + seq![tag_field(), k as int]),
        forall|j: int|
            0 <= j < r@.len() ==> (#[trigger] r@[j])@ == (
                s@.0,
                s@.1 + seq![tag_field(), k as int, tag_attr(), j],
            ),
{
    match &s.node.fields {
        syn::Fields::Named(named) => named.named[k].attrs.iter().enumerate().map(
            |(j, a)| Syn { node: a, src: s.src, at: Ghost(s.at@ + seq![tag_field(), k as int, tag_attr(), j as int]) },
        ).collect(),
        _ => Vec::new(),
    }
}

/// `ItemEnum::ident`, at `[tag_ident]` below the enum.
#[verifier::external_body]
pub fn enum_ident<'a>(e: &Syn<'a, syn::ItemEnum>) -> (r: Syn<'a, syn::Ident>)
    ensures
        r@ == (e@.0, e@.1.push(tag_ident())),
{
    Syn { node: &e.node.ident, src: e.src, at: Ghost(e.at@.push(tag_ident())) }
}

/// `ItemEnum::attrs`, in order: as many as `syn_attr_count` names, the `k`th
/// at `[tag_attr, k]` below the enum.
#[verifier::external_body]
pub fn enum_attrs<'a>(e: &Syn<'a, syn::ItemEnum>) -> (r: Vec<Syn<'a, syn::Attribute>>)
    ensures
        r@.len() == syn_attr_count(e@.0, e@.1),
        forall|k: int| 0 <= k < r@.len() ==> (#[trigger] r@[k])@ == (e@.0, e@.1 + seq![tag_attr(), k]),
{
    e.node.attrs.iter().enumerate().map(
        |(k, a)| Syn { node: a, src: e.src, at: Ghost(e.at@ + seq![tag_attr(), k as int]) },
    ).collect()
}

/// `ItemEnum::variants`, in order: as many as `syn_variant_count` names, the
/// `k`th at `[tag_variant, k]` below the enum.
#[verifier::external_body]
pub fn enum_variants<'a>(e: &Syn<'a, syn::ItemEnum>) -> (r: Vec<Syn<'a, syn::Variant>>)
    ensures
        r@.len() == syn_variant_count(e@.0, e@.1),
        forall|k: int|
            0 <= k < r@.len() ==> (#[trigger] r@[k])@ == (e@.0, e@.1 + seq![tag_variant(), k]),
{
    e.node.variants.iter().enumerate().map(
        |(k, v)| Syn { node: v, src: e.src, at: Ghost(e.at@ + seq![tag_variant(), k as int]) },
    ).collect()
}

/// `Variant::ident`, at `[tag_ident]` below the variant.
#[verifier::external_body]
pub fn variant_ident<'a>(v: &Syn<'a, syn::Variant>) -> (r: Syn<'a, syn::Ident>)
    ensures
        r@ == (v@.0, v@.1.push(tag_ident())),
{
    Syn { node: &v.node.ident, src: v.src, at: Ghost(v.at@.push(tag_ident())) }
}

/// `Variant::attrs`, in order: as many as `syn_attr_count` names, the `k`th
/// at `[tag_attr, k]` below the variant.
#[verifier::external_body]
pub fn variant_attrs<'a>(v: &Syn<'a, syn::Variant>) -> (r: Vec<Syn<'a, syn::Attribute>>)
    ensures
        r@.len() == syn_attr_count(v@.0, v@.1),
        forall|k: int| 0 <= k < r@.len() ==> (#[trigger] r@[k])@ == (v@.0, v@.1 + seq![tag_attr(), k]),
{
    v.node.attrs.iter().enumerate().map(
        |(k, a)| Syn { node: a, src: v.src, at: Ghost(v.at@ + seq![tag_attr(), k as int]) },
    ).collect()
}

/// The text of an identifier (`proc_macro2::Ident` through `ToString`), as
/// `syn_ident_text` names.
#[verifier::external_body]
pub fn ident_text<'a>(id: &Syn<'a, syn::Ident>) -> (r: String)
    ensures
        r@ == syn_ident_text(id@.0, id@.1),
{
    id.node.to_string()
}

/// The line on which an identifier starts (`Span::start`, with span
/// locations on), as `syn_ident_line` names.
#[verifier::external_body]
pub fn ident_line<'a>(id: &Syn<'a, syn::Ident>) -> (r: usize)
    ensures
        r == syn_ident_line(id@.0, id@.1),
{
    id.node.span().start().line
}

/// `Attribute::path`, at `[tag_path]` below the attribute.
#[verifier::external_body]
pub fn attr_path<'a>(a: &Syn<'a, syn::Attribute>) -> (r: Syn<'a, syn::Path>)
    ensures
        r@ == (a@.0, a@.1.push(tag_path())),
{
    Syn { node: a.node.path(), src: a.src, at: Ghost(a.at@.push(tag_path())) }
}

/// The tokens of `Attribute::meta`, printed (`ToTokens::to_token_stream` of
/// `quote`, then `ToString`), as `syn_attr_tokens` names.
#[verifier::external_body]
pub fn attr_tokens<'a>(a: &Syn<'a, syn::Attribute>) -> (r: String)
    ensures
        r@ == syn_attr_tokens(a@.0, a@.1),
{
    a.node.meta.to_token_stream().to_string()
}

/// `Path::segments`, in order: as many as `syn_segment_count` names, the
/// `k`th at `[tag_segment, k]` below the path.
#[verifier::external_body]
pub fn path_segments<'a>(p: &Syn<'a, syn::Path>) -> (r: Vec<Syn<'a, syn::PathSegment>>)
    ensures
        r@.len() == syn_segment_count(p@.0, p@.1),
        forall|k: int|
            0 <= k < r@.len() ==> (#[trigger] r@[k])@ == (p@.0, p@.1 + seq![tag_segment(), k]),
{
    p.node.segments.iter().enumerate().map(
        |(k, s)| Syn { node: s, src: p.src, at: Ghost(p.at@ + seq![tag_segment(), k as int]) },
    ).collect()
}

/// `Path::is_ident`: whether the path is exactly the single identifier
/// `name`, as `syn_path_is_ident` names.
#[verifier::external_body]
pub fn path_is_ident<'a>(p: &Syn<'a, syn::Path>, name: &str) -> (r: bool)
    ensures
        r == syn_path_is_ident(p@.0, p@.1, name@),
{
    p.node.is_ident(name)
}

/// `PathSegment::ident`, at `[tag_ident]` below the segment.
#[verifier::external_body]
pub fn segment_ident<'a>(s: &Syn<'a, syn::PathSegment>) -> (r: Syn<'a, syn::Ident>)
    ensures
        r@ == (s@.0, s@.1.push(tag_ident())),
{
    Syn { node: &s.node.ident, src: s.src, at: Ghost(s.at@.push(tag_ident())) }
}

/// The generic arguments of a path segment when they are in angle brackets,
/// in order, none otherwise: as many as `syn_generic_arg_count` names, the
/// `k`th at `[tag_arg, k]` below the segment.
#[verifier::external_body]
pub fn segment_generic_args<'a>(s: &Syn<'a, syn::PathSegment>) -> (r: Vec<
    Syn<'a, syn::GenericArgument>,
>)
    ensures
        r@.len() == syn_generic_arg_count(s@.0, s@.1),
        forall|k: int| 0 <= k < r@.len() ==> (#[trigger] r@[k])@ == (s@.0, s@.1 + seq![tag_arg(), k]),
{
    match &s.node.arguments {
        syn::PathArguments::AngleBracketed(args) => args.args.iter().enumerate().map(
            |(k, g)| Syn { node: g, src: s.src, at: Ghost(s.at@ + seq![tag_arg(), k as int]) },
        ).collect(),
        _ => Vec::new(),
    }
}

/// The type of a generic argument that is a type (`GenericArgument::Type`),
/// at `[tag_type]` below the argument; whether there is one is what
/// `syn_generic_arg_is_type` names.
#[verifier::external_body]
pub fn generic_arg_type<'a>(g: &Syn<'a, syn::GenericArgument>) -> (r: Option<Syn<'a, syn::Type>>)
    ensures
        r is Some <==> syn_generic_arg_is_type(g@.0, g@.1),
        r matches Some(t) ==> t@ == (g@.0, g@.1.push(tag_type())),
{
    match g.node {
        syn::GenericArgument::Type(t) => Some(Syn { node: t, src: g.src, at: Ghost(g.at@.push(tag_type())) }),
        _ => None,
    }
}

/// The path of a path type (`Type::Path`), at `[tag_path]` below the type;
/// whether the type is one is what `syn_type_is_path` names.
#[verifier::external_body]
pub fn type_path<'a>(t: &Syn<'a, syn::Type>) -> (r: Option<Syn<'a, syn::Path>>)
    ensures
        r is Some <==> syn_type_is_path(t@.0, t@.1),
        r matches Some(p) ==> p@ == (t@.0, t@.1.push(tag_path())),
{
    match t.node {
        syn::Type::Path(tp) => Some(Syn { node: &tp.path, src: t.src, at: Ghost(t.at@.push(tag_path())) }),
        _ => None,
    }
}

/// The `Debug` text of a type. Nothing is claimed of it: with span
/// locations on, it holds byte offsets into a source map that grows with
/// every parse in the thread, so it depends on more than the type.
#[verifier::external_body]
pub fn type_debug_text<'a>(t: &Syn<'a, syn::Type>) -> String {
    format!("{:?}", t.node)
}

} // verus!
