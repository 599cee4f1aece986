//! Reading Rust source with `syn`: the text is parsed into syn's syntax tree
//! and the parts that type extraction reads are taken over into the plain
//! values of `crate::syntax`.

use vstd::prelude::*;
use vstd::string::*;
use crate::error::MercuryError;
use crate::parser::{definitions_of, type_definitions_from_items};
use crate::syn_access::{
    attr_path, attr_tokens, enum_attrs, enum_ident, enum_variants, file_items, file_root, generic_arg_type, ident_line, ident_text,
    item_form, named_field_attrs, named_field_ident, named_field_type, parse_source, parses_as_rust_file, path_is_ident, path_segments, segment_generic_args,
    segment_ident, struct_attrs, struct_fields, struct_ident, syn_attr_count, syn_attr_tokens,
    syn_field_count, syn_field_has_ident, syn_fields_kind, syn_generic_arg_count,
    syn_generic_arg_is_type, syn_ident_line, syn_ident_text, syn_parse_error, syn_item_count, syn_item_kind,
    syn_path_is_ident, syn_segment_count, syn_type_is_path, syn_variant_count,
    tag_arg, tag_attr, tag_field, tag_ident, tag_item, tag_path, tag_segment, tag_type,
    tag_variant, type_debug_text, type_path, variant_attrs, variant_ident, FieldsForm, ItemForm,
    Syn,
};
use crate::syntax::{
    item_within_depth, type_nesting, AttrSyntax, FieldSyntax, FieldsSyntax, ItemSyntax,
    PathSegmentSyntax, TypeSyntax, VariantSyntax,
};
use crate::text::{chars_of, deep_strings, string_of};
use crate::types::{definitions_view, TypeDefinition};

verus! {

/// Whether `a` holds what syn gives for the attribute at `at` of the file
/// parsed from `src`: the identifiers of its path's segments, whether its
/// path is `serde`, and its printed tokens.
pub open spec fn attr_from_source(src: Seq<char>, at: Seq<int>, a: AttrSyntax) -> bool {
    let p = at.push(tag_path());
    &&& a.path_idents@.len() == syn_segment_count(src, p)
    &&& forall|j: int|
        0 <= j < a.path_idents@.len() ==> (#[trigger] a.path_idents@[j])@ == syn_ident_text(
            src,
            p + seq![tag_segment(), j, tag_ident()],
        )
    &&& a.path_is_serde == syn_path_is_ident(src, p, "serde"@)
    &&& a.tokens@ == syn_attr_tokens(src, at)
}

/// Whether `attrs` hold, one for each and in order, the attributes of the
/// node at `at`.
pub open spec fn attrs_from_source(src: Seq<char>, at: Seq<int>, attrs: Seq<AttrSyntax>) -> bool {
    &&& attrs.len() == syn_attr_count(src, at)
    &&& forall|k: int|
        0 <= k < attrs.len() ==> attr_from_source(src, at + seq![tag_attr(), k], #[trigger] attrs[k])
}

/// Whether `t` holds what syn gives for the type at `at`, type arguments
/// followed at most `depth` levels deep: a path type by the identifier of
/// its last segment and the type of that segment's first generic argument
/// when it is a type; any other type as `Other`, whose debug text is not
/// fixed by the source (it holds span offsets).
pub open spec fn type_from_source(src: Seq<char>, at: Seq<int>, depth: nat, t: TypeSyntax) -> bool
    decreases depth,
{
    match t {
        TypeSyntax::Other { .. } => !syn_type_is_path(src, at),
        TypeSyntax::Path { last_segment } => {
            let p = at.push(tag_path());
            let n = syn_segment_count(src, p);
            syn_type_is_path(src, at) && match last_segment {
                None => n == 0,
                Some(seg) => {
                    let s = p + seq![tag_segment(), n - 1];
                    let arg = s + seq![tag_arg(), 0];
                    let has_inner = syn_generic_arg_count(src, s) > 0 && depth > 0
                        && syn_generic_arg_is_type(src, arg);
                    &&& n > 0
                    &&& seg.ident@ == syn_ident_text(src, s.push(tag_ident()))
                    &&& match seg.type_argument {
                        None => !has_inner,
                        Some(inner) => if has_inner {
                            type_from_source(src, arg.push(tag_type()), (depth - 1) as nat, *inner)
                        } else {
                            false
                        },
                    }
                },
            }
        },
    }
}

/// Whether `f` holds what syn gives for the named field at `at`: its
/// identifier (empty if it had none), its type and its attributes.
pub open spec fn field_from_source(src: Seq<char>, at: Seq<int>, depth: nat, f: FieldSyntax) -> bool {
    &&& if syn_field_has_ident(src, at) {
        f.ident@ == syn_ident_text(src, at.push(tag_ident()))
    } else {
        f.ident@ == Seq::<char>::empty()
    }
    &&& type_from_source(src, at.push(tag_type()), depth, f.ty)
    &&& attrs_from_source(src, at, f.attrs@)
}

/// Whether `fields` hold what syn gives for the fields of the struct at
/// `at`.
pub open spec fn fields_from_source(
    src: Seq<char>,
    at: Seq<int>,
    depth: nat,
    fields: FieldsSyntax,
) -> bool {
    match fields {
        FieldsSyntax::Named(fs) => {
            &&& syn_fields_kind(src, at) == 0
            &&& fs@.len() == syn_field_count(src, at)
            &&& forall|k: int|
                0 <= k < fs@.len() ==> field_from_source(
                    src,
                    at + seq![tag_field(), k],
                    depth,
                    #[trigger] fs@[k],
                )
        },
        FieldsSyntax::Unnamed => syn_fields_kind(src, at) == 1,
        FieldsSyntax::Unit => syn_fields_kind(src, at) != 0 && syn_fields_kind(src, at) != 1,
    }
}

/// Whether `v` holds what syn gives for the variant at `at`.
pub open spec fn variant_from_source(src: Seq<char>, at: Seq<int>, v: VariantSyntax) -> bool {
    &&& v.ident@ == syn_ident_text(src, at.push(tag_ident()))
    &&& attrs_from_source(src, at, v.attrs@)
}

/// Whether `item` holds what syn gives for the item at `at`: a struct or an
/// enum with its identifier, the line of the identifier, its attributes and
/// its fields or variants; any other item as `Other`.
pub open spec fn item_from_source(src: Seq<char>, at: Seq<int>, depth: nat, item: ItemSyntax) -> bool {
    match item {
        ItemSyntax::Struct { ident, line, attrs, fields } => {
            &&& syn_item_kind(src, at) == 0
            &&& ident@ == syn_ident_text(src, at.push(tag_ident()))
            &&& line == syn_ident_line(src, at.push(tag_ident()))
            &&& attrs_from_source(src, at, attrs@)
            &&& fields_from_source(src, at, depth, fields)
        },
        ItemSyntax::Enum { ident, line, attrs, variants } => {
            &&& syn_item_kind(src, at) == 1
            &&& ident@ == syn_ident_text(src, at.push(tag_ident()))
            &&& line == syn_ident_line(src, at.push(tag_ident()))
            &&& attrs_from_source(src, at, attrs@)
            &&& variants@.len() == syn_variant_count(src, at)
            &&& forall|k: int|
                0 <= k < variants@.len() ==> variant_from_source(
                    src,
                    at + seq![tag_variant(), k],
                    #[trigger] variants@[k],
                )
        },
        ItemSyntax::Other => syn_item_kind(src, at) != 0 && syn_item_kind(src, at) != 1,
    }
}

/// Whether `items` hold, one for each and in source order, what syn gives
/// for the items of the file parsed from `src`, type arguments followed at
/// most `depth` levels deep.
pub open spec fn items_from_source(src: Seq<char>, depth: nat, items: Seq<ItemSyntax>) -> bool {
    &&& items.len() == syn_item_count(src)
    &&& forall|i: int|
        0 <= i < items.len() ==> item_from_source(src, seq![tag_item(), i], depth, #[trigger] items[i])
}

fn attr_syntax(a: &Syn<syn::Attribute>) -> (r: AttrSyntax)
    ensures
        attr_from_source(a@.0, a@.1, r),
{
    let path = attr_path(a);
    let segments = path_segments(&path);
    let mut path_idents: Vec<String> = Vec::new();
    let mut i: usize = 0;
    while i < segments.len()
        invariant
            i <= segments.len(),
            path@ == (a@.0, a@.1.push(tag_path())),
            segments@.len() == syn_segment_count(path@.0, path@.1),
            forall|k: int|
                0 <= k < segments@.len() ==> (#[trigger] segments@[k])@ == (
                    path@.0,
                    path@.1 + seq![tag_segment(), k],
                ),
            path_idents@.len() == i,
            forall|j: int|
                0 <= j < i ==> (#[trigger] path_idents@[j])@ == syn_ident_text(
                    a@.0,
                    a@.1.push(tag_path()) + seq![tag_segment(), j, tag_ident()],
                ),
        decreases segments.len() - i,
    {
        let id = segment_ident(&segments[i]);
        assert(segments@[i as int]@.1.push(tag_ident()) =~= a@.1.push(tag_path()) + seq![
            tag_segment(),
            i as int,
            tag_ident(),
        ]);
        path_idents.push(ident_text(&id));
        i += 1;
    }
    AttrSyntax {
        path_idents,
        path_is_serde: path_is_ident(&path, "serde"),
        tokens: attr_tokens(a),
    }
}

/// The syntax of each attribute, one for each, in order.
fn attrs_syntax(attrs: &Vec<Syn<syn::Attribute>>) -> (r: Vec<AttrSyntax>)
    ensures
        r@.len() == attrs@.len(),
        forall|k: int| 0 <= k < r@.len() ==> attr_from_source(attrs@[k]@.0, attrs@[k]@.1, #[trigger] r@[k]),
{
    let mut r: Vec<AttrSyntax> = Vec::new();
    let mut i: usize = 0;
    while i < attrs.len()
        invariant
            i <= attrs.len(),
            r@.len() == i,
            forall|k: int| 0 <= k < i ==> attr_from_source(attrs@[k]@.0, attrs@[k]@.1, #[trigger] r@[k]),
        decreases attrs.len() - i,
    {
        r.push(attr_syntax(&attrs[i]));
        i += 1;
    }
    r
}

/// The syntax of the attributes that a node has, as `attrs_from_source`
/// states.
proof fn lemma_attrs_from_source(
    src: Seq<char>,
    at: Seq<int>,
    attrs: Seq<Syn<syn::Attribute>>,
    r: Seq<AttrSyntax>,
)
    requires
        attrs.len() == syn_attr_count(src, at),
        forall|k: int| 0 <= k < attrs.len() ==> (#[trigger] attrs[k])@ == (src, at + seq![tag_attr(), k]),
        r.len() == attrs.len(),
        forall|k: int| 0 <= k < r.len() ==> attr_from_source(attrs[k]@.0, attrs[k]@.1, #[trigger] r[k]),
    ensures
        attrs_from_source(src, at, r),
{
    assert forall|k: int| 0 <= k < r.len() implies attr_from_source(src, at + seq![tag_attr(), k], #[trigger] r[k]) by {
        assert(attrs[k]@ == (src, at + seq![tag_attr(), k]));
    }
}

/// The syntax of a type. Type arguments are followed at most `depth` levels
/// deep; the callers pass the length of the source text, which no nesting
/// of type arguments can reach, since each level takes at least the two
/// chars of a name and a `<`.
fn type_syntax(t: &Syn<syn::Type>, depth: usize) -> (r: TypeSyntax)
    ensures
        type_nesting(r) <= depth,
        type_from_source(t@.0, t@.1, depth as nat, r),
    decreases depth,
{
    match type_path(t) {
        None => TypeSyntax::Other { debug_text: type_debug_text(t) },
        Some(path) => {
            let segments = path_segments(&path);
            if segments.len() == 0 {
                TypeSyntax::Path { last_segment: None }
            } else {
                let n = segments.len();
                let last = &segments[n - 1];
                let ident = ident_text(&segment_ident(last));
                let args = segment_generic_args(last);
                let ghost s = path@.1 + seq![tag_segment(), n - 1];
                assert(last@ == (t@.0, s));
                assert(s.push(tag_ident()) =~= path@.1 + seq![tag_segment(), n - 1].push(tag_ident()));
                let mut type_argument: Option<Box<TypeSyntax>> = None;
                if args.len() > 0 && depth > 0 {
                    assert(args@[0]@ == (t@.0, s + seq![tag_arg(), 0]));
                    if let Some(inner) = generic_arg_type(&args[0]) {
                        type_argument = Some(Box::new(type_syntax(&inner, depth - 1)));
                    }
                }
                TypeSyntax::Path { last_segment: Some(PathSegmentSyntax { ident, type_argument }) }
            }
        },
    }
}

/// The syntax of a struct item; the types of its fields are followed at most
/// `depth` levels deep.
fn struct_syntax(s: &Syn<syn::ItemStruct>, depth: usize) -> (r: ItemSyntax)
    ensures
        r is Struct,
        item_within_depth(r, depth as nat),
        match r {
            ItemSyntax::Struct { ident, line, attrs, fields } => {
                &&& ident@ == syn_ident_text(s@.0, s@.1.push(tag_ident()))
                &&& line == syn_ident_line(s@.0, s@.1.push(tag_ident()))
                &&& attrs_from_source(s@.0, s@.1, attrs@)
                &&& fields_from_source(s@.0, s@.1, depth as nat, fields)
            },
            _ => false,
        },
{
    let id = struct_ident(s);
    let struct_attr_nodes = struct_attrs(s);
    let attrs = attrs_syntax(&struct_attr_nodes);
    proof {
        lemma_attrs_from_source(s@.0, s@.1, struct_attr_nodes@, attrs@);
    }
    let fields = match struct_fields(s) {
        FieldsForm::Named(n) => {
            let mut fs: Vec<FieldSyntax> = Vec::new();
            let mut i: usize = 0;
            while i < n
                invariant
                    i <= n,
                    n == syn_field_count(s@.0, s@.1),
                    syn_fields_kind(s@.0, s@.1) == 0,
                    fs@.len() == i,
                    forall|k: int| 0 <= k < i ==> type_nesting(#[trigger] fs@[k].ty) <= depth,
                    forall|k: int|
                        0 <= k < i ==> field_from_source(
                            s@.0,
                            s@.1 + seq![tag_field(), k],
                            depth as nat,
                            #[trigger] fs@[k],
                        ),
                decreases n - i,
            {
                let ghost fat = s@.1 + seq![tag_field(), i as int];
                // A named field always has its identifier.
                let ident = match named_field_ident(s, i) {
                    Some(fid) => {
                        assert(fid@.1 =~= fat.push(tag_ident()));
                        ident_text(&fid)
                    },
                    None => String::new(),
                };
                let ty = match named_field_type(s, i) {
                    Some(t) => {
                        assert(t@.1 =~= fat.push(tag_type()));
                        type_syntax(&t, depth)
                    },
                    None => TypeSyntax::Path { last_segment: None },
                };
                let field_attr_nodes = named_field_attrs(s, i);
                assert forall|j: int| 0 <= j < field_attr_nodes@.len() implies (#[trigger] field_attr_nodes@[j])@ == (s@.0, fat + seq![tag_attr(), j]) by {
                    assert(s@.1 + seq![tag_field(), i as int, tag_attr(), j] =~= fat + seq![tag_attr(), j]);
                }
                let field_attr_syntax = attrs_syntax(&field_attr_nodes);
                proof {
                    lemma_attrs_from_source(s@.0, fat, field_attr_nodes@, field_attr_syntax@);
                }
                fs.push(FieldSyntax { ident, ty, attrs: field_attr_syntax });
                i += 1;
            }
            FieldsSyntax::Named(fs)
        },
        FieldsForm::Unnamed => FieldsSyntax::Unnamed,
        FieldsForm::Unit => FieldsSyntax::Unit,
    };
    ItemSyntax::Struct { ident: ident_text(&id), line: ident_line(&id), attrs, fields }
}

/// The syntax of an enum item.
fn enum_syntax(e: &Syn<syn::ItemEnum>) -> (r: ItemSyntax)
    ensures
        r is Enum,
        match r {
            ItemSyntax::Enum { ident, line, attrs, variants } => {
                &&& ident@ == syn_ident_text(e@.0, e@.1.push(tag_ident()))
                &&& line == syn_ident_line(e@.0, e@.1.push(tag_ident()))
                &&& attrs_from_source(e@.0, e@.1, attrs@)
                &&& variants@.len() == syn_variant_count(e@.0, e@.1)
                &&& forall|k: int|
                    0 <= k < variants@.len() ==> variant_from_source(
                        e@.0,
                        e@.1 + seq![tag_variant(), k],
                        #[trigger] variants@[k],
                    )
            },
            _ => false,
        },
{
    let id = enum_ident(e);
    let enum_attr_nodes = enum_attrs(e);
    let attrs = attrs_syntax(&enum_attr_nodes);
    proof {
        lemma_attrs_from_source(e@.0, e@.1, enum_attr_nodes@, attrs@);
    }
    let vs = enum_variants(e);
    let mut variants: Vec<VariantSyntax> = Vec::new();
    let mut i: usize = 0;
    while i < vs.len()
        invariant
            i <= vs.len(),
            vs@.len() == syn_variant_count(e@.0, e@.1),
            forall|k: int|
                0 <= k < vs@.len() ==> (#[trigger] vs@[k])@ == (e@.0, e@.1 + seq![tag_variant(), k]),
            variants@.len() == i,
            forall|k: int|
                0 <= k < i ==> variant_from_source(
                    e@.0,
                    e@.1 + seq![tag_variant(), k],
                    #[trigger] variants@[k],
                ),
        decreases vs.len() - i,
    {
        let v = &vs[i];
        let variant_attr_nodes = variant_attrs(v);
        let variant_attr_syntax = attrs_syntax(&variant_attr_nodes);
        proof {
            lemma_attrs_from_source(v@.0, v@.1, variant_attr_nodes@, variant_attr_syntax@);
        }
        variants.push(
            VariantSyntax { ident: ident_text(&variant_ident(v)), attrs: variant_attr_syntax },
        );
        i += 1;
    }
    ItemSyntax::Enum { ident: ident_text(&id), line: ident_line(&id), attrs, variants }
}

/// The items of a parsed file, as plain syntax.
fn items_syntax(file: &Syn<syn::File>, depth: usize) -> (r: Vec<ItemSyntax>)
    requires
        file@.1 == Seq::<int>::empty(),
    ensures
        forall|i: int| 0 <= i < r@.len() ==> item_within_depth(#[trigger] r@[i], depth as nat),
        items_from_source(file@.0, depth as nat, r@),
{
    let items = file_items(file);
    let mut r: Vec<ItemSyntax> = Vec::new();
    let mut i: usize = 0;
    while i < items.len()
        invariant
            i <= items.len(),
            items@.len() == syn_item_count(file@.0),
            forall|k: int|
                0 <= k < items@.len() ==> (#[trigger] items@[k])@ == (
                    file@.0,
                    file@.1 + seq![tag_item(), k],
                ),
            file@.1 == Seq::<int>::empty(),
            r@.len() == i,
            forall|k: int| 0 <= k < r@.len() ==> item_within_depth(#[trigger] r@[k], depth as nat),
            forall|k: int|
                0 <= k < r@.len() ==> item_from_source(
                    file@.0,
                    seq![tag_item(), k],
                    depth as nat,
                    #[trigger] r@[k],
                ),
        decreases items.len() - i,
    {
        assert(items@[i as int]@.1 =~= seq![tag_item(), i as int]);
        let it = match item_form(&items[i]) {
            ItemForm::Struct(s) => struct_syntax(&s, depth),
            ItemForm::Enum(e) => enum_syntax(&e),
            ItemForm::Other => ItemSyntax::Other,
        };
        r.push(it);
        i += 1;
    }
    r
}

/// Parse a Rust source file and extract mercury-annotated types.
///
/// Text that `syn` does not parse gives a parse error for the file, with
/// syn's message. Otherwise the result is the type definitions of the items
/// that syn gives for the text.
pub fn parse_file(file_path: &str, contents: &str) -> (r: Result<Vec<TypeDefinition>, MercuryError>)
    ensures
        !parses_as_rust_file(contents@) ==> (match r {
            Err(MercuryError::ParseError { file, message }) => file@ == file_path@ && message@
                == syn_parse_error(contents@),
            _ => false,
        }),
        parses_as_rust_file(contents@) ==> (match r {
            Ok(defs) => exists|items: Seq<ItemSyntax>|
                items_from_source(contents@, contents@.len(), items) && definitions_view(defs@)
                    == definitions_of(file_path@, items),
            Err(_) => false,
        }),
{
    let parsed = match parse_source(contents) {
        Ok(tree) => tree,
        Err(message) => {
            let file = string_of(&chars_of(file_path));
            return Err(MercuryError::ParseError { file, message });
        },
    };
    let depth = contents.unicode_len();
    let root = file_root(&parsed);
    let items = items_syntax(&root, depth);
    let defs = type_definitions_from_items(file_path, &items);
    assert(items_from_source(contents@, contents@.len(), items@));
    Ok(defs)
}

} // verus!
