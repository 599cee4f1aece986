//! What reading a source file gives depends on its text alone, apart from
//! the debug text of types that are not paths: any two lists of items that
//! both hold what syn gives for the same text lead to the same type
//! definitions once unsupported-type texts are left out.

use vstd::prelude::*;
use vstd::string::*;
use crate::parser::{
    definitions_of, enum_definition_of, enum_variants_of, has_mercury, item_fields_of,
    parsed_type, struct_definition_of, struct_fields_of,
};
use crate::rust_source::{
    attr_from_source, attrs_from_source, field_from_source, fields_from_source, item_from_source,
    items_from_source, type_from_source, variant_from_source,
};
use crate::serde_attrs::{apply_serde_attrs, no_serde_attrs, serde_attrs_of, RenameRule};
use crate::syn_access::{tag_arg, tag_attr, tag_field, tag_item, tag_path, tag_segment, tag_type, tag_variant, syn_segment_count};
use crate::syntax::{AttrSyntax, FieldSyntax, FieldsSyntax, ItemSyntax, TypeSyntax, VariantSyntax};
use crate::types::{
    definition_shape, definitions_shape, field_shape, type_shape, FieldView, TypeDefinitionView,
};

verus! {

/// Two attribute lists that agree on each attribute's path test and tokens
/// give the same serde settings.
proof fn lemma_serde_attrs_agree(a: Seq<AttrSyntax>, b: Seq<AttrSyntax>)
    requires
        a.len() == b.len(),
        forall|k: int|
            0 <= k < a.len() ==> (#[trigger] a[k]).path_is_serde == b[k].path_is_serde && a[k].tokens@
                == b[k].tokens@,
    ensures
        apply_serde_attrs(no_serde_attrs(), a) == apply_serde_attrs(no_serde_attrs(), b),
    decreases a.len(),
{
    if a.len() > 0 {
        lemma_serde_attrs_agree(a.drop_last(), b.drop_last());
        assert(a.last().path_is_serde == b.last().path_is_serde);
        assert(a.last().tokens@ == b.last().tokens@);
    }
}

/// The attributes of one node, read twice, give the same serde settings and
/// the same answer on `#[mercury]`.
proof fn lemma_attrs_determined(src: Seq<char>, at: Seq<int>, a: Seq<AttrSyntax>, b: Seq<AttrSyntax>)
    requires
        attrs_from_source(src, at, a),
        attrs_from_source(src, at, b),
    ensures
        serde_attrs_of(a) == serde_attrs_of(b),
        has_mercury(a) == has_mercury(b),
{
    assert forall|k: int| 0 <= k < a.len() implies (#[trigger] a[k]).path_is_serde
        == b[k].path_is_serde && a[k].tokens@ == b[k].tokens@ by {
        assert(attr_from_source(src, at + seq![tag_attr(), k], a[k]));
        assert(attr_from_source(src, at + seq![tag_attr(), k], b[k]));
    }
    lemma_serde_attrs_agree(a, b);
    if has_mercury(a) {
        let (i, j) = choose|i: int, j: int|
            0 <= i < a.len() && 0 <= j < a[i].path_idents@.len() && (
            #[trigger] a[i].path_idents@[j])@ == "mercury"@;
        assert(attr_from_source(src, at + seq![tag_attr(), i], a[i]));
        assert(attr_from_source(src, at + seq![tag_attr(), i], b[i]));
        assert(b[i].path_idents@[j]@ == "mercury"@);
    }
    if has_mercury(b) {
        let (i, j) = choose|i: int, j: int|
            0 <= i < b.len() && 0 <= j < b[i].path_idents@.len() && (
            #[trigger] b[i].path_idents@[j])@ == "mercury"@;
        assert(attr_from_source(src, at + seq![tag_attr(), i], a[i]));
        assert(attr_from_source(src, at + seq![tag_attr(), i], b[i]));
        assert(a[i].path_idents@[j]@ == "mercury"@);
    }
}

/// A type, read twice, gives the same internal type apart from
/// unsupported-type texts.
proof fn lemma_type_determined(src: Seq<char>, at: Seq<int>, depth: nat, t1: TypeSyntax, t2: TypeSyntax)
    requires
        type_from_source(src, at, depth, t1),
        type_from_source(src, at, depth, t2),
    ensures
        type_shape(parsed_type(t1)) == type_shape(parsed_type(t2)),
    decreases depth,
{
    match (t1, t2) {
        (TypeSyntax::Path { last_segment: Some(s1) }, TypeSyntax::Path { last_segment: Some(s2) }) => {
            match (s1.type_argument, s2.type_argument) {
                (Some(i1), Some(i2)) => {
                    let p = at.push(tag_path());
                    let n = syn_segment_count(src, p);
                    let s = p + seq![tag_segment(), n - 1];
                    let arg = s + seq![tag_arg(), 0];
                    lemma_type_determined(src, arg.push(tag_type()), (depth - 1) as nat, *i1, *i2);
                },
                _ => {},
            }
        },
        _ => {},
    }
}

/// Two field lists that agree field by field on the name, the internal
/// type apart from unsupported-type texts, and the serde settings give the
/// same fields apart from those texts.
proof fn lemma_fields_agree(a: Seq<FieldSyntax>, b: Seq<FieldSyntax>, rename_all: Option<RenameRule>)
    requires
        a.len() == b.len(),
        forall|k: int|
            0 <= k < a.len() ==> (#[trigger] a[k]).ident@ == b[k].ident@ && type_shape(
                parsed_type(a[k].ty),
            ) == type_shape(parsed_type(b[k].ty)) && serde_attrs_of(a[k].attrs@) == serde_attrs_of(
                b[k].attrs@,
            ),
    ensures
        struct_fields_of(a, rename_all).map_values(|f: FieldView| field_shape(f))
            == struct_fields_of(b, rename_all).map_values(|f: FieldView| field_shape(f)),
    decreases a.len(),
{
    if a.len() > 0 {
        lemma_fields_agree(a.drop_last(), b.drop_last(), rename_all);
        assert(a.last().ident@ == b.last().ident@);
        assert(type_shape(parsed_type(a.last().ty)) == type_shape(parsed_type(b.last().ty)));
        assert(serde_attrs_of(a.last().attrs@) == serde_attrs_of(b.last().attrs@));
        let pa = struct_fields_of(a.drop_last(), rename_all);
        let pb = struct_fields_of(b.drop_last(), rename_all);
        let fa = struct_fields_of(a, rename_all);
        let fb = struct_fields_of(b, rename_all);
        if fa.len() > pa.len() {
            assert(fa.map_values(|f: FieldView| field_shape(f)) =~= pa.map_values(
                |f: FieldView| field_shape(f),
            ).push(field_shape(fa.last())));
            assert(fb.map_values(|f: FieldView| field_shape(f)) =~= pb.map_values(
                |f: FieldView| field_shape(f),
            ).push(field_shape(fb.last())));
        }
    }
}

/// Two variant lists that agree variant by variant on the name and the
/// serde settings give the same variants.
proof fn lemma_variants_agree(a: Seq<VariantSyntax>, b: Seq<VariantSyntax>, rename_all: Option<RenameRule>)
    requires
        a.len() == b.len(),
        forall|k: int|
            0 <= k < a.len() ==> (#[trigger] a[k]).ident@ == b[k].ident@ && serde_attrs_of(a[k].attrs@)
                == serde_attrs_of(b[k].attrs@),
    ensures
        enum_variants_of(a, rename_all) == enum_variants_of(b, rename_all),
    decreases a.len(),
{
    if a.len() > 0 {
        lemma_variants_agree(a.drop_last(), b.drop_last(), rename_all);
        assert(a.last().ident@ == b.last().ident@);
        assert(serde_attrs_of(a.last().attrs@) == serde_attrs_of(b.last().attrs@));
    }
}

/// The fields of one struct, read twice, give the same fields apart from
/// unsupported-type texts.
proof fn lemma_fields_determined(
    src: Seq<char>,
    at: Seq<int>,
    depth: nat,
    f1: FieldsSyntax,
    f2: FieldsSyntax,
    rename_all: Option<RenameRule>,
)
    requires
        fields_from_source(src, at, depth, f1),
        fields_from_source(src, at, depth, f2),
    ensures
        item_fields_of(f1, rename_all).map_values(|f: FieldView| field_shape(f)) == item_fields_of(
            f2,
            rename_all,
        ).map_values(|f: FieldView| field_shape(f)),
{
    match (f1, f2) {
        (FieldsSyntax::Named(a), FieldsSyntax::Named(b)) => {
            assert forall|k: int| 0 <= k < a@.len() implies (#[trigger] a@[k]).ident@ == b@[k].ident@
                && type_shape(parsed_type(a@[k].ty)) == type_shape(parsed_type(b@[k].ty))
                && serde_attrs_of(a@[k].attrs@) == serde_attrs_of(b@[k].attrs@) by {
                let fat = at + seq![tag_field(), k];
                assert(field_from_source(src, fat, depth, a@[k]));
                assert(field_from_source(src, fat, depth, b@[k]));
                lemma_type_determined(src, fat.push(tag_type()), depth, a@[k].ty, b@[k].ty);
                lemma_attrs_determined(src, fat, a@[k].attrs@, b@[k].attrs@);
            }
            lemma_fields_agree(a@, b@, rename_all);
        },
        _ => {
            assert(Seq::<FieldView>::empty().map_values(|f: FieldView| field_shape(f)) =~= Seq::<
                FieldView,
            >::empty());
        },
    }
}

/// One item, read twice, gives the same definitions apart from
/// unsupported-type texts.
proof fn lemma_item_determined(
    file_path: Seq<char>,
    src: Seq<char>,
    at: Seq<int>,
    depth: nat,
    i1: ItemSyntax,
    i2: ItemSyntax,
)
    requires
        item_from_source(src, at, depth, i1),
        item_from_source(src, at, depth, i2),
    ensures
        definitions_shape(definitions_of(file_path, seq![i1])) == definitions_shape(
            definitions_of(file_path, seq![i2]),
        ),
{
    assert(seq![i1].drop_last() =~= Seq::<ItemSyntax>::empty());
    assert(seq![i2].drop_last() =~= Seq::<ItemSyntax>::empty());
    assert(definitions_of(file_path, Seq::<ItemSyntax>::empty()) =~= Seq::<TypeDefinitionView>::empty());
    match (i1, i2) {
        (
            ItemSyntax::Struct { ident: n1, line: l1, attrs: a1, fields: f1 },
            ItemSyntax::Struct { ident: n2, line: l2, attrs: a2, fields: f2 },
        ) => {
            lemma_attrs_determined(src, at, a1@, a2@);
            let rule = serde_attrs_of(a1@).rename_all;
            lemma_fields_determined(src, at, depth, f1, f2, rule);
            let d1 = struct_definition_of(file_path, n1@, l1, a1@, f1);
            let d2 = struct_definition_of(file_path, n2@, l2, a2@, f2);
            assert(definition_shape(d1) == definition_shape(d2));
            if has_mercury(a1@) {
                assert(definitions_shape(seq![d1]) =~= seq![definition_shape(d1)]);
                assert(definitions_shape(seq![d2]) =~= seq![definition_shape(d2)]);
                assert(definitions_of(file_path, seq![i1]) =~= seq![d1]);
                assert(definitions_of(file_path, seq![i2]) =~= seq![d2]);
            }
        },
        (
            ItemSyntax::Enum { ident: n1, line: l1, attrs: a1, variants: v1 },
            ItemSyntax::Enum { ident: n2, line: l2, attrs: a2, variants: v2 },
        ) => {
            lemma_attrs_determined(src, at, a1@, a2@);
            let rule = serde_attrs_of(a1@).rename_all;
            assert forall|k: int| 0 <= k < v1@.len() implies (#[trigger] v1@[k]).ident@
                == v2@[k].ident@ && serde_attrs_of(v1@[k].attrs@) == serde_attrs_of(v2@[k].attrs@) by {
                let vat = at + seq![tag_variant(), k];
                assert(variant_from_source(src, vat, v1@[k]));
                assert(variant_from_source(src, vat, v2@[k]));
                lemma_attrs_determined(src, vat, v1@[k].attrs@, v2@[k].attrs@);
            }
            lemma_variants_agree(v1@, v2@, rule);
            assert(enum_definition_of(file_path, n1@, l1, a1@, v1@) == enum_definition_of(
                file_path,
                n2@,
                l2,
                a2@,
                v2@,
            ));
        },
        _ => {},
    }
}

/// The definitions of a list of items are those of all but its last item,
/// followed by those of its last item.
proof fn lemma_definitions_split(file_path: Seq<char>, items: Seq<ItemSyntax>)
    requires
        items.len() > 0,
    ensures
        definitions_of(file_path, items) == definitions_of(file_path, items.drop_last())
            + definitions_of(file_path, seq![items.last()]),
{
    let x = items.last();
    assert(seq![x].drop_last() =~= Seq::<ItemSyntax>::empty());
    assert(definitions_of(file_path, Seq::<ItemSyntax>::empty()) =~= Seq::<TypeDefinitionView>::empty());
    assert(seq![x].last() == x);
    let d = definitions_of(file_path, items.drop_last());
    assert(d + Seq::<TypeDefinitionView>::empty() =~= d);
    match x {
        ItemSyntax::Struct { ident, line, attrs, fields } => {
            let sd = struct_definition_of(file_path, ident@, line, attrs@, fields);
            assert(d.push(sd) =~= d + Seq::<TypeDefinitionView>::empty().push(sd));
        },
        ItemSyntax::Enum { ident, line, attrs, variants } => {
            let ed = enum_definition_of(file_path, ident@, line, attrs@, variants@);
            assert(d.push(ed) =~= d + Seq::<TypeDefinitionView>::empty().push(ed));
        },
        ItemSyntax::Other => {},
    }
}

proof fn lemma_items_agree(file_path: Seq<char>, src: Seq<char>, depth: nat, a: Seq<ItemSyntax>, b: Seq<ItemSyntax>)
    requires
        a.len() == b.len(),
        forall|k: int|
            0 <= k < a.len() ==> item_from_source(src, seq![tag_item(), k], depth, #[trigger] a[k]),
        forall|k: int|
            0 <= k < b.len() ==> item_from_source(src, seq![tag_item(), k], depth, #[trigger] b[k]),
    ensures
        definitions_shape(definitions_of(file_path, a)) == definitions_shape(definitions_of(file_path, b)),
    decreases a.len(),
{
    if a.len() > 0 {
        let n = a.len() - 1;
        assert forall|k: int| 0 <= k < a.drop_last().len() implies item_from_source(
            src,
            seq![tag_item(), k],
            depth,
            #[trigger] a.drop_last()[k],
        ) by {
            assert(a.drop_last()[k] == a[k]);
        }
        assert forall|k: int| 0 <= k < b.drop_last().len() implies item_from_source(
            src,
            seq![tag_item(), k],
            depth,
            #[trigger] b.drop_last()[k],
        ) by {
            assert(b.drop_last()[k] == b[k]);
        }
        lemma_items_agree(file_path, src, depth, a.drop_last(), b.drop_last());
        assert(item_from_source(src, seq![tag_item(), n], depth, a[n]));
        assert(item_from_source(src, seq![tag_item(), n], depth, b[n]));
        lemma_item_determined(file_path, src, seq![tag_item(), n], depth, a[n], b[n]);
        lemma_definitions_split(file_path, a);
        lemma_definitions_split(file_path, b);
        let da = definitions_of(file_path, a.drop_last());
        let db = definitions_of(file_path, b.drop_last());
        let la = definitions_of(file_path, seq![a.last()]);
        let lb = definitions_of(file_path, seq![b.last()]);
        assert(definitions_shape(da + la) =~= definitions_shape(da) + definitions_shape(la));
        assert(definitions_shape(db + lb) =~= definitions_shape(db) + definitions_shape(lb));
    }
}

/// Reading a file depends on its text alone, apart from the debug text of
/// types that are not paths: two item lists that both hold what syn gives
/// for the same text have the same type definitions once unsupported-type
/// texts are left out.
pub proof fn law_reading_is_determined_by_text(
    file_path: Seq<char>,
    src: Seq<char>,
    depth: nat,
    a: Seq<ItemSyntax>,
    b: Seq<ItemSyntax>,
)
    requires
        items_from_source(src, depth, a),
        items_from_source(src, depth, b),
    ensures
        definitions_shape(definitions_of(file_path, a)) == definitions_shape(definitions_of(file_path, b)),
{
    lemma_items_agree(file_path, src, depth, a, b);
}

} // verus!
