//! The text of a generated PureScript module: its header, the imports it
//! needs, and for each type its declaration (a newtype over a record for a
//! struct, a data type for an enum) followed by its codecs.

use vstd::prelude::*;
use vstd::string::*;
use crate::analyzer::{map_type, mapped_type, purescript_text};
use crate::codec_gen::{
    codecs_text, concat, decoder_line, encoder_entry, generate_codecs, joined, record_field,
    record_label,
};
use crate::generation::TypeModuleMap;
use crate::order::{
    chars_less, chars_lt, lemma_chars_lt_asymmetric, lemma_chars_lt_irreflexive,
    lemma_chars_lt_total, lemma_chars_lt_transitive,
};
use crate::text::{chars_of, deep_strings, str_eq};
use crate::types::{
    custom_types_of, definition_shape, definitions_shape, field_dependencies, field_shape,
    type_shape, definitions_view, dependencies_of, fields_view, variants_view, EnumVariantView, Field,
    FieldView, RustType, RustTypeView, TypeDefinition, TypeDefinitionView, TypeKind, TypeKindView,
};

verus! {

/// The imports that every module has: the Prelude, Argonaut's classes,
/// combinators and error type, `Either` and `Maybe`.
pub open spec fn standard_imports() -> Seq<char> {
    "import Prelude\n"@ + "import Data.Argonaut.Core (Json)\n"@
        + "import Data.Argonaut.Decode (JsonDecodeError(..), (.:), (.:?))\n"@
        + "import Data.Argonaut.Decode.Class (class DecodeJson, decodeJson)\n"@
        + "import Data.Argonaut.Encode.Class (class EncodeJson, encodeJson)\n"@
        + "import Data.Either (Either(..))\n"@ + "import Data.Maybe (Maybe(..))\n"@
}

/// Whether a type is or holds `Uuid`.
pub open spec fn uses_uuid(t: RustTypeView) -> bool
    decreases t,
{
    match t {
        RustTypeView::Uuid => true,
        RustTypeView::Option(inner) => uses_uuid(*inner),
        RustTypeView::Vec(inner) => uses_uuid(*inner),
        _ => false,
    }
}

/// Whether the type of some field is or holds `Uuid`.
pub open spec fn fields_use_uuid(fields: Seq<FieldView>) -> bool
    decreases fields.len(),
{
    if fields.len() == 0 {
        false
    } else {
        fields_use_uuid(fields.drop_last()) || uses_uuid(fields.last().field_type)
    }
}

/// Whether some struct among the definitions has a field of a type that is
/// or holds `Uuid`.
pub open spec fn defs_use_uuid(defs: Seq<TypeDefinitionView>) -> bool
    decreases defs.len(),
{
    if defs.len() == 0 {
        false
    } else {
        defs_use_uuid(defs.drop_last()) || match defs.last().kind {
            TypeKindView::Struct(s) => fields_use_uuid(s.fields),
            TypeKindView::Enum(_) => false,
        }
    }
}

/// The import of `UUID`, for a module whose fields use it.
pub open spec fn uuid_import(defs: Seq<TypeDefinitionView>) -> Seq<char> {
    if defs_use_uuid(defs) {
        "import Data.UUID (UUID)\n"@
    } else {
        Seq::empty()
    }
}

/// The custom type names that the definitions mention, definition after
/// definition.
pub open spec fn all_dependencies(defs: Seq<TypeDefinitionView>) -> Seq<Seq<char>>
    decreases defs.len(),
{
    if defs.len() == 0 {
        Seq::empty()
    } else {
        all_dependencies(defs.drop_last()) + dependencies_of(defs.last())
    }
}

/// `t` put into the list `ts` of names in code point order: left as it is
/// when `t` is already there, else inserted before the first name that
/// comes after it.
pub open spec fn insert_sorted(ts: Seq<Seq<char>>, t: Seq<char>) -> Seq<Seq<char>>
    decreases ts.len(),
{
    if ts.len() == 0 {
        seq![t]
    } else if ts[0] == t {
        ts
    } else if chars_lt(t, ts[0]) {
        seq![t] + ts
    } else {
        seq![ts[0]] + insert_sorted(ts.drop_first(), t)
    }
}

/// The import of type `t` from module `m` put into the list of imports, a
/// module with its types in code point order of module name: added to the
/// types of `m` where `m` is there, else a new import of `m` placed in
/// order.
pub open spec fn insert_import(
    gs: Seq<(Seq<char>, Seq<Seq<char>>)>,
    m: Seq<char>,
    t: Seq<char>,
) -> Seq<(Seq<char>, Seq<Seq<char>>)>
    decreases gs.len(),
{
    if gs.len() == 0 {
        seq![(m, seq![t])]
    } else if gs[0].0 == m {
        seq![(m, insert_sorted(gs[0].1, t))] + gs.drop_first()
    } else if chars_lt(m, gs[0].0) {
        seq![(m, seq![t])] + gs
    } else {
        seq![gs[0]] + insert_import(gs.drop_first(), m, t)
    }
}

/// The imports that a module named `name` needs for the type names `deps`:
/// each type that the map puts in another module is imported from that
/// module; types the map does not know, and types of the module itself,
/// are not imported. The modules come in code point order, each once with
/// its types in code point order, each once.
pub open spec fn import_groups(
    name: Seq<char>,
    deps: Seq<Seq<char>>,
    type_to_module: Map<Seq<char>, Seq<char>>,
) -> Seq<(Seq<char>, Seq<Seq<char>>)>
    decreases deps.len(),
{
    if deps.len() == 0 {
        Seq::empty()
    } else {
        let before = import_groups(name, deps.drop_last(), type_to_module);
        let t = deps.last();
        if type_to_module.contains_key(t) && type_to_module[t] != name {
            insert_import(before, type_to_module[t], t)
        } else {
            before
        }
    }
}

/// Whether the names are in strictly increasing code point order (so each
/// occurs once).
pub open spec fn strictly_sorted(ts: Seq<Seq<char>>) -> bool {
    forall|i: int, j: int| 0 <= i < j < ts.len() ==> chars_lt(#[trigger] ts[i], #[trigger] ts[j])
}

/// Whether the imports come in strictly increasing order of module name,
/// each with a nonempty, strictly increasing list of types.
pub open spec fn imports_sorted(gs: Seq<(Seq<char>, Seq<Seq<char>>)>) -> bool {
    &&& forall|i: int, j: int|
        0 <= i < j < gs.len() ==> chars_lt((#[trigger] gs[i]).0, (#[trigger] gs[j]).0)
    &&& forall|i: int| 0 <= i < gs.len() ==> strictly_sorted((#[trigger] gs[i]).1) && gs[i].1.len() > 0
}

/// Whether the imports import type `t` from module `m`.
pub open spec fn imports(gs: Seq<(Seq<char>, Seq<Seq<char>>)>, m: Seq<char>, t: Seq<char>) -> bool {
    exists|i: int| 0 <= i < gs.len() && (#[trigger] gs[i]).0 == m && gs[i].1.contains(t)
}

proof fn lemma_insert_sorted(ts: Seq<Seq<char>>, t: Seq<char>)
    requires
        strictly_sorted(ts),
    ensures
        strictly_sorted(insert_sorted(ts, t)),
        insert_sorted(ts, t).contains(t),
        forall|x: Seq<char>| ts.contains(x) ==> insert_sorted(ts, t).contains(x),
        forall|x: Seq<char>| insert_sorted(ts, t).contains(x) ==> x == t || ts.contains(x),
        insert_sorted(ts, t).len() > 0,
    decreases ts.len(),
{
    let r = insert_sorted(ts, t);
    if ts.len() == 0 {
        assert(r[0] == t);
    } else if ts[0] == t {
        assert(r[0] == t);
    } else if chars_lt(t, ts[0]) {
        assert forall|i: int, j: int| 0 <= i < j < r.len() implies chars_lt(#[trigger] r[i], #[trigger] r[j]) by {
            if i == 0 {
                if j > 1 {
                    lemma_chars_lt_transitive(t, ts[0], ts[j - 1]);
                }
            } else {
                assert(r[i] == ts[i - 1] && r[j] == ts[j - 1]);
            }
        }
        assert(r[0] == t);
        assert forall|x: Seq<char>| ts.contains(x) implies r.contains(x) by {
            let k = choose|k: int| 0 <= k < ts.len() && ts[k] == x;
            assert(r[k + 1] == x);
        }
        assert forall|x: Seq<char>| r.contains(x) implies x == t || ts.contains(x) by {
            let k = choose|k: int| 0 <= k < r.len() && r[k] == x;
            if k > 0 {
                assert(ts[k - 1] == x);
            }
        }
    } else {
        lemma_chars_lt_total(t, ts[0]);
        let rest = ts.drop_first();
        assert(strictly_sorted(rest)) by {
            assert forall|i: int, j: int| 0 <= i < j < rest.len() implies chars_lt(#[trigger] rest[i], #[trigger] rest[j]) by {
                assert(rest[i] == ts[i + 1] && rest[j] == ts[j + 1]);
            }
        }
        lemma_insert_sorted(rest, t);
        let ri = insert_sorted(rest, t);
        assert(r == seq![ts[0]] + ri);
        assert forall|i: int, j: int| 0 <= i < j < r.len() implies chars_lt(#[trigger] r[i], #[trigger] r[j]) by {
            if i == 0 {
                assert(r[j] == ri[j - 1]);
                assert(ri.contains(ri[j - 1]));
                if ri[j - 1] != t {
                    assert(rest.contains(ri[j - 1]));
                    let k = choose|k: int| 0 <= k < rest.len() && rest[k] == ri[j - 1];
                    assert(ts[k + 1] == rest[k]);
                    assert(chars_lt(ts[0], ts[k + 1]));
                }
            } else {
                assert(r[i] == ri[i - 1] && r[j] == ri[j - 1]);
            }
        }
        assert(r[0] == ts[0]);
        assert forall|x: Seq<char>| ts.contains(x) implies r.contains(x) by {
            let k = choose|k: int| 0 <= k < ts.len() && ts[k] == x;
            if k > 0 {
                assert(rest[k - 1] == x);
                assert(rest.contains(x));
                let m = choose|m: int| 0 <= m < ri.len() && ri[m] == x;
                assert(r[m + 1] == x);
            }
        }
        assert forall|x: Seq<char>| r.contains(x) implies x == t || ts.contains(x) by {
            let k = choose|k: int| 0 <= k < r.len() && r[k] == x;
            if k > 0 {
                assert(ri[k - 1] == x);
                assert(ri.contains(x));
                if x != t {
                    assert(rest.contains(x));
                    let m = choose|m: int| 0 <= m < rest.len() && rest[m] == x;
                    assert(ts[m + 1] == x);
                }
            }
        }
        assert(r.contains(t)) by {
            let m = choose|m: int| 0 <= m < ri.len() && ri[m] == t;
            assert(r[m + 1] == t);
        }
    }
}

proof fn lemma_insert_import(gs: Seq<(Seq<char>, Seq<Seq<char>>)>, m: Seq<char>, t: Seq<char>)
    requires
        imports_sorted(gs),
    ensures
        imports_sorted(insert_import(gs, m, t)),
        imports(insert_import(gs, m, t), m, t),
        forall|m2: Seq<char>, t2: Seq<char>|
            imports(gs, m2, t2) ==> #[trigger] imports(insert_import(gs, m, t), m2, t2),
        forall|i: int|
            0 <= i < insert_import(gs, m, t).len() ==> (#[trigger] insert_import(gs, m, t)[i]).0 == m
                || exists|j: int| 0 <= j < gs.len() && gs[j].0 == insert_import(gs, m, t)[i].0,
    decreases gs.len(),
{
    let r = insert_import(gs, m, t);
    if gs.len() == 0 {
        assert(r[0].1 == seq![t]);
        assert(r[0].1[0] == t);
    } else if gs[0].0 == m {
        lemma_insert_sorted(gs[0].1, t);
        assert forall|i: int, j: int| 0 <= i < j < r.len() implies chars_lt((#[trigger] r[i]).0, (#[trigger] r[j]).0) by {
            assert(r[j] == gs[j]);
            if i > 0 {
                assert(r[i] == gs[i]);
            }
        }
        assert forall|i: int| 0 <= i < r.len() implies strictly_sorted((#[trigger] r[i]).1) && r[i].1.len() > 0 by {
            if i > 0 {
                assert(r[i] == gs[i]);
            }
        }
        assert(imports(r, m, t)) by {
            assert(r[0].0 == m && r[0].1.contains(t));
        }
        assert forall|m2: Seq<char>, t2: Seq<char>| imports(gs, m2, t2) implies #[trigger] imports(r, m2, t2) by {
            let k = choose|k: int| 0 <= k < gs.len() && (#[trigger] gs[k]).0 == m2 && gs[k].1.contains(t2);
            if k == 0 {
                assert(r[0].0 == m2 && r[0].1.contains(t2));
            } else {
                assert(r[k] == gs[k]);
            }
        }
        assert forall|i: int| 0 <= i < r.len() implies (#[trigger] r[i]).0 == m || exists|j: int|
            0 <= j < gs.len() && gs[j].0 == r[i].0 by {
            if i > 0 {
                assert(r[i] == gs[i]);
            }
        }
    } else if chars_lt(m, gs[0].0) {
        assert forall|i: int, j: int| 0 <= i < j < r.len() implies chars_lt((#[trigger] r[i]).0, (#[trigger] r[j]).0) by {
            if i == 0 {
                if j > 1 {
                    lemma_chars_lt_transitive(m, gs[0].0, gs[j - 1].0);
                }
                assert(r[j] == gs[j - 1]);
            } else {
                assert(r[i] == gs[i - 1] && r[j] == gs[j - 1]);
            }
        }
        assert forall|i: int| 0 <= i < r.len() implies strictly_sorted((#[trigger] r[i]).1) && r[i].1.len() > 0 by {
            if i > 0 {
                assert(r[i] == gs[i - 1]);
            }
        }
        assert(imports(r, m, t)) by {
            assert(r[0].1[0] == t);
            assert(r[0].0 == m && r[0].1.contains(t));
        }
        assert forall|m2: Seq<char>, t2: Seq<char>| imports(gs, m2, t2) implies #[trigger] imports(r, m2, t2) by {
            let k = choose|k: int| 0 <= k < gs.len() && (#[trigger] gs[k]).0 == m2 && gs[k].1.contains(t2);
            assert(r[k + 1] == gs[k]);
        }
        assert forall|i: int| 0 <= i < r.len() implies (#[trigger] r[i]).0 == m || exists|j: int|
            0 <= j < gs.len() && gs[j].0 == r[i].0 by {
            if i > 0 {
                assert(r[i] == gs[i - 1]);
            }
        }
    } else {
        lemma_chars_lt_total(m, gs[0].0);
        let rest = gs.drop_first();
        assert(imports_sorted(rest)) by {
            assert forall|i: int, j: int| 0 <= i < j < rest.len() implies chars_lt((#[trigger] rest[i]).0, (#[trigger] rest[j]).0) by {
                assert(rest[i] == gs[i + 1] && rest[j] == gs[j + 1]);
            }
            assert forall|i: int| 0 <= i < rest.len() implies strictly_sorted((#[trigger] rest[i]).1) && rest[i].1.len() > 0 by {
                assert(rest[i] == gs[i + 1]);
            }
        }
        lemma_insert_import(rest, m, t);
        let ri = insert_import(rest, m, t);
        assert(r == seq![gs[0]] + ri);
        assert forall|i: int, j: int| 0 <= i < j < r.len() implies chars_lt((#[trigger] r[i]).0, (#[trigger] r[j]).0) by {
            if i == 0 {
                assert(r[j] == ri[j - 1]);
                if ri[j - 1].0 != m {
                    let k = choose|k: int| 0 <= k < rest.len() && rest[k].0 == ri[j - 1].0;
                    assert(gs[k + 1] == rest[k]);
                }
            } else {
                assert(r[i] == ri[i - 1] && r[j] == ri[j - 1]);
            }
        }
        assert forall|i: int| 0 <= i < r.len() implies strictly_sorted((#[trigger] r[i]).1) && r[i].1.len() > 0 by {
            if i > 0 {
                assert(r[i] == ri[i - 1]);
            }
        }
        assert(imports(r, m, t)) by {
            let k = choose|k: int| 0 <= k < ri.len() && (#[trigger] ri[k]).0 == m && ri[k].1.contains(t);
            assert(r[k + 1] == ri[k]);
        }
        assert forall|m2: Seq<char>, t2: Seq<char>| imports(gs, m2, t2) implies #[trigger] imports(r, m2, t2) by {
            let k = choose|k: int| 0 <= k < gs.len() && (#[trigger] gs[k]).0 == m2 && gs[k].1.contains(t2);
            if k == 0 {
                assert(r[0] == gs[0]);
            } else {
                assert(rest[k - 1] == gs[k]);
                assert(imports(rest, m2, t2));
                assert(imports(ri, m2, t2));
                let k2 = choose|k2: int| 0 <= k2 < ri.len() && (#[trigger] ri[k2]).0 == m2 && ri[k2].1.contains(t2);
                assert(r[k2 + 1] == ri[k2]);
            }
        }
        assert forall|i: int| 0 <= i < r.len() implies (#[trigger] r[i]).0 == m || exists|j: int|
            0 <= j < gs.len() && gs[j].0 == r[i].0 by {
            if i == 0 {
                assert(gs[0].0 == r[0].0);
            } else {
                assert(r[i] == ri[i - 1]);
                if ri[i - 1].0 != m {
                    let k = choose|k: int| 0 <= k < rest.len() && rest[k].0 == ri[i - 1].0;
                    assert(gs[k + 1] == rest[k]);
                }
            }
        }
    }
}

/// The imports of a module are consolidated and sorted: one line per
/// module, the modules in strictly increasing code point order, each with
/// its types in strictly increasing order; and every type name mentioned
/// that the map puts in another module is imported from that module.
pub proof fn law_imports_sorted_and_complete(
    name: Seq<char>,
    deps: Seq<Seq<char>>,
    type_to_module: Map<Seq<char>, Seq<char>>,
)
    ensures
        imports_sorted(import_groups(name, deps, type_to_module)),
        forall|k: int|
            0 <= k < deps.len() && type_to_module.contains_key(deps[k]) && type_to_module[deps[k]]
                != name ==> imports(
                import_groups(name, deps, type_to_module),
                type_to_module[deps[k]],
                #[trigger] deps[k],
            ),
    decreases deps.len(),
{
    if deps.len() > 0 {
        let before = import_groups(name, deps.drop_last(), type_to_module);
        law_imports_sorted_and_complete(name, deps.drop_last(), type_to_module);
        let t = deps.last();
        if type_to_module.contains_key(t) && type_to_module[t] != name {
            lemma_insert_import(before, type_to_module[t], t);
        }
        assert forall|k: int|
            0 <= k < deps.len() && type_to_module.contains_key(deps[k]) && type_to_module[deps[k]]
                != name implies imports(
            import_groups(name, deps, type_to_module),
            type_to_module[deps[k]],
            #[trigger] deps[k],
        ) by {
            if k < deps.len() - 1 {
                assert(deps.drop_last()[k] == deps[k]);
            }
        }
    }
}

/// The import line of one module: `import M (T1, T2)`.
pub open spec fn import_line(g: (Seq<char>, Seq<Seq<char>>)) -> Seq<char> {
    "import "@ + g.0 + " ("@ + joined(g.1, ", "@) + ")\n"@
}

/// The declaration of one record field: its label and its PureScript type.
pub open spec fn field_declaration(f: FieldView) -> Seq<char> {
    record_label(f.json_name) + " :: "@ + purescript_text(mapped_type(f.field_type))
}

/// The declaration of a type: a newtype over a record for a struct, a data
/// type with one constructor per variant for an enum.
pub open spec fn declaration_text(d: TypeDefinitionView) -> Seq<char> {
    match d.kind {
        TypeKindView::Struct(s) => "newtype "@ + d.name + " = "@ + d.name + "\n"@ + if s.fields.len()
            == 0 {
            "  {}\n"@
        } else {
            "  { "@ + joined(s.fields.map_values(|f: FieldView| field_declaration(f)), "\n  , "@)
                + "\n  }\n"@
        },
        TypeKindView::Enum(e) => "data "@ + d.name + if e.variants.len() == 0 {
            Seq::empty()
        } else {
            "\n  = "@ + joined(e.variants.map_values(|v: EnumVariantView| v.rust_name), "\n  | "@)
        } + "\n"@,
    }
}

/// The section of one type: a blank line, its declaration, a blank line and
/// its codecs.
pub open spec fn type_section(d: TypeDefinitionView) -> Seq<char> {
    "\n"@ + declaration_text(d) + "\n"@ + codecs_text(d)
}

/// The text of a module: its header, the standard imports, the import of
/// `UUID` where a field uses it, one import line per other module whose
/// types its types mention (see `import_groups`), and the section of each
/// type in order.
pub open spec fn module_text(
    name: Seq<char>,
    defs: Seq<TypeDefinitionView>,
    type_to_module: Map<Seq<char>, Seq<char>>,
) -> Seq<char> {
    "module "@ + name + " where\n\n"@ + standard_imports() + uuid_import(defs) + concat(
        import_groups(name, all_dependencies(defs), type_to_module).map_values(
            |g: (Seq<char>, Seq<Seq<char>>)| import_line(g),
        ),
    ) + concat(defs.map_values(|d: TypeDefinitionView| type_section(d)))
}

fn type_uses_uuid(t: &RustType) -> (r: bool)
    ensures
        r == uses_uuid(t@),
    decreases t,
{
    match t {
        RustType::Uuid => true,
        RustType::Option(inner) => type_uses_uuid(inner),
        RustType::Vec(inner) => type_uses_uuid(inner),
        _ => false,
    }
}

fn any_uses_uuid(defs: &Vec<TypeDefinition>) -> (r: bool)
    ensures
        r == defs_use_uuid(definitions_view(defs@)),
{
    let ghost dv = definitions_view(defs@);
    let mut found = false;
    let mut i: usize = 0;
    assert(dv.take(0) =~= Seq::<TypeDefinitionView>::empty());
    while i < defs.len()
        invariant
            i <= defs.len(),
            dv == definitions_view(defs@),
            found == defs_use_uuid(dv.take(i as int)),
        decreases defs.len() - i,
    {
        assert(dv.take(i + 1).drop_last() =~= dv.take(i as int));
        assert(dv.take(i + 1).last() == defs@[i as int]@);
        match &defs[i].kind {
            TypeKind::Struct(s) => {
                let fields = &s.fields;
                let ghost fv = fields_view(fields@);
                let mut in_fields = false;
                let mut j: usize = 0;
                assert(fv.take(0) =~= Seq::<FieldView>::empty());
                while j < fields.len()
                    invariant
                        j <= fields.len(),
                        fv == fields_view(fields@),
                        in_fields == fields_use_uuid(fv.take(j as int)),
                    decreases fields.len() - j,
                {
                    assert(fv.take(j + 1).drop_last() =~= fv.take(j as int));
                    assert(fv.take(j + 1).last() == fields@[j as int]@);
                    let u = type_uses_uuid(&fields[j].field_type);
                    in_fields = in_fields || u;
                    j += 1;
                }
                assert(fv.take(fields.len() as int) =~= fv);
                found = found || in_fields;
            },
            TypeKind::Enum(_) => {},
        }
        i += 1;
    }
    assert(dv.take(defs.len() as int) =~= dv);
    found
}

fn dependencies_in_order(defs: &Vec<TypeDefinition>) -> (deps: Vec<String>)
    ensures
        deep_strings(deps@) == all_dependencies(definitions_view(defs@)),
{
    let ghost dv = definitions_view(defs@);
    let mut deps: Vec<String> = Vec::new();
    let mut i: usize = 0;
    assert(dv.take(0) =~= Seq::<TypeDefinitionView>::empty());
    assert(deep_strings(deps@) =~= Seq::<Seq<char>>::empty());
    while i < defs.len()
        invariant
            i <= defs.len(),
            dv == definitions_view(defs@),
            deep_strings(deps@) == all_dependencies(dv.take(i as int)),
        decreases defs.len() - i,
    {
        assert(dv.take(i + 1).drop_last() =~= dv.take(i as int));
        assert(dv.take(i + 1).last() == defs@[i as int]@);
        let mut more = defs[i].collect_dependencies();
        let ghost before = deps@;
        let ghost added = more@;
        deps.append(&mut more);
        assert(deps@ =~= before + added);
        assert(deep_strings(deps@) =~= deep_strings(before) + deep_strings(added));
        i += 1;
    }
    assert(dv.take(defs.len() as int) =~= dv);
    deps
}

/// The views of a list of imports.
pub open spec fn imports_view(gs: Seq<(String, Vec<String>)>) -> Seq<(Seq<char>, Seq<Seq<char>>)> {
    gs.map_values(|g: (String, Vec<String>)| (g.0@, deep_strings(g.1@)))
}

proof fn lemma_insert_sorted_prefix(ts: Seq<Seq<char>>, t: Seq<char>, i: int)
    requires
        0 <= i <= ts.len(),
        forall|j: int| 0 <= j < i ==> chars_lt(#[trigger] ts[j], t),
    ensures
        insert_sorted(ts, t) == ts.take(i) + insert_sorted(ts.skip(i), t),
    decreases i,
{
    if i > 0 {
        lemma_chars_lt_irreflexive(t);
        lemma_chars_lt_asymmetric(ts[0], t);
        assert forall|j: int| 0 <= j < i - 1 implies chars_lt(#[trigger] ts.drop_first()[j], t) by {
            assert(ts.drop_first()[j] == ts[j + 1]);
        }
        lemma_insert_sorted_prefix(ts.drop_first(), t, i - 1);
        assert(ts.drop_first().skip(i - 1) =~= ts.skip(i));
        assert(seq![ts[0]] + ts.drop_first().take(i - 1) =~= ts.take(i));
        assert(ts[0] != t);
    } else {
        assert(ts.skip(0) =~= ts);
        assert(ts.take(0) + insert_sorted(ts, t) =~= insert_sorted(ts, t));
    }
}

fn text_less(a: &str, b: &str) -> (r: bool)
    ensures
        r == chars_lt(a@, b@),
{
    chars_less(&chars_of(a), &chars_of(b))
}

/// Puts `t` into the sorted list `ts` (see `insert_sorted`).
fn insert_sorted_text(ts: &mut Vec<String>, t: &str)
    ensures
        deep_strings(final(ts)@) == insert_sorted(deep_strings(old(ts)@), t@),
{
    let ghost d = deep_strings(ts@);
    let mut i: usize = 0;
    while i < ts.len()
        invariant
            i <= ts.len(),
            d == deep_strings(ts@),
            d == deep_strings(old(ts)@),
            forall|j: int| 0 <= j < i ==> chars_lt(#[trigger] d[j], t@),
        decreases ts.len() - i,
    {
        assert(d[i as int] == ts@[i as int]@);
        if str_eq(ts[i].as_str(), t) {
            proof {
                lemma_insert_sorted_prefix(d, t@, i as int);
                assert(d.skip(i as int)[0] == t@);
                assert(d.take(i as int) + d.skip(i as int) =~= d);
            }
            return;
        }
        if text_less(t, ts[i].as_str()) {
            proof {
                lemma_insert_sorted_prefix(d, t@, i as int);
                assert(d.skip(i as int)[0] == d[i as int]);
            }
            ts.insert(i, t.to_string());
            proof {
                assert(deep_strings(ts@) =~= d.take(i as int) + (seq![t@] + d.skip(i as int)));
            }
            return;
        }
        proof {
            lemma_chars_lt_total(d[i as int], t@);
        }
        i += 1;
    }
    proof {
        lemma_insert_sorted_prefix(d, t@, ts.len() as int);
        assert(d.skip(ts.len() as int) =~= Seq::<Seq<char>>::empty());
        assert(d.take(ts.len() as int) =~= d);
    }
    ts.push(t.to_string());
    assert(deep_strings(ts@) =~= d + seq![t@]);
}

proof fn lemma_insert_import_prefix(
    gs: Seq<(Seq<char>, Seq<Seq<char>>)>,
    m: Seq<char>,
    t: Seq<char>,
    i: int,
)
    requires
        0 <= i <= gs.len(),
        forall|j: int| 0 <= j < i ==> chars_lt((#[trigger] gs[j]).0, m),
    ensures
        insert_import(gs, m, t) == gs.take(i) + insert_import(gs.skip(i), m, t),
    decreases i,
{
    if i > 0 {
        lemma_chars_lt_irreflexive(m);
        lemma_chars_lt_asymmetric(gs[0].0, m);
        assert forall|j: int| 0 <= j < i - 1 implies chars_lt((#[trigger] gs.drop_first()[j]).0, m) by {
            assert(gs.drop_first()[j] == gs[j + 1]);
        }
        lemma_insert_import_prefix(gs.drop_first(), m, t, i - 1);
        assert(gs.drop_first().skip(i - 1) =~= gs.skip(i));
        assert(seq![gs[0]] + gs.drop_first().take(i - 1) =~= gs.take(i));
        assert(gs[0].0 != m);
    } else {
        assert(gs.skip(0) =~= gs);
        assert(gs.take(0) + insert_import(gs, m, t) =~= insert_import(gs, m, t));
    }
}

/// Puts the import of `t` from `m` into the list (see `insert_import`).
fn insert_import_text(gs: &mut Vec<(String, Vec<String>)>, m: &str, t: &str)
    ensures
        imports_view(final(gs)@) == insert_import(imports_view(old(gs)@), m@, t@),
{
    let ghost d = imports_view(gs@);
    let mut i: usize = 0;
    while i < gs.len()
        invariant
            i <= gs.len(),
            d == imports_view(gs@),
            d == imports_view(old(gs)@),
            forall|j: int| 0 <= j < i ==> chars_lt((#[trigger] d[j]).0, m@),
        decreases gs.len() - i,
    {
        assert(d[i as int] == (gs@[i as int].0@, deep_strings(gs@[i as int].1@)));
        if str_eq(gs[i].0.as_str(), m) {
            proof {
                lemma_insert_import_prefix(d, m@, t@, i as int);
                assert(d.skip(i as int)[0] == d[i as int]);
                assert(d.skip(i as int).drop_first() =~= d.skip(i + 1));
            }
            let mut g = gs.remove(i);
            insert_sorted_text(&mut g.1, t);
            let ghost gv = (g.0@, deep_strings(g.1@));
            gs.insert(i, g);
            proof {
                assert(imports_view(gs@) =~= d.take(i as int) + (seq![gv] + d.skip(i + 1)));
                assert(gv == (m@, insert_sorted(d[i as int].1, t@)));
            }
            return;
        }
        if text_less(m, gs[i].0.as_str()) {
            proof {
                lemma_insert_import_prefix(d, m@, t@, i as int);
                assert(d.skip(i as int)[0] == d[i as int]);
            }
            let mut ts: Vec<String> = Vec::new();
            ts.push(t.to_string());
            let ghost tv = deep_strings(ts@);
            assert(tv =~= seq![t@]);
            gs.insert(i, (m.to_string(), ts));
            proof {
                assert(imports_view(gs@) =~= d.take(i as int) + (seq![(m@, seq![t@])] + d.skip(
                    i as int,
                )));
            }
            return;
        }
        proof {
            lemma_chars_lt_total(d[i as int].0, m@);
        }
        i += 1;
    }
    proof {
        lemma_insert_import_prefix(d, m@, t@, gs.len() as int);
        assert(d.skip(gs.len() as int) =~= Seq::<(Seq<char>, Seq<Seq<char>>)>::empty());
        assert(d.take(gs.len() as int) =~= d);
    }
    let mut ts: Vec<String> = Vec::new();
    ts.push(t.to_string());
    assert(deep_strings(ts@) =~= seq![t@]);
    gs.push((m.to_string(), ts));
    assert(imports_view(gs@) =~= d + seq![(m@, seq![t@])]);
}

fn imports_of(name: &str, deps: &Vec<String>, type_to_module: &TypeModuleMap) -> (gs: Vec<
    (String, Vec<String>),
>)
    ensures
        imports_view(gs@) == import_groups(name@, deep_strings(deps@), type_to_module@),
{
    let ghost dv = deep_strings(deps@);
    let mut gs: Vec<(String, Vec<String>)> = Vec::new();
    let mut i: usize = 0;
    assert(dv.take(0) =~= Seq::<Seq<char>>::empty());
    assert(imports_view(gs@) =~= Seq::<(Seq<char>, Seq<Seq<char>>)>::empty());
    while i < deps.len()
        invariant
            i <= deps.len(),
            dv == deep_strings(deps@),
            imports_view(gs@) == import_groups(name@, dv.take(i as int), type_to_module@),
        decreases deps.len() - i,
    {
        assert(dv.take(i + 1).drop_last() =~= dv.take(i as int));
        assert(dv.take(i + 1).last() == deps@[i as int]@);
        let t = deps[i].as_str();
        match type_to_module.get(t) {
            Some(m) => {
                if !str_eq(m.as_str(), name) {
                    insert_import_text(&mut gs, m.as_str(), t);
                }
            },
            None => {},
        }
        i += 1;
    }
    assert(dv.take(deps.len() as int) =~= dv);
    gs
}

/// Appends the import line of one module.
fn push_import_line(code: &mut String, g: &(String, Vec<String>))
    ensures
        final(code)@ == old(code)@ + import_line((g.0@, deep_strings(g.1@))),
{
    code.append("import ");
    code.append(g.0.as_str());
    code.append(" (");
    let ghost head = code@;
    let ghost ts = deep_strings(g.1@);
    let mut i: usize = 0;
    while i < g.1.len()
        invariant
            i <= g.1.len(),
            ts == deep_strings(g.1@),
            code@ == head + joined(ts.take(i as int), ", "@),
        decreases g.1.len() - i,
    {
        assert(ts.take(i + 1).drop_last() =~= ts.take(i as int));
        assert(ts[i as int] == g.1@[i as int]@);
        if i > 0 {
            code.append(", ");
        }
        code.append(g.1[i].as_str());
        assert(code@ =~= head + joined(ts.take(i + 1), ", "@));
        i += 1;
    }
    assert(ts.take(g.1.len() as int) =~= ts);
    code.append(")\n");
    assert(code@ =~= old(code)@ + import_line((g.0@, ts)));
}

fn push_field_declaration(out: &mut String, f: &Field)
    ensures
        final(out)@ == old(out)@ + field_declaration(f@),
{
    if crate::codec_gen::is_plain_label(f.json_name.as_str()) {
        out.append(f.json_name.as_str());
    } else {
        out.append("\"");
        out.append(f.json_name.as_str());
        out.append("\"");
    }
    out.append(" :: ");
    let ps = map_type(&f.field_type);
    let text = ps.to_purescript();
    out.append(text.as_str());
    assert(out@ =~= old(out)@ + field_declaration(f@));
}

fn push_declaration(out: &mut String, d: &TypeDefinition)
    ensures
        final(out)@ == old(out)@ + declaration_text(d@),
{
    let ghost start = out@;
    match &d.kind {
        TypeKind::Struct(s) => {
            out.append("newtype ");
            out.append(d.name.as_str());
            out.append(" = ");
            out.append(d.name.as_str());
            out.append("\n");
            let fields = &s.fields;
            if fields.len() == 0 {
                out.append("  {}\n");
                assert(fields_view(fields@).len() == 0);
            } else {
                out.append("  { ");
                let ghost head = out@;
                let ghost decls = fields_view(fields@).map_values(|f: FieldView| field_declaration(f));
                let mut i: usize = 0;
                while i < fields.len()
                    invariant
                        i <= fields.len(),
                        decls == fields_view(fields@).map_values(|f: FieldView| field_declaration(f)),
                        decls.len() == fields.len(),
                        out@ == head + joined(decls.take(i as int), "\n  , "@),
                    decreases fields.len() - i,
                {
                    assert(decls.take(i + 1).drop_last() =~= decls.take(i as int));
                    assert(decls[i as int] == field_declaration(fields@[i as int]@));
                    if i > 0 {
                        out.append("\n  , ");
                    }
                    push_field_declaration(out, &fields[i]);
                    assert(out@ =~= head + joined(decls.take(i + 1), "\n  , "@));
                    i += 1;
                }
                assert(decls.take(fields.len() as int) =~= decls);
                out.append("\n  }\n");
            }
        },
        TypeKind::Enum(e) => {
            out.append("data ");
            out.append(d.name.as_str());
            let variants = &e.variants;
            if variants.len() > 0 {
                out.append("\n  = ");
                let ghost head = out@;
                let ghost names = variants_view(variants@).map_values(
                    |v: EnumVariantView| v.rust_name,
                );
                let mut i: usize = 0;
                while i < variants.len()
                    invariant
                        i <= variants.len(),
                        names == variants_view(variants@).map_values(|v: EnumVariantView| v.rust_name),
                        names.len() == variants.len(),
                        out@ == head + joined(names.take(i as int), "\n  | "@),
                    decreases variants.len() - i,
                {
                    assert(names.take(i + 1).drop_last() =~= names.take(i as int));
                    assert(names[i as int] == variants@[i as int].rust_name@);
                    if i > 0 {
                        out.append("\n  | ");
                    }
                    out.append(variants[i].rust_name.as_str());
                    assert(out@ =~= head + joined(names.take(i + 1), "\n  | "@));
                    i += 1;
                }
                assert(names.take(variants.len() as int) =~= names);
            } else {
                assert(variants_view(variants@).len() == 0);
            }
            out.append("\n");
        },
    }
    assert(out@ =~= start + declaration_text(d@));
}

/// Appends the import lines of the modules, in order.
fn push_import_lines(code: &mut String, groups: &Vec<(String, Vec<String>)>)
    ensures
        final(code)@ == old(code)@ + concat(
            imports_view(groups@).map_values(|g: (Seq<char>, Seq<Seq<char>>)| import_line(g)),
        ),
{
    let ghost lines = imports_view(groups@).map_values(
        |g: (Seq<char>, Seq<Seq<char>>)| import_line(g),
    );
    let ghost head = code@;
    let mut i: usize = 0;
    assert(lines.take(0) =~= Seq::<Seq<char>>::empty());
    while i < groups.len()
        invariant
            i <= groups.len(),
            lines == imports_view(groups@).map_values(
                |g: (Seq<char>, Seq<Seq<char>>)| import_line(g),
            ),
            lines.len() == groups.len(),
            code@ == head + concat(lines.take(i as int)),
        decreases groups.len() - i,
    {
        assert(lines.take(i + 1).drop_last() =~= lines.take(i as int));
        assert(lines[i as int] == import_line((groups@[i as int].0@, deep_strings(groups@[i as int].1@))));
        push_import_line(code, &groups[i]);
        assert(code@ =~= head + concat(lines.take(i + 1)));
        i += 1;
    }
    assert(lines.take(groups.len() as int) =~= lines);
}

/// Appends the section of each type, in order.
fn push_sections(code: &mut String, type_defs: &Vec<TypeDefinition>)
    ensures
        final(code)@ == old(code)@ + concat(
            definitions_view(type_defs@).map_values(|d: TypeDefinitionView| type_section(d)),
        ),
{
    let ghost dv = definitions_view(type_defs@);
    let ghost mid = code@;
    let ghost sections = dv.map_values(|d: TypeDefinitionView| type_section(d));
    let mut i: usize = 0;
    assert(sections.take(0) =~= Seq::<Seq<char>>::empty());
    while i < type_defs.len()
        invariant
            i <= type_defs.len(),
            dv == definitions_view(type_defs@),
            sections == dv.map_values(|d: TypeDefinitionView| type_section(d)),
            sections.len() == type_defs.len(),
            code@ == mid + concat(sections.take(i as int)),
        decreases type_defs.len() - i,
    {
        assert(sections.take(i + 1).drop_last() =~= sections.take(i as int));
        assert(sections[i as int] == type_section(type_defs@[i as int]@));
        let ghost before = code@;
        code.append("\n");
        push_declaration(code, &type_defs[i]);
        code.append("\n");
        let codecs = generate_codecs(&type_defs[i]);
        code.append(codecs.as_str());
        assert(code@ =~= before + type_section(type_defs@[i as int]@));
        assert(code@ =~= mid + concat(sections.take(i + 1)));
        i += 1;
    }
    assert(sections.take(type_defs.len() as int) =~= sections);
}

/// Generate the text of a PureScript module (see `module_text`): header,
/// imports, and the declaration and codecs of each type, in order.
pub fn generate_module(
    module_name: &str,
    type_defs: &Vec<TypeDefinition>,
    type_to_module: &TypeModuleMap,
) -> (code: String)
    ensures
        code@ == module_text(module_name@, definitions_view(type_defs@), type_to_module@),
{
    let ghost dv = definitions_view(type_defs@);
    let mut code = String::new();
    code.append("module ");
    code.append(module_name);
    code.append(" where\n\n");
    code.append("import Prelude\n");
    code.append("import Data.Argonaut.Core (Json)\n");
    code.append("import Data.Argonaut.Decode (JsonDecodeError(..), (.:), (.:?))\n");
    code.append("import Data.Argonaut.Decode.Class (class DecodeJson, decodeJson)\n");
    code.append("import Data.Argonaut.Encode.Class (class EncodeJson, encodeJson)\n");
    code.append("import Data.Either (Either(..))\n");
    code.append("import Data.Maybe (Maybe(..))\n");
    if any_uses_uuid(type_defs) {
        code.append("import Data.UUID (UUID)\n");
    }
    assert(code@ =~= "module "@ + module_name@ + " where\n\n"@ + standard_imports() + uuid_import(dv));
    let deps = dependencies_in_order(type_defs);
    let groups = imports_of(module_name, &deps, type_to_module);
    let ghost header = code@;
    push_import_lines(&mut code, &groups);
    let ghost with_imports = code@;
    push_sections(&mut code, type_defs);
    assert(code@ =~= header + (with_imports.subrange(header.len() as int, with_imports.len() as int)
        + code@.subrange(with_imports.len() as int, code@.len() as int)));
    code
}

proof fn lemma_type_shape_kept(t: RustTypeView)
    ensures
        mapped_type(type_shape(t)) == mapped_type(t),
        custom_types_of(type_shape(t)) == custom_types_of(t),
        uses_uuid(type_shape(t)) == uses_uuid(t),
        (type_shape(t) is Option) == (t is Option),
    decreases t,
{
    match t {
        RustTypeView::Option(inner) => lemma_type_shape_kept(*inner),
        RustTypeView::Vec(inner) => lemma_type_shape_kept(*inner),
        _ => {},
    }
}

proof fn lemma_fields_shape_kept(fields: Seq<FieldView>)
    ensures
        field_dependencies(fields.map_values(|f: FieldView| field_shape(f))) == field_dependencies(
            fields,
        ),
        fields_use_uuid(fields.map_values(|f: FieldView| field_shape(f))) == fields_use_uuid(fields),
        fields.map_values(|f: FieldView| field_shape(f)).map_values(
            |f: FieldView| field_declaration(f),
        ) == fields.map_values(|f: FieldView| field_declaration(f)),
        fields.map_values(|f: FieldView| field_shape(f)).map_values(|f: FieldView| decoder_line(f))
            == fields.map_values(|f: FieldView| decoder_line(f)),
        fields.map_values(|f: FieldView| field_shape(f)).map_values(|f: FieldView| encoder_entry(f))
            == fields.map_values(|f: FieldView| encoder_entry(f)),
        fields.map_values(|f: FieldView| field_shape(f)).map_values(
            |f: FieldView| record_field(f.json_name),
        ) == fields.map_values(|f: FieldView| record_field(f.json_name)),
    decreases fields.len(),
{
    let s = fields.map_values(|f: FieldView| field_shape(f));
    assert forall|i: int| 0 <= i < fields.len() implies field_declaration(#[trigger] s[i])
        == field_declaration(fields[i]) && decoder_line(s[i]) == decoder_line(fields[i])
        && encoder_entry(s[i]) == encoder_entry(fields[i]) by {
        lemma_type_shape_kept(fields[i].field_type);
    }
    assert(s.map_values(|f: FieldView| field_declaration(f)) =~= fields.map_values(
        |f: FieldView| field_declaration(f),
    ));
    assert(s.map_values(|f: FieldView| decoder_line(f)) =~= fields.map_values(
        |f: FieldView| decoder_line(f),
    ));
    assert(s.map_values(|f: FieldView| encoder_entry(f)) =~= fields.map_values(
        |f: FieldView| encoder_entry(f),
    ));
    assert(s.map_values(|f: FieldView| record_field(f.json_name)) =~= fields.map_values(
        |f: FieldView| record_field(f.json_name),
    ));
    if fields.len() > 0 {
        lemma_fields_shape_kept(fields.drop_last());
        assert(s.drop_last() =~= fields.drop_last().map_values(|f: FieldView| field_shape(f)));
        lemma_type_shape_kept(fields.last().field_type);
    }
}

proof fn lemma_definition_shape_kept(d: TypeDefinitionView)
    ensures
        dependencies_of(definition_shape(d)) == dependencies_of(d),
        type_section(definition_shape(d)) == type_section(d),
{
    match d.kind {
        TypeKindView::Struct(st) => {
            lemma_fields_shape_kept(st.fields);
        },
        TypeKindView::Enum(_) => {},
    }
}

proof fn lemma_definitions_shape_kept(defs: Seq<TypeDefinitionView>)
    ensures
        all_dependencies(definitions_shape(defs)) == all_dependencies(defs),
        defs_use_uuid(definitions_shape(defs)) == defs_use_uuid(defs),
        definitions_shape(defs).map_values(|d: TypeDefinitionView| type_section(d)) == defs.map_values(
            |d: TypeDefinitionView| type_section(d),
        ),
    decreases defs.len(),
{
    let s = definitions_shape(defs);
    assert forall|i: int| 0 <= i < defs.len() implies type_section(#[trigger] s[i]) == type_section(defs[i]) by {
        lemma_definition_shape_kept(defs[i]);
    }
    assert(s.map_values(|d: TypeDefinitionView| type_section(d)) =~= defs.map_values(
        |d: TypeDefinitionView| type_section(d),
    ));
    if defs.len() > 0 {
        lemma_definitions_shape_kept(defs.drop_last());
        assert(s.drop_last() =~= definitions_shape(defs.drop_last()));
        lemma_definition_shape_kept(defs.last());
        match defs.last().kind {
            TypeKindView::Struct(st) => {
                lemma_fields_shape_kept(st.fields);
            },
            TypeKindView::Enum(_) => {},
        }
    }
}

/// The text of a module does not show the texts of unsupported types (they
/// are written as `String`): two lists of definitions that are equal apart
/// from those texts give the same module text.
pub proof fn law_module_text_ignores_unsupported_texts(
    name: Seq<char>,
    d1: Seq<TypeDefinitionView>,
    d2: Seq<TypeDefinitionView>,
    type_to_module: Map<Seq<char>, Seq<char>>,
)
    requires
        definitions_shape(d1) == definitions_shape(d2),
    ensures
        module_text(name, d1, type_to_module) == module_text(name, d2, type_to_module),
{
    lemma_definitions_shape_kept(d1);
    lemma_definitions_shape_kept(d2);
}

/// `Uuid` is found through `Option` and `Vec`: a type uses `UUID` exactly
/// when what it wraps does, and `Uuid` itself does.
pub proof fn law_uuid_found_through_wrappers(t: RustTypeView)
    ensures
        uses_uuid(RustTypeView::Uuid),
        uses_uuid(RustTypeView::Vec(Box::new(t))) == uses_uuid(t),
        uses_uuid(RustTypeView::Option(Box::new(t))) == uses_uuid(t),
        uses_uuid(RustTypeView::Vec(Box::new(RustTypeView::Uuid))),
        uses_uuid(RustTypeView::Option(Box::new(RustTypeView::Vec(Box::new(RustTypeView::Uuid))))),
{
    reveal_with_fuel(uses_uuid, 3);
}

proof fn lemma_field_uses_uuid(fields: Seq<FieldView>, j: int)
    requires
        0 <= j < fields.len(),
        uses_uuid(fields[j].field_type),
    ensures
        fields_use_uuid(fields),
    decreases fields.len(),
{
    if j < fields.len() - 1 {
        assert(fields.drop_last()[j] == fields[j]);
        lemma_field_uses_uuid(fields.drop_last(), j);
    }
}

proof fn lemma_def_uses_uuid(defs: Seq<TypeDefinitionView>, i: int)
    requires
        0 <= i < defs.len(),
        defs[i].kind matches TypeKindView::Struct(s) && fields_use_uuid(s.fields),
    ensures
        defs_use_uuid(defs),
    decreases defs.len(),
{
    if i < defs.len() - 1 {
        assert(defs.drop_last()[i] == defs[i]);
        lemma_def_uses_uuid(defs.drop_last(), i);
    }
}

/// A module whose structs have a field of a type that uses `UUID` (such
/// as `Uuid`, `Vec<Uuid>` or `Option<Vec<Uuid>>`) imports it: its text
/// starts with its header, the standard imports and
/// `import Data.UUID (UUID)`.
pub proof fn law_uuid_fields_import_uuid(
    name: Seq<char>,
    defs: Seq<TypeDefinitionView>,
    type_to_module: Map<Seq<char>, Seq<char>>,
    i: int,
    j: int,
)
    requires
        0 <= i < defs.len(),
        defs[i].kind matches TypeKindView::Struct(s) && 0 <= j < s.fields.len() && uses_uuid(
            s.fields[j].field_type,
        ),
    ensures
        exists|rest: Seq<char>|
            module_text(name, defs, type_to_module) == "module "@ + name + " where\n\n"@
                + standard_imports() + "import Data.UUID (UUID)\n"@ + rest,
{
    if let TypeKindView::Struct(s) = defs[i].kind {
        lemma_field_uses_uuid(s.fields, j);
    }
    lemma_def_uses_uuid(defs, i);
    let rest = concat(
        import_groups(name, all_dependencies(defs), type_to_module).map_values(
            |g: (Seq<char>, Seq<Seq<char>>)| import_line(g),
        ),
    ) + concat(defs.map_values(|d: TypeDefinitionView| type_section(d)));
    assert(module_text(name, defs, type_to_module) =~= "module "@ + name + " where\n\n"@
        + standard_imports() + "import Data.UUID (UUID)\n"@ + rest);
}

} // verus!
