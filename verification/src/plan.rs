//! The computation of a generation run: the source files are read in path
//! order, their type definitions collected, grouped into modules and
//! indexed by name.

use vstd::prelude::*;
use crate::error::MercuryError;
use crate::generation::{
    law_grouping_is_unique, law_grouping_keeps_every_type_once, grouped_type_count,
    build_type_to_module_map, group_types_by_module, grouped_by_module, groups_view, in_module,
    groups_shape, lemma_grouped_shape, lemma_module_entries_shape, module_dirs, module_entries, module_file_name, module_file_name_of, module_name_of, pairs_view,
    ModuleGroup,
    TypeModuleMap,
};
use crate::codegen::{law_module_text_ignores_unsupported_texts, module_text};
use crate::order::{lemma_path_lt_irreflexive, path_lt};
use crate::parser::{definitions_of, lemma_definitions_source_file};
use crate::paths::{path_components, path_file_stem};
use crate::rust_source::{items_from_source, parse_file};
use crate::source_laws::law_reading_is_determined_by_text;
use crate::syn_access::{parses_as_rust_file, syn_parse_error};
use crate::sources::{
    files_view, order_by_source_path, ordered_by_path, path_key, sorted_by_path, SourceFile,
    SourceFileView,
};
use crate::syntax::ItemSyntax;
use crate::types::{definitions_shape, definitions_view, TypeDefinition, TypeDefinitionView};

verus! {

/// Whether `defs` are the type definitions that parsing the file gives:
/// syn parses its text, and `defs` are the definitions of the items that
/// syn gives for it.
pub open spec fn read_from(f: SourceFileView, defs: Seq<TypeDefinitionView>) -> bool {
    &&& parses_as_rust_file(f.contents)
    &&& exists|items: Seq<ItemSyntax>|
        #![trigger definitions_of(f.path, items)]
        items_from_source(f.contents, f.contents.len(), items) && defs == definitions_of(
            f.path,
            items,
        )
}

/// The lists one after the other.
pub open spec fn concat_definitions(chunks: Seq<Seq<TypeDefinitionView>>) -> Seq<
    TypeDefinitionView,
>
    decreases chunks.len(),
{
    if chunks.len() == 0 {
        Seq::empty()
    } else {
        concat_definitions(chunks.drop_last()) + chunks.last()
    }
}

/// Whether `defs` are the definitions of the files, file after file.
pub open spec fn read_in_order(files: Seq<SourceFileView>, defs: Seq<TypeDefinitionView>) -> bool {
    exists|chunks: Seq<Seq<TypeDefinitionView>>|
        chunks.len() == files.len() && (forall|k: int|
            0 <= k < files.len() ==> read_from(#[trigger] files[k], chunks[k])) && defs
            == concat_definitions(chunks)
}

/// Whether an error is the parse error for the file `f`, whose text syn
/// does not parse: the file's path with syn's message.
pub open spec fn parse_error_for(f: SourceFileView, e: MercuryError) -> bool {
    &&& !parses_as_rust_file(f.contents)
    &&& match e {
        MercuryError::ParseError { file, message } => file@ == f.path && message@
            == syn_parse_error(f.contents),
        _ => false,
    }
}

/// Whether an error is a parse error for one of the files, all files before
/// which were read.
pub open spec fn parse_error_in(files: Seq<SourceFileView>, e: MercuryError) -> bool {
    exists|k: int, chunks: Seq<Seq<TypeDefinitionView>>|
        #![trigger files[k], chunks.len()]
        0 <= k < files.len() && parse_error_for(files[k], e) && chunks.len() == k && (forall|j: int|
            0 <= j < k ==> read_from(#[trigger] files[j], chunks[j]))
}

/// The type definitions of the source files, read in path order; the first
/// file that does not parse stops the reading with its parse error.
pub fn collect_definitions(files: &Vec<SourceFile>) -> (r: Result<
    Vec<TypeDefinition>,
    MercuryError,
>)
    ensures
        match r {
            Ok(defs) => read_in_order(
                sorted_by_path(files_view(files@)),
                definitions_view(defs@),
            ),
            Err(e) => parse_error_in(sorted_by_path(files_view(files@)), e),
        },
{
    let sorted = order_by_source_path(files);
    let ghost sv = files_view(sorted@);
    let mut all: Vec<TypeDefinition> = Vec::new();
    let ghost mut chunks: Seq<Seq<TypeDefinitionView>> = Seq::empty();
    let mut i: usize = 0;
    while i < sorted.len()
        invariant
            i <= sorted.len(),
            sv == files_view(sorted@),
            sv == sorted_by_path(files_view(files@)),
            chunks.len() == i,
            forall|k: int| 0 <= k < i ==> read_from(#[trigger] sv[k], chunks[k]),
            definitions_view(all@) == concat_definitions(chunks),
        decreases sorted.len() - i,
    {
        let f = &sorted[i];
        assert(sv[i as int] == f@);
        match parse_file(f.path.as_str(), f.contents.as_str()) {
            Ok(mut defs) => {
                let ghost d = definitions_view(defs@);
                proof {
                    let items = choose|items: Seq<ItemSyntax>|
                        items_from_source(f.contents@, f.contents@.len(), items) && definitions_view(
                            defs@,
                        ) == definitions_of(f.path@, items);
                    assert(f@.contents == f.contents@ && f@.path == f.path@);
                    assert(items_from_source(f@.contents, f@.contents.len(), items) && d
                        == definitions_of(f@.path, items));
                    assert(read_from(f@, d));
                }
                let ghost before = all@;
                let ghost old_chunks = chunks;
                all.append(&mut defs);
                proof {
                    chunks = chunks.push(d);
                    assert(chunks.drop_last() =~= old_chunks);
                    assert(definitions_view(all@) =~= definitions_view(before) + d);
                    assert forall|k: int| 0 <= k < i + 1 implies read_from(#[trigger] sv[k], chunks[k]) by {
                        if k < i {
                            assert(chunks[k] == old_chunks[k]);
                        }
                    }
                }
            },
            Err(e) => {
                proof {
                    assert(!parses_as_rust_file(f.contents@));
                    assert(sv[i as int].path == f.path@ && sv[i as int].contents == f.contents@);
                    if let MercuryError::ParseError { file, .. } = &e {
                        assert(file@ == f.path@);
                        assert(sv[i as int].path == file@);
                    }
                    assert(parse_error_for(sv[i as int], e));
                    assert(chunks.len() == i);
                    assert(parse_error_in(sv, e));
                }
                return Err(e);
            },
        }
        i += 1;
    }
    proof {
        assert(chunks.len() == sv.len());
    }
    Ok(all)
}

/// Result of a successful code generation run
#[derive(Debug, Clone)]
pub struct GenerationResult {
    /// Number of types generated
    pub type_count: usize,
    /// Number of modules written
    pub module_count: usize,
    /// List of generated file paths
    pub generated_files: Vec<String>,
}

/// What a generation run writes: the number of types, the modules with
/// their types, the map from type name to module, and the output file of
/// each module.
#[derive(Debug)]
pub struct GenerationPlan {
    pub type_count: usize,
    pub modules: Vec<ModuleGroup>,
    pub type_to_module: TypeModuleMap,
    pub file_names: Vec<String>,
}

/// Whether `plan` is the plan for the type definitions `defs`.
pub open spec fn plan_for(plan: GenerationPlan, defs: Seq<TypeDefinitionView>) -> bool {
    &&& plan.type_count == defs.len()
    &&& grouped_by_module(groups_view(plan.modules@), defs)
    &&& pairs_view(plan.type_to_module.entries@) == module_entries(groups_view(plan.modules@))
    &&& plan.file_names@.len() == plan.modules@.len()
    &&& forall|i: int|
        0 <= i < plan.modules@.len() ==> (#[trigger] plan.file_names@[i])@ == module_file_name_of(
            plan.modules@[i].name@,
        )
}

/// The plan for a list of type definitions.
pub fn plan_from_definitions(defs: &Vec<TypeDefinition>, workspace_root: &str) -> (plan:
    GenerationPlan)
    ensures
        plan_for(plan, definitions_view(defs@)),
{
    let modules = group_types_by_module(defs.as_slice(), workspace_root);
    let type_to_module = build_type_to_module_map(&modules);
    let mut file_names: Vec<String> = Vec::new();
    let mut i: usize = 0;
    while i < modules.len()
        invariant
            i <= modules.len(),
            file_names@.len() == i,
            forall|k: int|
                0 <= k < i ==> (#[trigger] file_names@[k])@ == module_file_name_of(
                    modules@[k].name@,
                ),
        decreases modules.len() - i,
    {
        file_names.push(module_file_name(modules[i].name.as_str()));
        i += 1;
    }
    GenerationPlan { type_count: defs.len(), modules, type_to_module, file_names }
}

/// The computation of a generation run over the source files: their type
/// definitions, read in path order, and the plan for them; or the parse
/// error of the first file in path order that does not parse.
pub fn plan_generation(files: &Vec<SourceFile>, workspace_root: &str) -> (r: Result<
    GenerationPlan,
    MercuryError,
>)
    ensures
        match r {
            Ok(p) => exists|defs: Seq<TypeDefinitionView>|
                #![trigger plan_for(p, defs)]
                read_in_order(sorted_by_path(files_view(files@)), defs) && plan_for(p, defs),
            Err(e) => parse_error_in(sorted_by_path(files_view(files@)), e),
        },
{
    let defs = match collect_definitions(files) {
        Ok(defs) => defs,
        Err(e) => {
            return Err(e);
        },
    };
    let plan = plan_from_definitions(&defs, workspace_root);
    let ghost dv = definitions_view(defs@);
    assert(read_in_order(sorted_by_path(files_view(files@)), dv));
    assert(plan_for(plan, dv));
    let r = Ok(plan);
    assert(match r {
        Ok(p) => plan_for(p, dv),
        Err(_) => false,
    });
    r
}

/// The key by which a definition's source file is ordered.
pub open spec fn source_key(d: TypeDefinitionView) -> Seq<Seq<char>> {
    path_components(d.source_file)
}

/// Whether no definition's source path comes before that of a definition
/// ahead of it.
pub open spec fn in_path_order(defs: Seq<TypeDefinitionView>) -> bool {
    forall|i: int, j: int|
        0 <= i < j < defs.len() ==> !path_lt(
            source_key(#[trigger] defs[j]),
            source_key(#[trigger] defs[i]),
        )
}

proof fn lemma_in_module_from(defs: Seq<TypeDefinitionView>, name: Seq<char>)
    ensures
        forall|i: int|
            0 <= i < in_module(defs, name).len() ==> exists|k: int|
                0 <= k < defs.len() && #[trigger] in_module(defs, name)[i] == defs[k],
    decreases defs.len(),
{
    if defs.len() > 0 {
        let init = defs.drop_last();
        lemma_in_module_from(init, name);
        let m = in_module(defs, name);
        assert forall|i: int| 0 <= i < m.len() implies exists|k: int|
            0 <= k < defs.len() && #[trigger] m[i] == defs[k] by {
            if i < in_module(init, name).len() {
                let k = choose|k: int| 0 <= k < init.len() && in_module(init, name)[i] == init[k];
                assert(m[i] == in_module(init, name)[i]);
                assert(defs[k] == init[k]);
            } else {
                assert(m[i] == defs[defs.len() - 1]);
            }
        }
    }
}

proof fn lemma_in_module_keeps_order(defs: Seq<TypeDefinitionView>, name: Seq<char>)
    requires
        in_path_order(defs),
    ensures
        in_path_order(in_module(defs, name)),
    decreases defs.len(),
{
    if defs.len() > 0 {
        let init = defs.drop_last();
        assert(in_path_order(init)) by {
            assert forall|i: int, j: int| 0 <= i < j < init.len() implies !path_lt(
                source_key(#[trigger] init[j]),
                source_key(#[trigger] init[i]),
            ) by {
                assert(init[i] == defs[i] && init[j] == defs[j]);
            }
        }
        lemma_in_module_keeps_order(init, name);
        lemma_in_module_from(init, name);
        let mi = in_module(init, name);
        let m = in_module(defs, name);
        assert forall|i: int, j: int| 0 <= i < j < m.len() implies !path_lt(
            source_key(#[trigger] m[j]),
            source_key(#[trigger] m[i]),
        ) by {
            if j < mi.len() {
                assert(m[i] == mi[i] && m[j] == mi[j]);
            } else {
                assert(m[j] == defs[defs.len() - 1]);
                assert(m[i] == mi[i]);
                let k = choose|k: int| 0 <= k < init.len() && #[trigger] mi[i] == init[k];
                assert(init[k] == defs[k]);
            }
        }
    }
}

/// Whether a definition comes from one of the first `n` files.
pub open spec fn from_one_of(d: TypeDefinitionView, files: Seq<SourceFileView>, n: int) -> bool {
    exists|k: int| 0 <= k < n && d.source_file == #[trigger] files[k].path
}

proof fn lemma_chunks_in_path_order(files: Seq<SourceFileView>, chunks: Seq<Seq<TypeDefinitionView>>)
    requires
        ordered_by_path(files),
        chunks.len() <= files.len(),
        forall|k: int, m: int|
            0 <= k < chunks.len() && 0 <= m < chunks[k].len() ==> (#[trigger] chunks[k][m]).source_file
                == files[k].path,
    ensures
        in_path_order(concat_definitions(chunks)),
        forall|i: int|
            0 <= i < concat_definitions(chunks).len() ==> from_one_of(
                #[trigger] concat_definitions(chunks)[i],
                files,
                chunks.len() as int,
            ),
    decreases chunks.len(),
{
    if chunks.len() > 0 {
        let init = chunks.drop_last();
        let last = chunks.last();
        let n = chunks.len() - 1;
        assert forall|k: int, m: int|
            0 <= k < init.len() && 0 <= m < init[k].len() implies (#[trigger] init[k][m]).source_file
            == files[k].path by {
            assert(init[k] == chunks[k]);
        }
        lemma_chunks_in_path_order(files, init);
        let before = concat_definitions(init);
        let all = concat_definitions(chunks);
        assert(all == before + last);
        assert forall|i: int, j: int| 0 <= i < j < all.len() implies !path_lt(
            source_key(#[trigger] all[j]),
            source_key(#[trigger] all[i]),
        ) by {
            if j < before.len() {
                assert(all[i] == before[i] && all[j] == before[j]);
            } else if i < before.len() {
                assert(all[i] == before[i]);
                assert(from_one_of(before[i], files, init.len() as int));
                let k = choose|k: int| 0 <= k < init.len() && before[i].source_file == files[k].path;
                assert(all[j] == last[j - before.len()]);
                assert(last == chunks[n]);
                assert(chunks[n][j - before.len()].source_file == files[n].path);
                assert(!path_lt(path_key(files[n]), path_key(files[k])));
            } else {
                assert(all[i] == last[i - before.len()]);
                assert(all[j] == last[j - before.len()]);
                assert(last == chunks[n]);
                assert(chunks[n][i - before.len()].source_file == files[n].path);
                assert(chunks[n][j - before.len()].source_file == files[n].path);
                lemma_path_lt_irreflexive(path_key(files[n]));
            }
        }
        assert forall|i: int| 0 <= i < all.len() implies from_one_of(
            #[trigger] all[i],
            files,
            chunks.len() as int,
        ) by {
            if i < before.len() {
                assert(all[i] == before[i]);
                assert(from_one_of(before[i], files, init.len() as int));
                let k = choose|k: int| 0 <= k < init.len() && before[i].source_file == files[k].path;
                assert(files[k] == files[k]);
            } else {
                assert(all[i] == last[i - before.len()]);
                assert(last == chunks[n]);
                assert(chunks[n][i - before.len()].source_file == files[n].path);
            }
        }
    }
}

/// Output ordered by source path: when the files are read in path order,
/// the types of every module come in the order of the paths of their
/// source files, whatever the type names.
pub proof fn law_module_types_in_path_order(
    files: Seq<SourceFileView>,
    defs: Seq<TypeDefinitionView>,
    name: Seq<char>,
)
    requires
        ordered_by_path(files),
        read_in_order(files, defs),
    ensures
        in_path_order(in_module(defs, name)),
{
    let chunks = choose|chunks: Seq<Seq<TypeDefinitionView>>|
        chunks.len() == files.len() && (forall|k: int|
            0 <= k < files.len() ==> read_from(#[trigger] files[k], chunks[k])) && defs
            == concat_definitions(chunks);
    assert forall|k: int, m: int|
        0 <= k < chunks.len() && 0 <= m < chunks[k].len() implies (#[trigger] chunks[k][m]).source_file
        == files[k].path by {
        assert(read_from(files[k], chunks[k]));
        let items = choose|items: Seq<ItemSyntax>|
            items_from_source(files[k].contents, files[k].contents.len(), items) && chunks[k]
                == definitions_of(files[k].path, items);
        lemma_definitions_source_file(files[k].path, items);
    }
    lemma_chunks_in_path_order(files, chunks);
    lemma_in_module_keeps_order(defs, name);
}

/// The module of a source file depends only on its directories after the
/// last `src` (a first `models` left out) and its file stem: two files that
/// agree on these share a module, wherever their workspaces lie.
pub proof fn law_module_from_dirs_and_stem(a: Seq<char>, b: Seq<char>)
    requires
        module_dirs(a) == module_dirs(b),
        path_file_stem(a) == path_file_stem(b),
    ensures
        module_name_of(a) == module_name_of(b),
{
}

/// Deterministic output: two plans for the same type definitions have the
/// same modules, with the same types in the same order, the same map from
/// type name to module and the same output files.
pub proof fn law_plan_determined_by_definitions(
    p1: GenerationPlan,
    p2: GenerationPlan,
    defs: Seq<TypeDefinitionView>,
)
    requires
        plan_for(p1, defs),
        plan_for(p2, defs),
    ensures
        p1.type_count == p2.type_count,
        groups_view(p1.modules@) == groups_view(p2.modules@),
        pairs_view(p1.type_to_module.entries@) == pairs_view(p2.type_to_module.entries@),
        p1.type_to_module@ == p2.type_to_module@,
        p1.file_names@.map_values(|f: String| f@) == p2.file_names@.map_values(|f: String| f@),
{
    law_grouping_is_unique(groups_view(p1.modules@), groups_view(p2.modules@), defs);
    let g = groups_view(p1.modules@);
    assert forall|i: int| 0 <= i < p1.file_names@.len() implies p1.file_names@[i]@
        == p2.file_names@[i]@ by {
        assert(g[i].name == p1.modules@[i].name@);
        assert(groups_view(p2.modules@)[i].name == p2.modules@[i].name@);
    }
    assert(p1.file_names@.map_values(|f: String| f@) =~= p2.file_names@.map_values(
        |f: String| f@,
    ));
}

/// The counts of a run: the modules hold, all together, as many types as
/// the run counts.
pub proof fn law_plan_counts_every_type(plan: GenerationPlan, defs: Seq<TypeDefinitionView>)
    requires
        plan_for(plan, defs),
    ensures
        grouped_type_count(groups_view(plan.modules@)) == plan.type_count,
{
    law_grouping_keeps_every_type_once(groups_view(plan.modules@), defs);
}

/// Concatenating commutes with leaving out unsupported-type texts.
proof fn lemma_concat_shape(chunks: Seq<Seq<TypeDefinitionView>>)
    ensures
        definitions_shape(concat_definitions(chunks)) == concat_definitions(
            chunks.map_values(|c: Seq<TypeDefinitionView>| definitions_shape(c)),
        ),
    decreases chunks.len(),
{
    let m = chunks.map_values(|c: Seq<TypeDefinitionView>| definitions_shape(c));
    if chunks.len() > 0 {
        lemma_concat_shape(chunks.drop_last());
        assert(m.drop_last() =~= chunks.drop_last().map_values(
            |c: Seq<TypeDefinitionView>| definitions_shape(c),
        ));
        let d = concat_definitions(chunks.drop_last());
        assert(definitions_shape(d + chunks.last()) =~= definitions_shape(d) + definitions_shape(
            chunks.last(),
        ));
    } else {
        assert(definitions_shape(Seq::<TypeDefinitionView>::empty()) =~= Seq::<
            TypeDefinitionView,
        >::empty());
    }
}

/// Reading the same files twice gives the same type definitions, apart from
/// the debug texts of types that are not paths: what a file gives depends
/// on its path and text alone otherwise.
pub proof fn law_reading_files_is_deterministic(
    files: Seq<SourceFileView>,
    d1: Seq<TypeDefinitionView>,
    d2: Seq<TypeDefinitionView>,
)
    requires
        read_in_order(files, d1),
        read_in_order(files, d2),
    ensures
        definitions_shape(d1) == definitions_shape(d2),
{
    let c1 = choose|chunks: Seq<Seq<TypeDefinitionView>>|
        chunks.len() == files.len() && (forall|k: int|
            0 <= k < files.len() ==> read_from(#[trigger] files[k], chunks[k])) && d1
            == concat_definitions(chunks);
    let c2 = choose|chunks: Seq<Seq<TypeDefinitionView>>|
        chunks.len() == files.len() && (forall|k: int|
            0 <= k < files.len() ==> read_from(#[trigger] files[k], chunks[k])) && d2
            == concat_definitions(chunks);
    let m1 = c1.map_values(|c: Seq<TypeDefinitionView>| definitions_shape(c));
    let m2 = c2.map_values(|c: Seq<TypeDefinitionView>| definitions_shape(c));
    assert forall|k: int| 0 <= k < files.len() implies #[trigger] m1[k] == m2[k] by {
        let f = files[k];
        assert(read_from(f, c1[k]));
        assert(read_from(f, c2[k]));
        let a = choose|items: Seq<ItemSyntax>|
            #![trigger definitions_of(f.path, items)]
            items_from_source(f.contents, f.contents.len(), items) && c1[k] == definitions_of(
                f.path,
                items,
            );
        let b = choose|items: Seq<ItemSyntax>|
            #![trigger definitions_of(f.path, items)]
            items_from_source(f.contents, f.contents.len(), items) && c2[k] == definitions_of(
                f.path,
                items,
            );
        law_reading_is_determined_by_text(f.path, f.contents, f.contents.len(), a, b);
    }
    assert(m1 =~= m2);
    lemma_concat_shape(c1);
    lemma_concat_shape(c2);
}

/// Deterministic output: for the same source files, the plans that a run
/// may make agree in the counts, the module names with their types in
/// order (apart from the debug texts of types that are not paths), the map
/// from type name to module and the output files; and the text of every
/// module, which shows no such debug text, is the same byte for byte.
pub proof fn law_generation_is_deterministic(
    files: Seq<SourceFileView>,
    p1: GenerationPlan,
    p2: GenerationPlan,
    d1: Seq<TypeDefinitionView>,
    d2: Seq<TypeDefinitionView>,
)
    requires
        read_in_order(sorted_by_path(files), d1) && plan_for(p1, d1),
        read_in_order(sorted_by_path(files), d2) && plan_for(p2, d2),
    ensures
        p1.type_count == p2.type_count,
        groups_shape(groups_view(p1.modules@)) == groups_shape(groups_view(p2.modules@)),
        p1.type_to_module@ == p2.type_to_module@,
        p1.file_names@.map_values(|f: String| f@) == p2.file_names@.map_values(|f: String| f@),
        p1.modules@.len() == p2.modules@.len(),
        forall|i: int|
            0 <= i < p1.modules@.len() ==> module_text(
                p1.modules@[i].name@,
                definitions_view(p1.modules@[i].types@),
                p1.type_to_module@,
            ) == module_text(
                p2.modules@[i].name@,
                definitions_view(p2.modules@[i].types@),
                p2.type_to_module@,
            ),
{
    law_reading_files_is_deterministic(sorted_by_path(files), d1, d2);
    let g1 = groups_view(p1.modules@);
    let g2 = groups_view(p2.modules@);
    lemma_grouped_shape(g1, d1);
    lemma_grouped_shape(g2, d2);
    law_grouping_is_unique(groups_shape(g1), groups_shape(g2), definitions_shape(d1));
    lemma_module_entries_shape(g1);
    lemma_module_entries_shape(g2);
    assert(pairs_view(p1.type_to_module.entries@) == pairs_view(p2.type_to_module.entries@));
    assert forall|i: int| 0 <= i < p1.file_names@.len() implies p1.file_names@[i]@
        == p2.file_names@[i]@ by {
        assert(groups_shape(g1)[i].name == g1[i].name);
        assert(groups_shape(g2)[i].name == g2[i].name);
        assert(g1[i].name == p1.modules@[i].name@);
        assert(g2[i].name == p2.modules@[i].name@);
    }
    assert(p1.file_names@.map_values(|f: String| f@) =~= p2.file_names@.map_values(
        |f: String| f@,
    ));
    assert(groups_shape(g1).len() == g1.len() && groups_shape(g2).len() == g2.len());
    assert forall|i: int| 0 <= i < p1.modules@.len() implies module_text(
        p1.modules@[i].name@,
        definitions_view(p1.modules@[i].types@),
        p1.type_to_module@,
    ) == #[trigger] module_text(
        p2.modules@[i].name@,
        definitions_view(p2.modules@[i].types@),
        p2.type_to_module@,
    ) by {
        assert(groups_shape(g1)[i] == groups_shape(g2)[i]);
        assert(g1[i].name == p1.modules@[i].name@ && g2[i].name == p2.modules@[i].name@);
        assert(g1[i].types == definitions_view(p1.modules@[i].types@));
        assert(g2[i].types == definitions_view(p2.modules@[i].types@));
        law_module_text_ignores_unsupported_texts(
            g1[i].name,
            g1[i].types,
            g2[i].types,
            p1.type_to_module@,
        );
    }
}

} // verus!
