//! Organisation of the generated output: one PureScript module per source
//! file location (the directories below `src`, and the file stem), the type
//! definitions grouped by module in module-name order, and the map from
//! type name to module for cross-module imports.

use vstd::prelude::*;
use vstd::string::*;
use crate::order::{
    chars_less, chars_lt, lemma_chars_lt_asymmetric, lemma_chars_lt_irreflexive,
    lemma_chars_lt_total, lemma_chars_lt_transitive,
};
use crate::paths::{component_names, file_stem_of, path_components, path_file_stem};
use crate::text::{
    chars_eq, chars_of, deep_chars, deep_strings, split_chars, split_seq, str_eq, string_of,
};
use crate::types::{
    definition_shape, definitions_shape, definitions_view, TypeDefinition, TypeDefinitionView,
};
use crate::unicode::{upper_of, uppercase_of_char};

verus! {

/// A word with its first char replaced by its whole uppercase mapping.
pub open spec fn word_capitalized(p: Seq<char>) -> Seq<char> {
    if p.len() == 0 {
        p
    } else {
        upper_of(p[0]) + p.drop_first()
    }
}

/// The words, each capitalized, joined without separator.
pub open spec fn words_capitalized(parts: Seq<Seq<char>>) -> Seq<char>
    decreases parts.len(),
{
    if parts.len() == 0 {
        Seq::empty()
    } else {
        words_capitalized(parts.drop_last()) + word_capitalized(parts.last())
    }
}

/// `user_models` to `UserModels`.
pub open spec fn module_case(s: Seq<char>) -> Seq<char> {
    words_capitalized(split_seq(s, '_'))
}

/// The index of the last `src` directory among `dirs`, or -1 when there is
/// none.
pub open spec fn last_src_index(dirs: Seq<Seq<char>>) -> int
    decreases dirs.len(),
{
    if dirs.len() == 0 {
        -1
    } else if dirs.last() == "src"@ {
        dirs.len() - 1
    } else {
        last_src_index(dirs.drop_last())
    }
}

/// The directories of a path: its components but the last, which names the
/// file.
pub open spec fn path_dirs(source_path: Seq<char>) -> Seq<Seq<char>> {
    let cs = path_components(source_path);
    if cs.len() == 0 {
        cs
    } else {
        cs.drop_last()
    }
}

/// The directories that name a module: those after the last `src`
/// directory, a first `models` directory left out; none when the path has
/// no `src` directory.
pub open spec fn module_dirs(source_path: Seq<char>) -> Seq<Seq<char>> {
    let dirs = path_dirs(source_path);
    let i = last_src_index(dirs);
    let after = if i < 0 {
        Seq::<Seq<char>>::empty()
    } else {
        dirs.subrange(i + 1, dirs.len() as int)
    };
    if after.len() > 0 && after[0] == "models"@ {
        after.drop_first()
    } else {
        after
    }
}

/// The parts, each in PascalCase and preceded by `.`.
pub open spec fn dotted(parts: Seq<Seq<char>>) -> Seq<char>
    decreases parts.len(),
{
    if parts.len() == 0 {
        Seq::empty()
    } else {
        dotted(parts.drop_last()) + "."@ + module_case(parts.last())
    }
}

/// The PureScript module of a source file: `Generated`, then the module
/// directories and the file stem (`Unknown` for a path without a stem), each
/// in PascalCase and preceded by `.`. `app/backend/src/models.rs` gives
/// `Generated.Models`, `lib/constitution/src/models/product/core.rs` gives
/// `Generated.Product.Core`, `test-mercury/test.rs` gives `Generated.Test`.
pub open spec fn module_name_of(source_path: Seq<char>) -> Seq<char> {
    let stem = match path_file_stem(source_path) {
        Some(s) => s,
        None => "Unknown"@,
    };
    "Generated"@ + dotted(module_dirs(source_path).push(stem))
}

/// Convert a string to PascalCase
pub fn to_pascal_case(s: &str) -> (r: String)
    ensures
        r@ == module_case(s@),
{
    let cs = chars_of(s);
    let parts = split_chars(&cs, '_');
    let ghost words = deep_chars(parts@);
    let mut result = String::new();
    let mut i: usize = 0;
    assert(words.take(0) =~= Seq::<Seq<char>>::empty());
    while i < parts.len()
        invariant
            i <= parts.len(),
            words == deep_chars(parts@),
            words == split_seq(s@, '_'),
            result@ == words_capitalized(words.take(i as int)),
        decreases parts.len() - i,
    {
        assert(words.take(i + 1).drop_last() =~= words.take(i as int));
        assert(words.take(i + 1).last() == parts@[i as int]@);
        let ghost before = result@;
        let part = &parts[i];
        if part.len() > 0 {
            let upper = uppercase_of_char(part[0]);
            result.append(upper.as_str());
            let mut k: usize = 1;
            let ghost mid = result@;
            while k < part.len()
                invariant
                    1 <= k <= part.len(),
                    result@ == mid + part@.subrange(1, k as int),
                decreases part.len() - k,
            {
                result.push(part[k]);
                k += 1;
                assert(result@ =~= mid + part@.subrange(1, k as int));
            }
            assert(part@.subrange(1, part.len() as int) =~= part@.drop_first());
            assert(result@ =~= before + word_capitalized(part@));
        } else {
            assert(result@ =~= before + word_capitalized(part@));
        }
        i += 1;
    }
    assert(words.take(parts.len() as int) =~= words);
    result
}

/// The index of the last `src` among the first `n` names, or -1.
fn last_src(names: &Vec<String>, n: usize) -> (r: Option<usize>)
    requires
        n <= names.len(),
    ensures
        match r {
            Some(k) => last_src_index(deep_strings(names@).take(n as int)) == k,
            None => last_src_index(deep_strings(names@).take(n as int)) == -1,
        },
{
    let ghost d = deep_strings(names@);
    let mut last: Option<usize> = None;
    let mut i: usize = 0;
    assert(d.take(0) =~= Seq::<Seq<char>>::empty());
    while i < n
        invariant
            i <= n <= names.len(),
            d == deep_strings(names@),
            match last {
                Some(k) => last_src_index(d.take(i as int)) == k,
                None => last_src_index(d.take(i as int)) == -1,
            },
        decreases n - i,
    {
        assert(d.take(i + 1).drop_last() =~= d.take(i as int));
        assert(d.take(i + 1).last() == names@[i as int]@);
        if str_eq(names[i].as_str(), "src") {
            last = Some(i);
        }
        i += 1;
    }
    last
}

/// Appends `.` and the part in PascalCase.
fn push_dotted(name: &mut String, part: &str)
    ensures
        final(name)@ == old(name)@ + "."@ + module_case(part@),
{
    name.append(".");
    let p = to_pascal_case(part);
    name.append(p.as_str());
}

/// Convert a Rust source file path to a PureScript module name (see
/// `module_name_of`): `lib/constitution/src/models/product/core.rs` gives
/// `Generated.Product.Core`.
pub fn source_path_to_module_name(source_path: &str, workspace_root: &str) -> (r: String)
    ensures
        r@ == module_name_of(source_path@),
{
    let stem = match file_stem_of(source_path) {
        Some(s) => s,
        None => string_of(&chars_of("Unknown")),
    };
    let names = component_names(source_path);
    let ghost cs = deep_strings(names@);
    let n: usize = if names.len() == 0 { 0 } else { names.len() - 1 };
    let ghost dirs = path_dirs(source_path@);
    assert(dirs =~= cs.take(n as int));
    let last = last_src(&names, n);
    proof {
        lemma_last_src_bounds(dirs);
    }
    let mut start: usize = match last {
        Some(k) => k + 1,
        None => n,
    };
    let ghost after = if last_src_index(dirs) < 0 {
        Seq::<Seq<char>>::empty()
    } else {
        dirs.subrange(last_src_index(dirs) + 1, dirs.len() as int)
    };
    assert(after =~= cs.subrange(start as int, n as int));
    if start < n && str_eq(names[start].as_str(), "models") {
        assert(after[0] == names@[start as int]@);
        start = start + 1;
    }
    let ghost parts = module_dirs(source_path@);
    assert(parts =~= cs.subrange(start as int, n as int));
    let mut name = string_of(&chars_of("Generated"));
    let mut i: usize = start;
    assert(cs.subrange(start as int, start as int) =~= Seq::<Seq<char>>::empty());
    while i < n
        invariant
            start <= i <= n,
            n <= names.len(),
            cs == deep_strings(names@),
            name@ == "Generated"@ + dotted(cs.subrange(start as int, i as int)),
        decreases n - i,
    {
        assert(cs.subrange(start as int, i + 1).drop_last() =~= cs.subrange(start as int, i as int));
        assert(cs.subrange(start as int, i + 1).last() == names@[i as int]@);
        push_dotted(&mut name, names[i].as_str());
        i += 1;
        assert(name@ =~= "Generated"@ + dotted(cs.subrange(start as int, i as int)));
    }
    push_dotted(&mut name, stem.as_str());
    assert(parts.push(stem@).drop_last() =~= parts);
    assert(name@ =~= "Generated"@ + dotted(parts.push(stem@)));
    name
}

proof fn lemma_last_src_bounds(dirs: Seq<Seq<char>>)
    ensures
        -1 <= last_src_index(dirs) < dirs.len(),
    decreases dirs.len(),
{
    if dirs.len() > 0 {
        lemma_last_src_bounds(dirs.drop_last());
    }
}

/// The module of a type definition.
pub open spec fn module_of(d: TypeDefinitionView) -> Seq<char> {
    module_name_of(d.source_file)
}

/// The definitions that belong to the module `name`, in their order.
pub open spec fn in_module(defs: Seq<TypeDefinitionView>, name: Seq<char>) -> Seq<
    TypeDefinitionView,
>
    decreases defs.len(),
{
    if defs.len() == 0 {
        Seq::empty()
    } else {
        let before = in_module(defs.drop_last(), name);
        if module_of(defs.last()) == name {
            before.push(defs.last())
        } else {
            before
        }
    }
}

/// A module and its type definitions.
#[derive(Debug)]
pub struct ModuleGroup {
    /// The PureScript module name, e.g. `Generated.Models`.
    pub name: String,
    /// The type definitions of the module, in input order.
    pub types: Vec<TypeDefinition>,
}

/// The mathematical value of a `ModuleGroup`.
pub struct ModuleGroupView {
    pub name: Seq<char>,
    pub types: Seq<TypeDefinitionView>,
}

impl View for ModuleGroup {
    type V = ModuleGroupView;

    open spec fn view(&self) -> ModuleGroupView {
        ModuleGroupView { name: self.name@, types: definitions_view(self.types@) }
    }
}

/// The views of a list of module groups.
pub open spec fn groups_view(groups: Seq<ModuleGroup>) -> Seq<ModuleGroupView> {
    groups.map_values(|g: ModuleGroup| g@)
}

/// The grouping of `defs` by module: one group per module that some
/// definition belongs to, the groups in strictly increasing order of module
/// name (the order of `String`), each holding exactly the definitions of its
/// module, in input order.
pub open spec fn grouped_by_module(groups: Seq<ModuleGroupView>, defs: Seq<TypeDefinitionView>) -> bool {
    &&& forall|i: int, j: int|
        0 <= i < j < groups.len() ==> chars_lt(#[trigger] groups[i].name, #[trigger] groups[j].name)
    &&& forall|i: int|
        0 <= i < groups.len() ==> (#[trigger] groups[i]).types == in_module(defs, groups[i].name)
            && groups[i].types.len() > 0
    &&& forall|k: int|
        0 <= k < defs.len() ==> exists|i: int|
            0 <= i < groups.len() && (#[trigger] groups[i]).name == module_of(#[trigger] defs[k])
}

proof fn lemma_in_module_nonempty(defs: Seq<TypeDefinitionView>, name: Seq<char>)
    requires
        in_module(defs, name).len() > 0,
    ensures
        exists|k: int| 0 <= k < defs.len() && module_of(#[trigger] defs[k]) == name,
    decreases defs.len(),
{
    let before = in_module(defs.drop_last(), name);
    if module_of(defs.last()) == name {
        assert(module_of(defs[defs.len() - 1]) == name);
    } else {
        lemma_in_module_nonempty(defs.drop_last(), name);
        let k = choose|k: int|
            0 <= k < defs.drop_last().len() && module_of(#[trigger] defs.drop_last()[k]) == name;
        assert(defs[k] == defs.drop_last()[k]);
    }
}

/// Group type definitions by their source module
pub fn group_types_by_module(type_defs: &[TypeDefinition], workspace_root: &str) -> (modules: Vec<
    ModuleGroup,
>)
    ensures
        grouped_by_module(groups_view(modules@), definitions_view(type_defs@)),
{
    let ghost defs = definitions_view(type_defs@);
    let mut groups: Vec<ModuleGroup> = Vec::new();
    let mut i: usize = 0;
    assert(grouped_by_module(groups_view(groups@), defs.take(0)));
    while i < type_defs.len()
        invariant
            i <= type_defs.len(),
            defs == definitions_view(type_defs@),
            grouped_by_module(groups_view(groups@), defs.take(i as int)),
        decreases type_defs.len() - i,
    {
        let ghost old_groups = groups_view(groups@);
        let ghost prefix = defs.take(i as int);
        let ghost next = defs.take(i + 1);
        assert(next.drop_last() =~= prefix);
        assert(next.last() == type_defs@[i as int]@);
        let def = type_defs[i].clone();
        let module_name = source_path_to_module_name(def.source_file.as_str(), workspace_root);
        let name_chars = chars_of(module_name.as_str());
        let ghost name = module_name@;
        assert(module_of(def@) == name);
        // The first group whose name does not come before the module name.
        let mut p: usize = 0;
        while p < groups.len()
            invariant
                p <= groups.len(),
                old_groups == groups_view(groups@),
                name_chars@ == name,
                forall|q: int| 0 <= q < p ==> chars_lt(#[trigger] old_groups[q].name, name),
            ensures
                p <= groups.len(),
                forall|q: int| 0 <= q < p ==> chars_lt(#[trigger] old_groups[q].name, name),
                p < groups.len() ==> !chars_lt(old_groups[p as int].name, name),
            decreases groups.len() - p,
        {
            let g_chars = chars_of(groups[p].name.as_str());
            assert(old_groups[p as int].name == g_chars@);
            if !chars_less(&g_chars, &name_chars) {
                break;
            }
            p += 1;
        }
        let found = if p < groups.len() {
            let g_chars = chars_of(groups[p].name.as_str());
            chars_eq(&g_chars, &name_chars)
        } else {
            false
        };
        assert(found == (p < groups.len() && old_groups[p as int].name == name));
        proof {
            // Every group after `p` comes after the module name.
            assert forall|q: int| p <= q < old_groups.len() && !found implies chars_lt(
                name,
                #[trigger] old_groups[q].name,
            ) by {
                lemma_chars_lt_total(old_groups[p as int].name, name);
                if q > p {
                    lemma_chars_lt_transitive(name, old_groups[p as int].name, old_groups[q].name);
                }
            }
        }
        if found {
            let mut g = groups.remove(p);
            let ghost g_old = g@;
            g.types.push(def);
            assert(definitions_view(g.types@) =~= g_old.types.push(next.last()));
            groups.insert(p, g);
            let ghost new_groups = groups_view(groups@);
            assert(new_groups =~= old_groups.update(p as int, g@));
            proof {
                assert forall|j: int| 0 <= j < new_groups.len() implies (#[trigger] new_groups[j]).types
                    == in_module(next, new_groups[j].name) && new_groups[j].types.len() > 0 by {
                    if j != p {
                        if j < p {
                            lemma_chars_lt_irreflexive(name);
                            assert(chars_lt(old_groups[j].name, old_groups[p as int].name));
                        } else {
                            assert(chars_lt(old_groups[p as int].name, old_groups[j].name));
                        }
                        lemma_chars_lt_irreflexive(old_groups[j].name);
                    }
                }
                assert forall|k: int| 0 <= k < next.len() implies exists|j: int|
                    0 <= j < new_groups.len() && (#[trigger] new_groups[j]).name == module_of(
                        #[trigger] next[k],
                    ) by {
                    if k < i {
                        assert(next[k] == prefix[k]);
                        let j = choose|j: int|
                            0 <= j < old_groups.len() && (#[trigger] old_groups[j]).name
                                == module_of(#[trigger] prefix[k]);
                        assert(new_groups[j].name == old_groups[j].name);
                    } else {
                        assert(new_groups[p as int].name == module_of(next[k]));
                    }
                }
            }
        } else {
            let mut types: Vec<TypeDefinition> = Vec::new();
            types.push(def);
            let g = ModuleGroup { name: module_name, types };
            assert(definitions_view(g.types@) =~= seq![next.last()]);
            proof {
                if in_module(prefix, name).len() > 0 {
                    lemma_in_module_nonempty(prefix, name);
                    let k = choose|k: int| 0 <= k < prefix.len() && module_of(#[trigger] prefix[k]) == name;
                    let j = choose|j: int|
                        0 <= j < old_groups.len() && (#[trigger] old_groups[j]).name == module_of(
                            #[trigger] prefix[k],
                        );
                    if j < p {
                        lemma_chars_lt_irreflexive(name);
                    } else {
                        lemma_chars_lt_irreflexive(name);
                    }
                }
                assert(in_module(prefix, name) =~= Seq::<TypeDefinitionView>::empty());
            }
            groups.insert(p, g);
            let ghost new_groups = groups_view(groups@);
            assert(new_groups =~= old_groups.insert(p as int, g@));
            proof {
                assert forall|a: int, b: int| 0 <= a < b < new_groups.len() implies chars_lt(
                    #[trigger] new_groups[a].name,
                    #[trigger] new_groups[b].name,
                ) by {
                    if b < p {
                        assert(new_groups[a] == old_groups[a]);
                        assert(new_groups[b] == old_groups[b]);
                    } else if b == p {
                        assert(new_groups[a] == old_groups[a]);
                    } else if a == p {
                        assert(new_groups[b] == old_groups[b - 1]);
                    } else if a < p {
                        assert(new_groups[a] == old_groups[a]);
                        assert(new_groups[b] == old_groups[b - 1]);
                        lemma_chars_lt_transitive(old_groups[a].name, name, old_groups[b - 1].name);
                    } else {
                        assert(new_groups[a] == old_groups[a - 1]);
                        assert(new_groups[b] == old_groups[b - 1]);
                    }
                }
                assert forall|j: int| 0 <= j < new_groups.len() implies (#[trigger] new_groups[j]).types
                    == in_module(next, new_groups[j].name) && new_groups[j].types.len() > 0 by {
                    if j < p {
                        assert(new_groups[j] == old_groups[j]);
                        lemma_chars_lt_irreflexive(name);
                    } else if j > p {
                        assert(new_groups[j] == old_groups[j - 1]);
                        lemma_chars_lt_irreflexive(name);
                    }
                }
                assert forall|k: int| 0 <= k < next.len() implies exists|j: int|
                    0 <= j < new_groups.len() && (#[trigger] new_groups[j]).name == module_of(
                        #[trigger] next[k],
                    ) by {
                    if k < i {
                        assert(next[k] == prefix[k]);
                        let j = choose|j: int|
                            0 <= j < old_groups.len() && (#[trigger] old_groups[j]).name
                                == module_of(#[trigger] prefix[k]);
                        if j < p {
                            assert(new_groups[j] == old_groups[j]);
                        } else {
                            assert(new_groups[j + 1] == old_groups[j]);
                        }
                    } else {
                        assert(new_groups[p as int].name == module_of(next[k]));
                    }
                }
            }
        }
        i += 1;
    }
    assert(defs.take(type_defs.len() as int) =~= defs);
    groups
}

/// A map from type name to the module that defines it. The entries are
/// kept in insertion order; a later entry for a name replaces an earlier
/// one, as an insertion into a map does.
#[derive(Debug)]
pub struct TypeModuleMap {
    pub entries: Vec<(String, String)>,
}

/// The views of a list of text pairs.
pub open spec fn pairs_view(es: Seq<(String, String)>) -> Seq<(Seq<char>, Seq<char>)> {
    es.map_values(|e: (String, String)| (e.0@, e.1@))
}

/// The map that inserting the entries one after another gives.
pub open spec fn entries_map(es: Seq<(Seq<char>, Seq<char>)>) -> Map<Seq<char>, Seq<char>>
    decreases es.len(),
{
    if es.len() == 0 {
        Map::empty()
    } else {
        entries_map(es.drop_last()).insert(es.last().0, es.last().1)
    }
}

impl View for TypeModuleMap {
    type V = Map<Seq<char>, Seq<char>>;

    open spec fn view(&self) -> Map<Seq<char>, Seq<char>> {
        entries_map(pairs_view(self.entries@))
    }
}

/// The (type name, module name) entries of the groups: group by group, and
/// within a group type by type.
pub open spec fn module_entries(groups: Seq<ModuleGroupView>) -> Seq<(Seq<char>, Seq<char>)>
    decreases groups.len(),
{
    if groups.len() == 0 {
        Seq::empty()
    } else {
        module_entries(groups.drop_last()) + groups.last().types.map_values(
            |t: TypeDefinitionView| (t.name, groups.last().name),
        )
    }
}

/// Cross-module imports find their module: a type name is in the map
/// exactly when some entry has it, and then it maps to the module of the
/// last such entry, as inserting the entries one after another into a map
/// leaves it.
pub proof fn law_map_holds_last_entry(es: Seq<(Seq<char>, Seq<char>)>, k: Seq<char>)
    ensures
        entries_map(es).contains_key(k) <==> exists|j: int| 0 <= j < es.len() && (#[trigger] es[j]).0 == k,
        forall|j: int|
            0 <= j < es.len() && (#[trigger] es[j]).0 == k && (forall|m: int|
                j < m < es.len() ==> (#[trigger] es[m]).0 != k) ==> entries_map(es)[k] == es[j].1,
    decreases es.len(),
{
    if es.len() > 0 {
        let init = es.drop_last();
        law_map_holds_last_entry(init, k);
        if es.last().0 != k {
            assert forall|j: int| 0 <= j < init.len() && (#[trigger] init[j]).0 == k implies exists|
                i: int,
            | 0 <= i < es.len() && (#[trigger] es[i]).0 == k by {
                assert(es[j] == init[j]);
            }
            assert forall|j: int| 0 <= j < es.len() && (#[trigger] es[j]).0 == k implies exists|
                i: int,
            | 0 <= i < init.len() && (#[trigger] init[i]).0 == k by {
                assert(init[j] == es[j]);
            }
            assert forall|j: int|
                0 <= j < es.len() && (#[trigger] es[j]).0 == k && (forall|m: int|
                    j < m < es.len() ==> (#[trigger] es[m]).0 != k) implies entries_map(es)[k]
                == es[j].1 by {
                assert(init[j] == es[j]);
                assert forall|m: int| j < m < init.len() implies (#[trigger] init[m]).0 != k by {
                    assert(init[m] == es[m]);
                }
            }
        } else {
            assert(es[es.len() - 1].0 == k);
            assert forall|j: int|
                0 <= j < es.len() && (#[trigger] es[j]).0 == k && (forall|m: int|
                    j < m < es.len() ==> (#[trigger] es[m]).0 != k) implies entries_map(es)[k]
                == es[j].1 by {
                if j < es.len() - 1 {
                    assert(es[es.len() - 1].0 == k);
                }
            }
        }
    }
}

impl TypeModuleMap {
    /// The module of a type name, if the map has one.
    pub fn get(&self, name: &str) -> (r: Option<String>)
        ensures
            match r {
                Some(m) => self@.contains_key(name@) && self@[name@] == m@,
                None => !self@.contains_key(name@),
            },
    {
        let ghost es = pairs_view(self.entries@);
        let mut i: usize = self.entries.len();
        while i > 0
            invariant
                i <= self.entries.len(),
                es == pairs_view(self.entries@),
                forall|m: int| i <= m < es.len() ==> (#[trigger] es[m]).0 != name@,
            decreases i,
        {
            let (k, v) = &self.entries[i - 1];
            assert(es[i - 1] == (k@, v@));
            if crate::text::str_eq(k.as_str(), name) {
                proof {
                    law_map_holds_last_entry(es, name@);
                }
                return Some(v.clone());
            }
            i -= 1;
        }
        proof {
            law_map_holds_last_entry(es, name@);
        }
        None
    }
}

/// Build a map from type name to module name for resolving cross-module
/// imports: the types of the modules, module by module, each inserted with
/// the name of its module.
pub fn build_type_to_module_map(modules: &Vec<ModuleGroup>) -> (map: TypeModuleMap)
    ensures
        pairs_view(map.entries@) == module_entries(groups_view(modules@)),
{
    let ghost gv = groups_view(modules@);
    let mut entries: Vec<(String, String)> = Vec::new();
    let mut i: usize = 0;
    assert(gv.take(0) =~= Seq::<ModuleGroupView>::empty());
    while i < modules.len()
        invariant
            i <= modules.len(),
            gv == groups_view(modules@),
            pairs_view(entries@) == module_entries(gv.take(i as int)),
        decreases modules.len() - i,
    {
        assert(gv.take(i + 1).drop_last() =~= gv.take(i as int));
        assert(gv.take(i + 1).last() == modules@[i as int]@);
        let group = &modules[i];
        let ghost start = pairs_view(entries@);
        let ghost added = group@.types.map_values(
            |t: TypeDefinitionView| (t.name, group@.name),
        );
        let mut j: usize = 0;
        while j < group.types.len()
            invariant
                j <= group.types.len(),
                added == group@.types.map_values(|t: TypeDefinitionView| (t.name, group@.name)),
                pairs_view(entries@) == start + added.take(j as int),
            decreases group.types.len() - j,
        {
            assert(added[j as int] == (group.types@[j as int].name@, group.name@));
            let ghost before = entries@;
            entries.push((group.types[j].name.clone(), group.name.clone()));
            assert(pairs_view(entries@) =~= pairs_view(before).push(added[j as int]));
            assert(added.take(j + 1) =~= added.take(j as int).push(added[j as int]));
            j += 1;
            assert(pairs_view(entries@) =~= start + added.take(j as int));
        }
        assert(added.take(group.types.len() as int) =~= added);
        i += 1;
    }
    assert(gv.take(modules.len() as int) =~= gv);
    TypeModuleMap { entries }
}

/// The output file of a module, relative to the output directory: the dots
/// of the module name become directory separators, e.g.
/// `Generated/Product/Core.purs`.
pub open spec fn module_file_name_of(module_name: Seq<char>) -> Seq<char> {
    module_name.map_values(|c: char| if c == '.' { '/' } else { c }) + ".purs"@
}

/// The output file of a module, relative to the output directory.
pub fn module_file_name(module_name: &str) -> (r: String)
    ensures
        r@ == module_file_name_of(module_name@),
{
    let cs = chars_of(module_name);
    let mut r = String::new();
    let mut i: usize = 0;
    while i < cs.len()
        invariant
            i <= cs.len(),
            cs@ == module_name@,
            r@ == cs@.take(i as int).map_values(|c: char| if c == '.' { '/' } else { c }),
        decreases cs.len() - i,
    {
        if cs[i] == '.' {
            r.push('/');
        } else {
            r.push(cs[i]);
        }
        i += 1;
        assert(r@ =~= cs@.take(i as int).map_values(
            |c: char|
                if c == '.' {
                    '/'
                } else {
                    c
                },
        ));
    }
    assert(cs@.take(cs.len() as int) =~= cs@);
    r.append(".purs");
    r
}

/// Whether some definition belongs to the module `name`.
pub open spec fn has_module(defs: Seq<TypeDefinitionView>, name: Seq<char>) -> bool {
    exists|k: int| 0 <= k < defs.len() && module_of(#[trigger] defs[k]) == name
}

proof fn lemma_grouped_names(groups: Seq<ModuleGroupView>, defs: Seq<TypeDefinitionView>, name: Seq<char>)
    requires
        grouped_by_module(groups, defs),
    ensures
        (exists|i: int| 0 <= i < groups.len() && (#[trigger] groups[i]).name == name) <==> has_module(
            defs,
            name,
        ),
{
    if exists|i: int| 0 <= i < groups.len() && (#[trigger] groups[i]).name == name {
        let i = choose|i: int| 0 <= i < groups.len() && (#[trigger] groups[i]).name == name;
        assert(groups[i].types.len() > 0);
        lemma_in_module_nonempty(defs, name);
    }
    if has_module(defs, name) {
        let k = choose|k: int| 0 <= k < defs.len() && module_of(#[trigger] defs[k]) == name;
        let i = choose|i: int|
            0 <= i < groups.len() && (#[trigger] groups[i]).name == module_of(#[trigger] defs[k]);
        assert(groups[i].name == name);
    }
}

/// Two strictly ascending lists of names with the same members are equal.
proof fn lemma_sorted_names_equal(a: Seq<Seq<char>>, b: Seq<Seq<char>>)
    requires
        forall|i: int, j: int| 0 <= i < j < a.len() ==> chars_lt(#[trigger] a[i], #[trigger] a[j]),
        forall|i: int, j: int| 0 <= i < j < b.len() ==> chars_lt(#[trigger] b[i], #[trigger] b[j]),
        forall|x: Seq<char>| a.contains(x) <==> b.contains(x),
    ensures
        a == b,
    decreases a.len(),
{
    if a.len() == 0 {
        if b.len() > 0 {
            assert(b.contains(b[0]));
        }
        assert(a =~= b);
    } else {
        assert(a.contains(a[0]));
        assert(b.len() > 0);
        assert(b.contains(b[0]));
        // The first names are the least members, so they are equal.
        let ia = choose|i: int| 0 <= i < a.len() && a[i] == b[0];
        let ib = choose|i: int| 0 <= i < b.len() && b[i] == a[0];
        if ia > 0 && ib > 0 {
            assert(chars_lt(a[0], a[ia]));
            assert(chars_lt(b[0], b[ib]));
            lemma_chars_lt_asymmetric(a[0], b[0]);
        } else if ia > 0 {
            assert(chars_lt(a[0], a[ia]));
            lemma_chars_lt_irreflexive(a[0]);
        } else if ib > 0 {
            assert(chars_lt(b[0], b[ib]));
            lemma_chars_lt_irreflexive(b[0]);
        }
        assert(a[0] == b[0]);
        let ta = a.drop_first();
        let tb = b.drop_first();
        assert forall|x: Seq<char>| ta.contains(x) <==> tb.contains(x) by {
            if ta.contains(x) {
                let i = choose|i: int| 0 <= i < ta.len() && ta[i] == x;
                assert(a[i + 1] == x);
                assert(chars_lt(a[0], a[i + 1]));
                assert(a.contains(x));
                let j = choose|j: int| 0 <= j < b.len() && b[j] == x;
                if j == 0 {
                    lemma_chars_lt_irreflexive(x);
                }
                assert(tb[j - 1] == x);
            }
            if tb.contains(x) {
                let i = choose|i: int| 0 <= i < tb.len() && tb[i] == x;
                assert(b[i + 1] == x);
                assert(chars_lt(b[0], b[i + 1]));
                assert(b.contains(x));
                let j = choose|j: int| 0 <= j < a.len() && a[j] == x;
                if j == 0 {
                    lemma_chars_lt_irreflexive(x);
                }
                assert(ta[j - 1] == x);
            }
        }
        assert forall|i: int, j: int| 0 <= i < j < ta.len() implies chars_lt(
            #[trigger] ta[i],
            #[trigger] ta[j],
        ) by {
            assert(ta[i] == a[i + 1] && ta[j] == a[j + 1]);
        }
        assert forall|i: int, j: int| 0 <= i < j < tb.len() implies chars_lt(
            #[trigger] tb[i],
            #[trigger] tb[j],
        ) by {
            assert(tb[i] == b[i + 1] && tb[j] == b[j + 1]);
        }
        lemma_sorted_names_equal(ta, tb);
        assert(a =~= seq![a[0]] + ta);
        assert(b =~= seq![b[0]] + tb);
    }
}

/// Deterministic output: the grouping of a list of definitions by module is
/// unique, so the modules that a run generates, their order and their types
/// depend on the definitions alone.
pub proof fn law_grouping_is_unique(
    g1: Seq<ModuleGroupView>,
    g2: Seq<ModuleGroupView>,
    defs: Seq<TypeDefinitionView>,
)
    requires
        grouped_by_module(g1, defs),
        grouped_by_module(g2, defs),
    ensures
        g1 == g2,
{
    let n1 = g1.map_values(|g: ModuleGroupView| g.name);
    let n2 = g2.map_values(|g: ModuleGroupView| g.name);
    assert forall|x: Seq<char>| n1.contains(x) <==> n2.contains(x) by {
        lemma_grouped_names(g1, defs, x);
        lemma_grouped_names(g2, defs, x);
        if n1.contains(x) {
            let i = choose|i: int| 0 <= i < n1.len() && n1[i] == x;
            assert(g1[i].name == x);
            let j = choose|j: int| 0 <= j < g2.len() && (#[trigger] g2[j]).name == x;
            assert(n2[j] == x);
        }
        if n2.contains(x) {
            let i = choose|i: int| 0 <= i < n2.len() && n2[i] == x;
            assert(g2[i].name == x);
            let j = choose|j: int| 0 <= j < g1.len() && (#[trigger] g1[j]).name == x;
            assert(n1[j] == x);
        }
    }
    assert forall|i: int, j: int| 0 <= i < j < n1.len() implies chars_lt(
        #[trigger] n1[i],
        #[trigger] n1[j],
    ) by {
        assert(chars_lt(g1[i].name, g1[j].name));
    }
    assert forall|i: int, j: int| 0 <= i < j < n2.len() implies chars_lt(
        #[trigger] n2[i],
        #[trigger] n2[j],
    ) by {
        assert(chars_lt(g2[i].name, g2[j].name));
    }
    lemma_sorted_names_equal(n1, n2);
    assert forall|i: int| 0 <= i < g1.len() implies #[trigger] g1[i] == g2[i] by {
        assert(n1[i] == n2[i]);
        assert(g1[i].types == in_module(defs, g1[i].name));
        assert(g2[i].types == in_module(defs, g2[i].name));
    }
    assert(g1 =~= g2);
}

/// The number of types in the groups, all together.
pub open spec fn grouped_type_count(groups: Seq<ModuleGroupView>) -> int
    decreases groups.len(),
{
    if groups.len() == 0 {
        0
    } else {
        grouped_type_count(groups.drop_last()) + groups.last().types.len()
    }
}

/// The number of definitions of `defs` in the modules `names`, module by
/// module.
pub open spec fn count_in_modules(names: Seq<Seq<char>>, defs: Seq<TypeDefinitionView>) -> int
    decreases names.len(),
{
    if names.len() == 0 {
        0
    } else {
        count_in_modules(names.drop_last(), defs) + in_module(defs, names.last()).len()
    }
}

/// How many of the names equal `m`.
pub open spec fn count_equal(names: Seq<Seq<char>>, m: Seq<char>) -> int
    decreases names.len(),
{
    if names.len() == 0 {
        0
    } else {
        count_equal(names.drop_last(), m) + if names.last() == m {
            1int
        } else {
            0int
        }
    }
}

proof fn lemma_count_in_modules_step(names: Seq<Seq<char>>, defs: Seq<TypeDefinitionView>)
    requires
        defs.len() > 0,
    ensures
        count_in_modules(names, defs) == count_in_modules(names, defs.drop_last()) + count_equal(
            names,
            module_of(defs.last()),
        ),
    decreases names.len(),
{
    if names.len() > 0 {
        lemma_count_in_modules_step(names.drop_last(), defs);
    }
}

proof fn lemma_count_equal_distinct(names: Seq<Seq<char>>, m: Seq<char>)
    requires
        forall|i: int, j: int| 0 <= i < j < names.len() ==> #[trigger] names[i] != #[trigger] names[j],
    ensures
        count_equal(names, m) == if names.contains(m) {
            1int
        } else {
            0int
        },
    decreases names.len(),
{
    if names.len() > 0 {
        let init = names.drop_last();
        assert forall|i: int, j: int| 0 <= i < j < init.len() implies #[trigger] init[i]
            != #[trigger] init[j] by {
            assert(init[i] == names[i] && init[j] == names[j]);
        }
        lemma_count_equal_distinct(init, m);
        if init.contains(m) {
            let i = choose|i: int| 0 <= i < init.len() && init[i] == m;
            assert(names[i] == m);
            assert(names.last() != m) by {
                assert(names[i] != names[names.len() - 1]);
            }
        } else if names.last() == m {
            assert(names[names.len() - 1] == m);
        } else {
            assert(!names.contains(m)) by {
                if names.contains(m) {
                    let i = choose|i: int| 0 <= i < names.len() && names[i] == m;
                    if i < init.len() {
                        assert(init[i] == m);
                    }
                }
            }
        }
    }
}

proof fn lemma_count_in_modules_total(names: Seq<Seq<char>>, defs: Seq<TypeDefinitionView>)
    requires
        forall|i: int, j: int| 0 <= i < j < names.len() ==> #[trigger] names[i] != #[trigger] names[j],
        forall|k: int| 0 <= k < defs.len() ==> names.contains(module_of(#[trigger] defs[k])),
    ensures
        count_in_modules(names, defs) == defs.len(),
    decreases defs.len(),
{
    if defs.len() == 0 {
        lemma_count_in_modules_empty(names, defs);
    } else {
        let init = defs.drop_last();
        assert forall|k: int| 0 <= k < init.len() implies names.contains(module_of(#[trigger] init[k])) by {
            assert(init[k] == defs[k]);
        }
        lemma_count_in_modules_total(names, init);
        lemma_count_in_modules_step(names, defs);
        assert(names.contains(module_of(defs[defs.len() - 1])));
        lemma_count_equal_distinct(names, module_of(defs.last()));
    }
}

proof fn lemma_count_in_modules_empty(names: Seq<Seq<char>>, defs: Seq<TypeDefinitionView>)
    requires
        defs.len() == 0,
    ensures
        count_in_modules(names, defs) == 0,
    decreases names.len(),
{
    if names.len() > 0 {
        lemma_count_in_modules_empty(names.drop_last(), defs);
    }
}

proof fn lemma_grouped_count(groups: Seq<ModuleGroupView>, defs: Seq<TypeDefinitionView>)
    requires
        forall|i: int| 0 <= i < groups.len() ==> (#[trigger] groups[i]).types == in_module(defs, groups[i].name),
    ensures
        grouped_type_count(groups) == count_in_modules(
            groups.map_values(|g: ModuleGroupView| g.name),
            defs,
        ),
    decreases groups.len(),
{
    if groups.len() > 0 {
        let init = groups.drop_last();
        assert forall|i: int| 0 <= i < init.len() implies (#[trigger] init[i]).types == in_module(
            defs,
            init[i].name,
        ) by {
            assert(init[i] == groups[i]);
        }
        lemma_grouped_count(init, defs);
        assert(groups.map_values(|g: ModuleGroupView| g.name).drop_last() =~= init.map_values(
            |g: ModuleGroupView| g.name,
        ));
        assert(groups[groups.len() - 1].types == in_module(defs, groups[groups.len() - 1].name));
    }
}

/// Every type is generated once: the modules of a grouping hold as many
/// types, all together, as there are definitions.
pub proof fn law_grouping_keeps_every_type_once(
    groups: Seq<ModuleGroupView>,
    defs: Seq<TypeDefinitionView>,
)
    requires
        grouped_by_module(groups, defs),
    ensures
        grouped_type_count(groups) == defs.len(),
{
    let names = groups.map_values(|g: ModuleGroupView| g.name);
    lemma_grouped_count(groups, defs);
    assert forall|i: int, j: int| 0 <= i < j < names.len() implies #[trigger] names[i]
        != #[trigger] names[j] by {
        assert(chars_lt(groups[i].name, groups[j].name));
        lemma_chars_lt_irreflexive(groups[i].name);
    }
    assert forall|k: int| 0 <= k < defs.len() implies names.contains(module_of(#[trigger] defs[k])) by {
        let i = choose|i: int|
            0 <= i < groups.len() && (#[trigger] groups[i]).name == module_of(#[trigger] defs[k]);
        assert(names[i] == module_of(defs[k]));
    }
    lemma_count_in_modules_total(names, defs);
}

/// The groups with the unsupported-type texts of their types left out.
pub open spec fn groups_shape(groups: Seq<ModuleGroupView>) -> Seq<ModuleGroupView> {
    groups.map_values(
        |g: ModuleGroupView| ModuleGroupView { name: g.name, types: definitions_shape(g.types) },
    )
}

/// Leaving out unsupported-type texts keeps the module of a definition, so
/// it commutes with taking the definitions of a module.
proof fn lemma_in_module_shape(defs: Seq<TypeDefinitionView>, name: Seq<char>)
    ensures
        in_module(definitions_shape(defs), name) == definitions_shape(in_module(defs, name)),
    decreases defs.len(),
{
    if defs.len() > 0 {
        lemma_in_module_shape(defs.drop_last(), name);
        assert(definitions_shape(defs).drop_last() =~= definitions_shape(defs.drop_last()));
        assert(definitions_shape(defs).last() == definition_shape(defs.last()));
        let before = in_module(defs.drop_last(), name);
        if module_of(defs.last()) == name {
            assert(definitions_shape(before.push(defs.last())) =~= definitions_shape(before).push(
                definition_shape(defs.last()),
            ));
        }
    } else {
        assert(definitions_shape(defs) =~= Seq::<TypeDefinitionView>::empty());
        assert(definitions_shape(Seq::<TypeDefinitionView>::empty()) =~= Seq::<
            TypeDefinitionView,
        >::empty());
    }
}

/// A grouping of definitions is, with unsupported-type texts left out, the
/// grouping of the definitions with those texts left out.
pub proof fn lemma_grouped_shape(groups: Seq<ModuleGroupView>, defs: Seq<TypeDefinitionView>)
    requires
        grouped_by_module(groups, defs),
    ensures
        grouped_by_module(groups_shape(groups), definitions_shape(defs)),
{
    let gs = groups_shape(groups);
    let ds = definitions_shape(defs);
    assert forall|i: int| 0 <= i < gs.len() implies (#[trigger] gs[i]).types == in_module(ds, gs[i].name)
        && gs[i].types.len() > 0 by {
        lemma_in_module_shape(defs, groups[i].name);
    }
    assert forall|k: int| 0 <= k < ds.len() implies exists|i: int|
        0 <= i < gs.len() && (#[trigger] gs[i]).name == module_of(#[trigger] ds[k]) by {
        let i = choose|i: int| 0 <= i < groups.len() && (#[trigger] groups[i]).name == module_of(defs[k]);
        assert(gs[i].name == groups[i].name);
        assert(module_of(ds[k]) == module_of(defs[k]));
    }
    assert forall|i: int, j: int| 0 <= i < j < gs.len() implies chars_lt(#[trigger] gs[i].name, #[trigger] gs[j].name) by {
        assert(gs[i].name == groups[i].name && gs[j].name == groups[j].name);
    }
}

/// The entries of the type-to-module map read only names, which leaving
/// out unsupported-type texts keeps.
pub proof fn lemma_module_entries_shape(groups: Seq<ModuleGroupView>)
    ensures
        module_entries(groups_shape(groups)) == module_entries(groups),
    decreases groups.len(),
{
    if groups.len() > 0 {
        lemma_module_entries_shape(groups.drop_last());
        assert(groups_shape(groups).drop_last() =~= groups_shape(groups.drop_last()));
        let g = groups.last();
        let gs = groups_shape(groups).last();
        assert(gs.types.map_values(|t: TypeDefinitionView| (t.name, gs.name)) =~= g.types.map_values(
            |t: TypeDefinitionView| (t.name, g.name),
        ));
    }
}

} // verus!
