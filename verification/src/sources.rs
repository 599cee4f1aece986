//! The source files of a workspace and the order in which they are read:
//! by path, component by component.

use vstd::prelude::*;
use crate::order::{lemma_path_lt_asymmetric, lemma_path_lt_transitive, path_less, path_lt};
use crate::paths::{component_names, path_components};
use crate::text::deep_strings;

verus! {

/// A source file to generate from: its path relative to the workspace root
/// and its contents.
#[derive(Debug)]
pub struct SourceFile {
    pub path: String,
    pub contents: String,
}

/// The mathematical value of a `SourceFile`.
pub struct SourceFileView {
    pub path: Seq<char>,
    pub contents: Seq<char>,
}

impl View for SourceFile {
    type V = SourceFileView;

    open spec fn view(&self) -> SourceFileView {
        SourceFileView { path: self.path@, contents: self.contents@ }
    }
}

impl Clone for SourceFile {
    fn clone(&self) -> (r: Self)
        ensures
            r@ == self@,
    {
        SourceFile { path: self.path.clone(), contents: self.contents.clone() }
    }
}

/// The views of a list of source files.
pub open spec fn files_view(files: Seq<SourceFile>) -> Seq<SourceFileView> {
    files.map_values(|f: SourceFile| f@)
}

/// The key by which files are ordered: the components of the path.
pub open spec fn path_key(f: SourceFileView) -> Seq<Seq<char>> {
    path_components(f.path)
}

/// The position at which `x` goes into `s`: before the first file whose
/// path comes after the path of `x`.
pub open spec fn insert_position(s: Seq<SourceFileView>, x: SourceFileView) -> int
    decreases s.len(),
{
    if s.len() == 0 {
        0
    } else if path_lt(path_key(x), path_key(s[0])) {
        0
    } else {
        1 + insert_position(s.drop_first(), x)
    }
}

/// The files ordered by path: each file in turn goes before the first of
/// the files before it whose path comes after its own, so that files with
/// equal paths keep their order (a stable sort).
pub open spec fn sorted_by_path(s: Seq<SourceFileView>) -> Seq<SourceFileView>
    decreases s.len(),
{
    if s.len() == 0 {
        s
    } else {
        let init = sorted_by_path(s.drop_last());
        init.insert(insert_position(init, s.last()), s.last())
    }
}

/// Whether no file's path comes before the path of a file ahead of it.
pub open spec fn ordered_by_path(s: Seq<SourceFileView>) -> bool {
    forall|i: int, j: int|
        0 <= i < j < s.len() ==> !path_lt(path_key(#[trigger] s[j]), path_key(#[trigger] s[i]))
}

proof fn lemma_insert_position_bounds(s: Seq<SourceFileView>, x: SourceFileView)
    ensures
        0 <= insert_position(s, x) <= s.len(),
        forall|q: int| 0 <= q < insert_position(s, x) ==> !path_lt(path_key(x), path_key(#[trigger] s[q])),
        insert_position(s, x) < s.len() ==> path_lt(path_key(x), path_key(s[insert_position(s, x)])),
    decreases s.len(),
{
    if s.len() > 0 && !path_lt(path_key(x), path_key(s[0])) {
        let t = s.drop_first();
        lemma_insert_position_bounds(t, x);
        assert forall|q: int| 0 <= q < insert_position(s, x) implies !path_lt(
            path_key(x),
            path_key(#[trigger] s[q]),
        ) by {
            if q > 0 {
                assert(s[q] == t[q - 1]);
            }
        }
        if insert_position(s, x) < s.len() {
            assert(s[insert_position(s, x)] == t[insert_position(t, x)]);
        }
    }
}

proof fn lemma_insert_position_unique(s: Seq<SourceFileView>, x: SourceFileView, p: int)
    requires
        0 <= p <= s.len(),
        forall|q: int| 0 <= q < p ==> !path_lt(path_key(x), path_key(#[trigger] s[q])),
        p < s.len() ==> path_lt(path_key(x), path_key(s[p])),
    ensures
        insert_position(s, x) == p,
    decreases s.len(),
{
    if s.len() > 0 && p > 0 {
        let t = s.drop_first();
        assert(!path_lt(path_key(x), path_key(s[0])));
        assert forall|q: int| 0 <= q < p - 1 implies !path_lt(path_key(x), path_key(#[trigger] t[q])) by {
            assert(t[q] == s[q + 1]);
        }
        if p - 1 < t.len() {
            assert(t[p - 1] == s[p]);
        }
        lemma_insert_position_unique(t, x, p - 1);
    }
}

/// Inserting a file at its position keeps the files ordered by path.
proof fn lemma_insert_keeps_order(s: Seq<SourceFileView>, x: SourceFileView)
    requires
        ordered_by_path(s),
    ensures
        ordered_by_path(s.insert(insert_position(s, x), x)),
{
    lemma_insert_position_bounds(s, x);
    let p = insert_position(s, x);
    let r = s.insert(p, x);
    assert forall|i: int, j: int| 0 <= i < j < r.len() implies !path_lt(
        path_key(#[trigger] r[j]),
        path_key(#[trigger] r[i]),
    ) by {
        if j < p {
            assert(r[i] == s[i] && r[j] == s[j]);
        } else if j == p {
            assert(r[i] == s[i]);
            assert(r[j] == x);
        } else if i == p {
            assert(r[j] == s[j - 1]);
            assert(r[i] == x);
            // s[p] comes after x, and no later file comes before s[p].
            if path_lt(path_key(s[j - 1]), path_key(x)) {
                if j - 1 > p {
                    lemma_path_lt_transitive(path_key(s[j - 1]), path_key(x), path_key(s[p]));
                } else {
                    lemma_path_lt_asymmetric(path_key(x), path_key(s[p]));
                }
            }
        } else if i < p {
            assert(r[i] == s[i] && r[j] == s[j - 1]);
        } else {
            assert(r[i] == s[i - 1] && r[j] == s[j - 1]);
        }
    }
}

/// Files read in path order: the files come out ordered by path.
pub proof fn law_sorted_by_path_is_ordered(s: Seq<SourceFileView>)
    ensures
        ordered_by_path(sorted_by_path(s)),
    decreases s.len(),
{
    if s.len() > 0 {
        law_sorted_by_path_is_ordered(s.drop_last());
        lemma_insert_keeps_order(sorted_by_path(s.drop_last()), s.last());
    }
}

/// Files read in path order: ordering neither drops nor repeats a file.
pub proof fn law_sorted_by_path_is_permutation(s: Seq<SourceFileView>)
    ensures
        sorted_by_path(s).to_multiset() == s.to_multiset(),
    decreases s.len(),
{
    broadcast use vstd::seq_lib::to_multiset_insert;
    broadcast use vstd::seq_lib::to_multiset_build;

    if s.len() == 0 {
    } else {
        let init = s.drop_last();
        law_sorted_by_path_is_permutation(init);
        let si = sorted_by_path(init);
        lemma_insert_position_bounds(si, s.last());
        assert(s =~= init.push(s.last()));
        assert(sorted_by_path(s).to_multiset() == si.to_multiset().insert(s.last()));
        assert(init.push(s.last()).to_multiset() == init.to_multiset().insert(s.last()));
    }
}

/// The source files ordered by path, compared component by component.
pub fn order_by_source_path(files: &Vec<SourceFile>) -> (sorted: Vec<SourceFile>)
    ensures
        files_view(sorted@) == sorted_by_path(files_view(files@)),
{
    let ghost fv = files_view(files@);
    let mut sorted: Vec<SourceFile> = Vec::new();
    let mut keys: Vec<Vec<String>> = Vec::new();
    let mut i: usize = 0;
    assert(files_view(sorted@) =~= sorted_by_path(fv.take(0)));
    while i < files.len()
        invariant
            i <= files.len(),
            fv == files_view(files@),
            files_view(sorted@) == sorted_by_path(fv.take(i as int)),
            keys@.len() == sorted@.len(),
            forall|q: int| 0 <= q < keys@.len() ==> deep_strings(#[trigger] keys@[q]@) == path_key(
                sorted@[q]@,
            ),
        decreases files.len() - i,
    {
        let ghost sv = files_view(sorted@);
        assert(fv.take(i + 1).drop_last() =~= fv.take(i as int));
        assert(fv.take(i + 1).last() == files@[i as int]@);
        let f = files[i].clone();
        let key = component_names(f.path.as_str());
        let mut p: usize = 0;
        while p < sorted.len()
            invariant
                p <= sorted.len(),
                sv == files_view(sorted@),
                keys@.len() == sorted@.len(),
                deep_strings(key@) == path_key(f@),
                forall|q: int| 0 <= q < keys@.len() ==> deep_strings(#[trigger] keys@[q]@)
                    == path_key(sorted@[q]@),
                forall|q: int| 0 <= q < p ==> !path_lt(path_key(f@), path_key(#[trigger] sv[q])),
            ensures
                p <= sorted.len(),
                forall|q: int| 0 <= q < p ==> !path_lt(path_key(f@), path_key(#[trigger] sv[q])),
                p < sorted.len() ==> path_lt(path_key(f@), path_key(sv[p as int])),
            decreases sorted.len() - p,
        {
            assert(sv[p as int] == sorted@[p as int]@);
            if path_less(&key, &keys[p]) {
                break;
            }
            p += 1;
        }
        proof {
            lemma_insert_position_unique(sv, f@, p as int);
        }
        let ghost fview = f@;
        let ghost old_keys = keys@;
        let ghost old_sorted = sorted@;
        sorted.insert(p, f);
        keys.insert(p, key);
        assert(files_view(sorted@) =~= sv.insert(p as int, fview));
        assert forall|q: int| 0 <= q < keys@.len() implies deep_strings(#[trigger] keys@[q]@)
            == path_key(sorted@[q]@) by {
            if q < p {
                assert(keys@[q] == old_keys[q] && sorted@[q] == old_sorted[q]);
            } else if q == p {
            } else {
                assert(keys@[q] == old_keys[q - 1] && sorted@[q] == old_sorted[q - 1]);
            }
        }
        i += 1;
    }
    assert(fv.take(files.len() as int) =~= fv);
    sorted
}

} // verus!
