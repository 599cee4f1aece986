//! Text primitives on char sequences: conversion between `str`, `String` and
//! `Vec<char>`, equality, splitting at a separator and trimming, each with its
//! mathematical definition.

use vstd::prelude::*;
use vstd::string::*;
use crate::unicode::{char_is_whitespace, is_whitespace_char};

verus! {

/// `String::push` appends one char.
pub assume_specification[ std::string::String::push ](s: &mut std::string::String, ch: char)
    ensures
        final(s)@ == old(s)@.push(ch),
;

/// The views of a vector of char vectors.
pub open spec fn deep_chars(v: Seq<Vec<char>>) -> Seq<Seq<char>> {
    v.map_values(|p: Vec<char>| p@)
}

/// The views of a vector of strings.
pub open spec fn deep_strings(v: Seq<String>) -> Seq<Seq<char>> {
    v.map_values(|p: String| p@)
}

/// The chars of `s`, in order.
pub fn chars_of(s: &str) -> (r: Vec<char>)
    ensures
        r@ == s@,
{
    let n = s.unicode_len();
    let mut r: Vec<char> = Vec::new();
    let mut i: usize = 0;
    while i < n
        invariant
            n == s@.len(),
            i <= n,
            r@ == s@.take(i as int),
        decreases n - i,
    {
        let c = s.get_char(i);
        r.push(c);
        i += 1;
        assert(r@ =~= s@.take(i as int));
    }
    assert(r@ =~= s@);
    r
}

/// A `String` holding the chars of `v`.
pub fn string_of(v: &Vec<char>) -> (r: String)
    ensures
        r@ == v@,
{
    let mut r = String::new();
    let mut i: usize = 0;
    while i < v.len()
        invariant
            i <= v.len(),
            r@ == v@.take(i as int),
        decreases v.len() - i,
    {
        r.push(v[i]);
        i += 1;
        assert(r@ =~= v@.take(i as int));
    }
    assert(r@ =~= v@);
    r
}

/// Whether two strings hold the same chars.
pub fn str_eq(a: &str, b: &str) -> (r: bool)
    ensures
        r == (a@ == b@),
{
    let n = a.unicode_len();
    let m = b.unicode_len();
    if n != m {
        return false;
    }
    let mut i: usize = 0;
    while i < n
        invariant
            n == a@.len(),
            m == b@.len(),
            n == m,
            i <= n,
            a@.take(i as int) == b@.take(i as int),
        decreases n - i,
    {
        if a.get_char(i) != b.get_char(i) {
            assert(a@[i as int] != b@[i as int]);
            return false;
        }
        assert(a@.take(i + 1) =~= a@.take(i as int).push(a@[i as int]));
        assert(b@.take(i + 1) =~= b@.take(i as int).push(b@[i as int]));
        i += 1;
    }
    assert(a@ =~= a@.take(n as int));
    assert(b@ =~= b@.take(n as int));
    true
}

/// Whether two char vectors hold the same chars.
pub fn chars_eq(a: &Vec<char>, b: &Vec<char>) -> (r: bool)
    ensures
        r == (a@ == b@),
{
    if a.len() != b.len() {
        return false;
    }
    let mut i: usize = 0;
    while i < a.len()
        invariant
            a.len() == b.len(),
            i <= a.len(),
            a@.take(i as int) == b@.take(i as int),
        decreases a.len() - i,
    {
        if a[i] != b[i] {
            return false;
        }
        assert(a@.take(i + 1) =~= a@.take(i as int).push(a@[i as int]));
        assert(b@.take(i + 1) =~= b@.take(i as int).push(b@[i as int]));
        i += 1;
    }
    assert(a@ =~= a@.take(a.len() as int));
    assert(b@ =~= b@.take(b.len() as int));
    true
}

/// The pieces of `s` between occurrences of `sep`, as `str::split` with a
/// char pattern yields them: `n` separators give `n + 1` pieces, and the
/// empty string gives one empty piece.
pub open spec fn split_seq(s: Seq<char>, sep: char) -> Seq<Seq<char>>
    decreases s.len(),
{
    if s.len() == 0 {
        seq![Seq::<char>::empty()]
    } else {
        let parts = split_seq(s.drop_last(), sep);
        if s.last() == sep {
            parts.push(Seq::<char>::empty())
        } else {
            parts.update(parts.len() - 1, parts.last().push(s.last()))
        }
    }
}

/// `split_seq` never yields an empty list of pieces.
pub proof fn lemma_split_nonempty(s: Seq<char>, sep: char)
    ensures
        split_seq(s, sep).len() >= 1,
    decreases s.len(),
{
    if s.len() > 0 {
        lemma_split_nonempty(s.drop_last(), sep);
    }
}

/// The pieces of `s` between occurrences of `sep`.
pub fn split_chars(s: &Vec<char>, sep: char) -> (parts: Vec<Vec<char>>)
    ensures
        deep_chars(parts@) == split_seq(s@, sep),
{
    let mut parts: Vec<Vec<char>> = Vec::new();
    let mut cur: Vec<char> = Vec::new();
    let mut i: usize = 0;
    assert(s@.take(0) =~= Seq::<char>::empty());
    assert(deep_chars(parts@).push(cur@) =~= split_seq(s@.take(0), sep));
    while i < s.len()
        invariant
            i <= s.len(),
            deep_chars(parts@).push(cur@) == split_seq(s@.take(i as int), sep),
        decreases s.len() - i,
    {
        let ghost before = deep_chars(parts@);
        let ghost prefix = s@.take(i as int);
        assert(s@.take(i + 1).drop_last() =~= prefix);
        assert(s@.take(i + 1).last() == s@[i as int]);
        let c = s[i];
        if c == sep {
            parts.push(cur);
            cur = Vec::new();
            assert(deep_chars(parts@) =~= before.push(split_seq(prefix, sep).last()));
            assert(deep_chars(parts@).push(cur@) =~= split_seq(s@.take(i + 1), sep));
        } else {
            cur.push(c);
            assert(deep_chars(parts@).push(cur@) =~= split_seq(s@.take(i + 1), sep));
        }
        i += 1;
    }
    assert(s@.take(s.len() as int) =~= s@);
    let ghost before = deep_chars(parts@);
    parts.push(cur);
    assert(deep_chars(parts@) =~= before.push(cur@));
    parts
}

/// `s` without its leading chars for which `p` holds.
pub open spec fn trim_start_by(s: Seq<char>, p: spec_fn(char) -> bool) -> Seq<char>
    decreases s.len(),
{
    if s.len() > 0 && p(s[0]) {
        trim_start_by(s.drop_first(), p)
    } else {
        s
    }
}

/// `s` without its trailing chars for which `p` holds.
pub open spec fn trim_end_by(s: Seq<char>, p: spec_fn(char) -> bool) -> Seq<char>
    decreases s.len(),
{
    if s.len() > 0 && p(s.last()) {
        trim_end_by(s.drop_last(), p)
    } else {
        s
    }
}

/// `s` without its leading and trailing chars for which `p` holds
/// (`str::trim_matches` with a char predicate).
pub open spec fn trim_by(s: Seq<char>, p: spec_fn(char) -> bool) -> Seq<char> {
    trim_end_by(trim_start_by(s, p), p)
}

/// Unicode white space, as `str::trim` removes it.
pub open spec fn is_ws(c: char) -> bool {
    char_is_whitespace(c)
}

/// The chars that the value of a `key = "value"` pair is stripped of.
pub open spec fn is_value_delimiter(c: char) -> bool {
    c == '"' || c == ' ' || c == ')' || c == '('
}

/// `str::trim`: `s` without leading and trailing white space.
pub open spec fn trim_ws(s: Seq<char>) -> Seq<char> {
    trim_by(s, |c: char| is_ws(c))
}

/// Which chars a trim removes.
pub enum TrimClass {
    WhiteSpace,
    ValueDelimiter,
}

/// The predicate of a trim class.
pub open spec fn class_pred(k: TrimClass) -> spec_fn(char) -> bool {
    match k {
        TrimClass::WhiteSpace => |c: char| is_ws(c),
        TrimClass::ValueDelimiter => |c: char| is_value_delimiter(c),
    }
}

fn in_class(c: char, k: &TrimClass) -> (r: bool)
    ensures
        r == class_pred(*k)(c),
{
    match k {
        TrimClass::WhiteSpace => is_whitespace_char(c),
        TrimClass::ValueDelimiter => c == '"' || c == ' ' || c == ')' || c == '(',
    }
}

proof fn lemma_trim_start_at(s: Seq<char>, p: spec_fn(char) -> bool, i: int)
    requires
        0 <= i <= s.len(),
        forall|k: int| 0 <= k < i ==> p(#[trigger] s[k]),
        i == s.len() || !p(s[i]),
    ensures
        trim_start_by(s, p) == s.subrange(i, s.len() as int),
    decreases i,
{
    if i == 0 {
        assert(s.subrange(0, s.len() as int) =~= s);
    } else {
        let t = s.drop_first();
        assert forall|k: int| 0 <= k < i - 1 implies p(#[trigger] t[k]) by {
            assert(t[k] == s[k + 1]);
        }
        lemma_trim_start_at(t, p, i - 1);
        assert(t.subrange(i - 1, t.len() as int) =~= s.subrange(i, s.len() as int));
    }
}

proof fn lemma_trim_end_at(s: Seq<char>, p: spec_fn(char) -> bool, j: int)
    requires
        0 <= j <= s.len(),
        forall|k: int| j <= k < s.len() ==> p(#[trigger] s[k]),
        j == 0 || !p(s[j - 1]),
    ensures
        trim_end_by(s, p) == s.subrange(0, j),
    decreases s.len() - j,
{
    if j == s.len() {
        assert(s.subrange(0, j) =~= s);
    } else {
        let t = s.drop_last();
        assert forall|k: int| j <= k < t.len() implies p(#[trigger] t[k]) by {
            assert(t[k] == s[k]);
        }
        lemma_trim_end_at(t, p, j);
        assert(t.subrange(0, j) =~= s.subrange(0, j));
    }
}

/// `s` without its leading and trailing chars of class `k`.
pub fn trim_chars(s: &Vec<char>, k: TrimClass) -> (r: Vec<char>)
    ensures
        r@ == trim_by(s@, class_pred(k)),
{
    let ghost p = class_pred(k);
    let n = s.len();
    let mut i: usize = 0;
    while i < n
        invariant
            n == s.len(),
            i <= n,
            p == class_pred(k),
            forall|m: int| 0 <= m < i ==> p(#[trigger] s@[m]),
        ensures
            i <= n,
            forall|m: int| 0 <= m < i ==> p(#[trigger] s@[m]),
            i == n || !p(s@[i as int]),
        decreases n - i,
    {
        if !in_class(s[i], &k) {
            break;
        }
        i += 1;
    }
    proof {
        lemma_trim_start_at(s@, p, i as int);
    }
    let ghost t = s@.subrange(i as int, n as int);
    let mut j: usize = n;
    while j > i
        invariant
            n == s.len(),
            i <= j <= n,
            p == class_pred(k),
            t == s@.subrange(i as int, n as int),
            forall|m: int| j <= m < n ==> p(#[trigger] s@[m]),
        ensures
            i <= j <= n,
            forall|m: int| j <= m < n ==> p(#[trigger] s@[m]),
            j == i || !p(s@[j - 1]),
        decreases j,
    {
        if !in_class(s[j - 1], &k) {
            break;
        }
        j -= 1;
    }
    proof {
        assert forall|m: int| j - i <= m < t.len() implies p(#[trigger] t[m]) by {
            assert(t[m] == s@[m + i]);
        }
        if j > i {
            assert(t[j - i - 1] == s@[j - 1]);
        }
        lemma_trim_end_at(t, p, j - i);
        assert(t.subrange(0, j - i) =~= s@.subrange(i as int, j as int));
    }
    let mut r: Vec<char> = Vec::new();
    let mut m: usize = i;
    while m < j
        invariant
            i <= m <= j <= n,
            n == s.len(),
            r@ == s@.subrange(i as int, m as int),
        decreases j - m,
    {
        r.push(s[m]);
        m += 1;
        assert(r@ =~= s@.subrange(i as int, m as int));
    }
    r
}

} // verus!
