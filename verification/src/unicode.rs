//! Unicode character properties and case mappings, taken from the standard
//! library. On ASCII they are stated as the documentation gives them
//! (`A`..`Z` and `a`..`z` are the cased letters, mapped to each other, and
//! every other ASCII char is uncased and maps to itself); beyond ASCII their
//! tables are Unicode's, so each result is given a name and the contracts
//! speak of that name.

use vstd::prelude::*;

verus! {

/// Whether `c` has the Unicode `White_Space` property (`char::is_whitespace`).
pub uninterp spec fn char_is_whitespace(c: char) -> bool;

/// Whether `c` has the Unicode `Uppercase` property (`char::is_uppercase`).
pub uninterp spec fn char_is_uppercase(c: char) -> bool;

/// Whether `c` has the Unicode `Lowercase` property (`char::is_lowercase`).
pub uninterp spec fn char_is_lowercase(c: char) -> bool;

/// The uppercase mapping of `c` (`char::to_uppercase`), one or more chars.
pub uninterp spec fn char_uppercase(c: char) -> Seq<char>;

/// The lowercase mapping of `c` (`char::to_lowercase`), one or more chars.
pub uninterp spec fn char_lowercase(c: char) -> Seq<char>;

/// Whether `c` is an ASCII char.
pub open spec fn is_ascii(c: char) -> bool {
    (c as u32) < 0x80
}

/// Whether `c` is an uppercase char: on ASCII exactly `A`..`Z`.
pub open spec fn is_upper(c: char) -> bool {
    if is_ascii(c) {
        'A' <= c && c <= 'Z'
    } else {
        char_is_uppercase(c)
    }
}

/// Whether `c` is a lowercase char: on ASCII exactly `a`..`z`.
pub open spec fn is_lower(c: char) -> bool {
    if is_ascii(c) {
        'a' <= c && c <= 'z'
    } else {
        char_is_lowercase(c)
    }
}

/// The uppercase mapping of `c`: on ASCII, `a`..`z` to `A`..`Z` and every
/// other char to itself.
pub open spec fn upper_of(c: char) -> Seq<char> {
    if 'a' <= c && c <= 'z' {
        seq![((c as u32) - 32) as char]
    } else if is_ascii(c) {
        seq![c]
    } else {
        char_uppercase(c)
    }
}

/// The lowercase mapping of `c`: on ASCII, `A`..`Z` to `a`..`z` and every
/// other char to itself.
pub open spec fn lower_of(c: char) -> Seq<char> {
    if 'A' <= c && c <= 'Z' {
        seq![((c as u32) + 32) as char]
    } else if is_ascii(c) {
        seq![c]
    } else {
        char_lowercase(c)
    }
}

/// The uppercase form of a whole string (`str::to_uppercase`).
pub uninterp spec fn str_uppercase(s: Seq<char>) -> Seq<char>;

/// The lowercase form of a whole string (`str::to_lowercase`), which unlike
/// the char mapping looks at context (the final sigma).
pub uninterp spec fn str_lowercase(s: Seq<char>) -> Seq<char>;

/// Calls `char::is_whitespace`. The contract claims only that the result is
/// the named property of `c`; which chars have it is not stated.
#[verifier::external_body]
pub(crate) fn is_whitespace_char(c: char) -> (r: bool)
    ensures
        r == char_is_whitespace(c),
{
    c.is_whitespace()
}

/// Calls `char::is_uppercase`. The contract claims that on ASCII it holds
/// exactly of `A`..`Z`, and beyond ASCII that it is the named property.
#[verifier::external_body]
pub(crate) fn is_uppercase_char(c: char) -> (r: bool)
    ensures
        is_ascii(c) ==> r == ('A' <= c && c <= 'Z'),
        !is_ascii(c) ==> r == char_is_uppercase(c),
{
    c.is_uppercase()
}

/// Calls `char::is_lowercase`. The contract claims that on ASCII it holds
/// exactly of `a`..`z`, and beyond ASCII that it is the named property.
#[verifier::external_body]
pub(crate) fn is_lowercase_char(c: char) -> (r: bool)
    ensures
        is_ascii(c) ==> r == ('a' <= c && c <= 'z'),
        !is_ascii(c) ==> r == char_is_lowercase(c),
{
    c.is_lowercase()
}

/// Collects `char::to_uppercase` into a `String`. The contract claims that
/// on ASCII it maps `a`..`z` to `A`..`Z` and keeps every other char, that
/// beyond ASCII it is the named mapping, and, as the documentation says of
/// the iterator, that it holds at least one char.
#[verifier::external_body]
pub(crate) fn uppercase_of_char(c: char) -> (r: String)
    ensures
        'a' <= c && c <= 'z' ==> r@ == seq![((c as u32) - 32) as char],
        is_ascii(c) && !('a' <= c && c <= 'z') ==> r@ == seq![c],
        !is_ascii(c) ==> r@ == char_uppercase(c),
        r@.len() >= 1,
{
    c.to_uppercase().collect()
}

/// Collects `char::to_lowercase` into a `String`. The contract claims that
/// on ASCII it maps `A`..`Z` to `a`..`z` and keeps every other char, that
/// beyond ASCII it is the named mapping, and, as the documentation says of
/// the iterator, that it holds at least one char.
#[verifier::external_body]
pub(crate) fn lowercase_of_char(c: char) -> (r: String)
    ensures
        'A' <= c && c <= 'Z' ==> r@ == seq![((c as u32) + 32) as char],
        is_ascii(c) && !('A' <= c && c <= 'Z') ==> r@ == seq![c],
        !is_ascii(c) ==> r@ == char_lowercase(c),
        r@.len() >= 1,
{
    c.to_lowercase().collect()
}

/// Calls `str::to_uppercase`. The contract claims only that the result is
/// the named uppercase form of `s`.
#[verifier::external_body]
pub(crate) fn uppercase_of_str(s: &str) -> (r: String)
    ensures
        r@ == str_uppercase(s@),
{
    s.to_uppercase()
}

/// Calls `str::to_lowercase`. The contract claims only that the result is
/// the named lowercase form of `s`.
#[verifier::external_body]
pub(crate) fn lowercase_of_str(s: &str) -> (r: String)
    ensures
        r@ == str_lowercase(s@),
{
    s.to_lowercase()
}

} // verus!
