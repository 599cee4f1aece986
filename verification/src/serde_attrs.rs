//! Serde attributes that shape the JSON form of a type: `rename_all`,
//! `rename` and the `skip` family, and the case conversions of the rename
//! rules.

use vstd::prelude::*;
use vstd::string::*;
use crate::syntax::AttrSyntax;
use crate::text::{
    chars_of, deep_chars, is_value_delimiter, lemma_split_nonempty, split_chars,
    split_seq, str_eq, string_of, trim_by, trim_chars, trim_ws, TrimClass,
};
use crate::unicode::{
    is_lower, is_lowercase_char, is_upper, is_uppercase_char, lower_of, lowercase_of_char,
    lowercase_of_str, str_lowercase, str_uppercase, upper_of, uppercase_of_char, uppercase_of_str,
};

verus! {

/// Serde rename strategy for structs/enums (`rename_all`).
#[derive(Debug, Clone, Copy, PartialEq, Eq, Structural)]
pub enum RenameRule {
    /// No transformation
    Unchanged,
    /// snake_case
    SnakeCase,
    /// camelCase
    CamelCase,
    /// PascalCase
    PascalCase,
    /// SCREAMING_SNAKE_CASE
    ScreamingSnakeCase,
    /// kebab-case
    KebabCase,
    /// lowercase
    Lowercase,
    /// UPPERCASE
    Uppercase,
}

/// Serde attributes found on a type, a field or a variant.
#[derive(Debug)]
pub struct SerdeAttrs {
    /// rename_all rule (for structs/enums)
    pub rename_all: Option<RenameRule>,
    /// Explicit rename for a single field/variant
    pub rename: Option<String>,
    /// Skip serialization
    pub skip_serializing: bool,
    /// Skip deserialization
    pub skip_deserializing: bool,
    /// Skip both
    pub skip: bool,
}

/// The mathematical value of `SerdeAttrs`.
pub struct SerdeAttrsView {
    pub rename_all: Option<RenameRule>,
    pub rename: Option<Seq<char>>,
    pub skip_serializing: bool,
    pub skip_deserializing: bool,
    pub skip: bool,
}

impl View for SerdeAttrs {
    type V = SerdeAttrsView;

    open spec fn view(&self) -> SerdeAttrsView {
        SerdeAttrsView {
            rename_all: self.rename_all,
            rename: match self.rename {
                Some(r) => Some(r@),
                None => None,
            },
            skip_serializing: self.skip_serializing,
            skip_deserializing: self.skip_deserializing,
            skip: self.skip,
        }
    }
}

impl Clone for SerdeAttrs {
    fn clone(&self) -> (r: Self)
        ensures
            r@ == self@,
    {
        SerdeAttrs {
            rename_all: self.rename_all,
            rename: match &self.rename {
                Some(r) => Some(r.clone()),
                None => None,
            },
            skip_serializing: self.skip_serializing,
            skip_deserializing: self.skip_deserializing,
            skip: self.skip,
        }
    }
}

impl Default for SerdeAttrs {
    fn default() -> (r: Self)
        ensures
            r@ == (SerdeAttrsView {
                rename_all: None,
                rename: None,
                skip_serializing: false,
                skip_deserializing: false,
                skip: false,
            }),
    {
        SerdeAttrs {
            rename_all: None,
            rename: None,
            skip_serializing: false,
            skip_deserializing: false,
            skip: false,
        }
    }
}


/// The rename rule that a `rename_all` value names.
pub open spec fn rule_named(s: Seq<char>) -> Option<RenameRule> {
    if s == "snake_case"@ {
        Some(RenameRule::SnakeCase)
    } else if s == "camelCase"@ {
        Some(RenameRule::CamelCase)
    } else if s == "PascalCase"@ {
        Some(RenameRule::PascalCase)
    } else if s == "SCREAMING_SNAKE_CASE"@ {
        Some(RenameRule::ScreamingSnakeCase)
    } else if s == "kebab-case"@ {
        Some(RenameRule::KebabCase)
    } else if s == "lowercase"@ {
        Some(RenameRule::Lowercase)
    } else if s == "UPPERCASE"@ {
        Some(RenameRule::Uppercase)
    } else {
        None
    }
}

/// The snake_case text of `s`, together with whether its last char was
/// lowercase: an uppercase char becomes the first char of its lowercase
/// mapping, preceded by `_` when it follows a lowercase char; every other
/// char is kept.
pub open spec fn snake_state(s: Seq<char>) -> (Seq<char>, bool)
    decreases s.len(),
{
    if s.len() == 0 {
        (Seq::empty(), false)
    } else {
        let (out, prev_is_lower) = snake_state(s.drop_last());
        let ch = s.last();
        if is_upper(ch) {
            let sep = if s.len() > 1 && prev_is_lower {
                out.push('_')
            } else {
                out
            };
            (sep.push(lower_of(ch)[0]), false)
        } else {
            (out.push(ch), is_lower(ch))
        }
    }
}

/// `UserId` to `user_id`.
pub open spec fn snake_case(s: Seq<char>) -> Seq<char> {
    snake_state(s).0
}

/// A word with its first char replaced by the first char of its uppercase
/// mapping.
pub open spec fn capitalized(p: Seq<char>) -> Seq<char> {
    if p.len() == 0 {
        p
    } else {
        seq![upper_of(p[0])[0]] + p.drop_first()
    }
}

/// The words, each capitalized, joined without separator.
pub open spec fn join_capitalized(parts: Seq<Seq<char>>) -> Seq<char>
    decreases parts.len(),
{
    if parts.len() == 0 {
        Seq::empty()
    } else {
        join_capitalized(parts.drop_last()) + capitalized(parts.last())
    }
}

/// A word with its first char replaced by the first char of its lowercase
/// mapping.
pub open spec fn uncapitalized(p: Seq<char>) -> Seq<char> {
    if p.len() == 0 {
        p
    } else {
        seq![lower_of(p[0])[0]] + p.drop_first()
    }
}

/// `user_name` to `userName`, `ActiveUser` to `activeUser`: the first
/// `_`-separated word begins in lowercase, the others are capitalized.
pub open spec fn camel_case(s: Seq<char>) -> Seq<char> {
    let parts = split_seq(s, '_');
    uncapitalized(parts[0]) + join_capitalized(parts.drop_first())
}

/// `user_name` to `UserName`: every `_`-separated word is capitalized.
pub open spec fn pascal_case(s: Seq<char>) -> Seq<char> {
    join_capitalized(split_seq(s, '_'))
}

/// `user_name` to `user-name`.
pub open spec fn kebab_case(s: Seq<char>) -> Seq<char> {
    snake_case(s).map_values(|c: char| if c == '_' { '-' } else { c })
}

/// The name that a rule makes of `name`.
pub open spec fn rule_applied(rule: RenameRule, name: Seq<char>) -> Seq<char> {
    match rule {
        RenameRule::Unchanged => name,
        RenameRule::SnakeCase => snake_case(name),
        RenameRule::CamelCase => camel_case(name),
        RenameRule::PascalCase => pascal_case(name),
        RenameRule::ScreamingSnakeCase => str_uppercase(snake_case(name)),
        RenameRule::KebabCase => kebab_case(name),
        RenameRule::Lowercase => str_lowercase(name),
        RenameRule::Uppercase => str_uppercase(name),
    }
}

impl RenameRule {
    /// Parse rename_all value from serde attribute: `Some` rule for the seven
    /// names serde uses, `None` for any other text.
    pub fn parse(s: &str) -> (r: Option<Self>)
        ensures
            r == rule_named(s@),
    {
        if str_eq(s, "snake_case") {
            Some(RenameRule::SnakeCase)
        } else if str_eq(s, "camelCase") {
            Some(RenameRule::CamelCase)
        } else if str_eq(s, "PascalCase") {
            Some(RenameRule::PascalCase)
        } else if str_eq(s, "SCREAMING_SNAKE_CASE") {
            Some(RenameRule::ScreamingSnakeCase)
        } else if str_eq(s, "kebab-case") {
            Some(RenameRule::KebabCase)
        } else if str_eq(s, "lowercase") {
            Some(RenameRule::Lowercase)
        } else if str_eq(s, "UPPERCASE") {
            Some(RenameRule::Uppercase)
        } else {
            None
        }
    }

    /// Apply the rename rule to a string
    pub fn apply(&self, name: &str) -> (r: String)
        ensures
            r@ == rule_applied(*self, name@),
    {
        match self {
            RenameRule::Unchanged => {
                let v = chars_of(name);
                string_of(&v)
            },
            RenameRule::SnakeCase => to_snake_case(name),
            RenameRule::CamelCase => to_camel_case(name),
            RenameRule::PascalCase => to_pascal_case(name),
            RenameRule::ScreamingSnakeCase => to_screaming_snake_case(name),
            RenameRule::KebabCase => to_kebab_case(name),
            RenameRule::Lowercase => lowercase_of_str(name),
            RenameRule::Uppercase => uppercase_of_str(name),
        }
    }
}

/// The mathematical value of `SerdeAttrs::default()`.
pub open spec fn no_serde_attrs() -> SerdeAttrsView {
    SerdeAttrsView {
        rename_all: None,
        rename: None,
        skip_serializing: false,
        skip_deserializing: false,
        skip: false,
    }
}

/// Whether a field or variant with these attributes is left out.
pub open spec fn skipped(a: SerdeAttrsView) -> bool {
    a.skip || a.skip_serializing || a.skip_deserializing
}

/// The JSON name: an explicit `rename` wins, then the item's own
/// `rename_all`, then the parent's `rename_all`, else the Rust name.
pub open spec fn json_name_of(
    a: SerdeAttrsView,
    rust_name: Seq<char>,
    parent_rename_all: Option<RenameRule>,
) -> Seq<char> {
    match a.rename {
        Some(r) => r,
        None => match a.rename_all {
            Some(rule) => rule_applied(rule, rust_name),
            None => match parent_rename_all {
                Some(rule) => rule_applied(rule, rust_name),
                None => rust_name,
            },
        },
    }
}

impl SerdeAttrs {
    /// Should this field/variant be skipped in generation?
    pub fn should_skip(&self) -> (r: bool)
        ensures
            r == skipped(self@),
    {
        self.skip || self.skip_serializing || self.skip_deserializing
    }

    /// Get the final JSON name for a field, applying rename rules
    pub fn get_json_name(&self, rust_name: &str, parent_rename_all: Option<RenameRule>) -> (r:
        String)
        ensures
            r@ == json_name_of(self@, rust_name@, parent_rename_all),
    {
        if let Some(rename) = &self.rename {
            return rename.clone();
        }
        if let Some(rule) = self.rename_all {
            return rule.apply(rust_name);
        }
        if let Some(rule) = parent_rename_all {
            return rule.apply(rust_name);
        }
        let v = chars_of(rust_name);
        string_of(&v)
    }
}

/// The value of a `key = "value"` pair: the text between the first and the
/// second `=`, trimmed of white space and then of quotes, blanks and
/// parentheses; `None` when there is no `=`.
pub open spec fn string_value_of(s: Seq<char>) -> Option<Seq<char>> {
    let parts = split_seq(s, '=');
    if parts.len() < 2 {
        None
    } else {
        Some(trim_by(trim_ws(parts[1]), |c: char| is_value_delimiter(c)))
    }
}

/// Extract string value from "key = \"value\"" format
pub fn extract_string_value(s: &str) -> (r: Option<String>)
    ensures
        match r {
            Some(v) => string_value_of(s@) == Some(v@),
            None => string_value_of(s@) is None,
        },
{
    let cs = chars_of(s);
    let parts = split_chars(&cs, '=');
    if parts.len() < 2 {
        return None;
    }
    assert(deep_chars(parts@)[1] == parts@[1]@);
    let trimmed = trim_chars(&parts[1], TrimClass::WhiteSpace);
    let value = trim_chars(&trimmed, TrimClass::ValueDelimiter);
    assert(trim_ws(parts@[1]@) == trimmed@);
    Some(string_of(&value))
}

/// The key of one comma-separated part of a serde attribute: the text
/// before its first `=`, after the last `(` there (which opens the list of
/// `serde (...)`), trimmed of white space and then of quotes, blanks and
/// parentheses. `serde (rename = "id"` has the key `rename`, ` skip)` the
/// key `skip`.
pub open spec fn part_key(part: Seq<char>) -> Seq<char> {
    let pieces = split_seq(split_seq(part, '=')[0], '(');
    trim_by(trim_ws(pieces[pieces.len() - 1]), |c: char| is_value_delimiter(c))
}

/// The attribute settings after reading one comma-separated part of a serde
/// attribute, by its key. `rename_all` sets the rule (to `None` for an
/// unknown name); `rename` sets the explicit name; `skip`,
/// `skip_serializing` and `skip_deserializing` set their flag. Any other key
/// (such as `skip_serializing_if` or `default`) changes nothing.
pub open spec fn apply_serde_part(acc: SerdeAttrsView, part: Seq<char>) -> SerdeAttrsView {
    let key = part_key(part);
    if key == "rename_all"@ {
        match string_value_of(part) {
            Some(v) => SerdeAttrsView { rename_all: rule_named(v), ..acc },
            None => acc,
        }
    } else if key == "rename"@ {
        match string_value_of(part) {
            Some(v) => SerdeAttrsView { rename: Some(v), ..acc },
            None => acc,
        }
    } else if key == "skip_serializing"@ {
        SerdeAttrsView { skip_serializing: true, ..acc }
    } else if key == "skip_deserializing"@ {
        SerdeAttrsView { skip_deserializing: true, ..acc }
    } else if key == "skip"@ {
        SerdeAttrsView { skip: true, ..acc }
    } else {
        acc
    }
}

/// The settings after reading the parts in order, each trimmed.
pub open spec fn apply_serde_parts(acc: SerdeAttrsView, parts: Seq<Seq<char>>) -> SerdeAttrsView
    decreases parts.len(),
{
    if parts.len() == 0 {
        acc
    } else {
        apply_serde_part(apply_serde_parts(acc, parts.drop_last()), trim_ws(parts.last()))
    }
}

/// The settings after reading the attributes in order; only attributes whose
/// path is `serde` are read, split at every comma of their tokens.
pub open spec fn apply_serde_attrs(acc: SerdeAttrsView, attrs: Seq<AttrSyntax>) -> SerdeAttrsView
    decreases attrs.len(),
{
    if attrs.len() == 0 {
        acc
    } else {
        let before = apply_serde_attrs(acc, attrs.drop_last());
        if attrs.last().path_is_serde {
            apply_serde_parts(before, split_seq(attrs.last().tokens@, ','))
        } else {
            before
        }
    }
}

/// The serde settings that a list of attributes gives.
pub open spec fn serde_attrs_of(attrs: Seq<AttrSyntax>) -> SerdeAttrsView {
    apply_serde_attrs(no_serde_attrs(), attrs)
}

/// The key of a part (see `part_key`).
fn key_of(part: &Vec<char>) -> (r: Vec<char>)
    ensures
        r@ == part_key(part@),
{
    let pieces = split_chars(part, '=');
    proof {
        lemma_split_nonempty(part@, '=');
    }
    assert(deep_chars(pieces@)[0] == pieces@[0]@);
    let inner = split_chars(&pieces[0], '(');
    proof {
        lemma_split_nonempty(pieces@[0]@, '(');
    }
    let last = inner.len() - 1;
    assert(deep_chars(inner@)[last as int] == inner@[last as int]@);
    let trimmed = trim_chars(&inner[last], TrimClass::WhiteSpace);
    let key = trim_chars(&trimmed, TrimClass::ValueDelimiter);
    assert(trim_ws(inner@[last as int]@) == trimmed@);
    key
}

fn read_serde_part(result: &mut SerdeAttrs, raw: &Vec<char>)
    ensures
        final(result)@ == apply_serde_part(old(result)@, trim_ws(raw@)),
{
    let part = trim_chars(raw, TrimClass::WhiteSpace);
    let text = string_of(&part);
    let key = key_of(&part);
    let key_text = string_of(&key);
    let k = key_text.as_str();
    if str_eq(k, "rename_all") {
        if let Some(rule_str) = extract_string_value(text.as_str()) {
            result.rename_all = RenameRule::parse(rule_str.as_str());
        }
    } else if str_eq(k, "rename") {
        if let Some(rename_value) = extract_string_value(text.as_str()) {
            result.rename = Some(rename_value);
        }
    } else if str_eq(k, "skip_serializing") {
        result.skip_serializing = true;
    } else if str_eq(k, "skip_deserializing") {
        result.skip_deserializing = true;
    } else if str_eq(k, "skip") {
        result.skip = true;
    }
}

/// Parse serde attributes from a list of attributes: `rename_all`,
/// `rename`, `skip`, `skip_serializing` and `skip_deserializing`, read from
/// the attributes whose path is `serde`.
pub fn parse_serde_attrs(attrs: &[AttrSyntax]) -> (result: SerdeAttrs)
    ensures
        result@ == serde_attrs_of(attrs@),
{
    let mut result = SerdeAttrs::default();
    let mut i: usize = 0;
    assert(attrs@.take(0) =~= Seq::<AttrSyntax>::empty());
    while i < attrs.len()
        invariant
            i <= attrs.len(),
            result@ == apply_serde_attrs(no_serde_attrs(), attrs@.take(i as int)),
        decreases attrs.len() - i,
    {
        assert(attrs@.take(i + 1).drop_last() =~= attrs@.take(i as int));
        let attr = &attrs[i];
        if attr.path_is_serde {
            let tokens = chars_of(attr.tokens.as_str());
            let parts = split_chars(&tokens, ',');
            let ghost start = result@;
            let mut j: usize = 0;
            assert(deep_chars(parts@).take(0) =~= Seq::<Seq<char>>::empty());
            while j < parts.len()
                invariant
                    j <= parts.len(),
                    result@ == apply_serde_parts(start, deep_chars(parts@).take(j as int)),
                decreases parts.len() - j,
            {
                assert(deep_chars(parts@).take(j + 1).drop_last() =~= deep_chars(parts@).take(
                    j as int,
                ));
                assert(deep_chars(parts@).take(j + 1).last() == parts@[j as int]@);
                read_serde_part(&mut result, &parts[j]);
                j += 1;
            }
            assert(deep_chars(parts@).take(parts.len() as int) =~= deep_chars(parts@));
        }
        i += 1;
    }
    assert(attrs@.take(attrs.len() as int) =~= attrs@);
    result
}

// Case conversion functions

/// `userName` to `user_name` (see `snake_case`).
pub fn to_snake_case(s: &str) -> (r: String)
    ensures
        r@ == snake_case(s@),
{
    let cs = chars_of(s);
    let mut result = String::new();
    let mut prev_is_lower = false;
    let mut i: usize = 0;
    while i < cs.len()
        invariant
            i <= cs.len(),
            cs@ == s@,
            (result@, prev_is_lower) == snake_state(cs@.take(i as int)),
        decreases cs.len() - i,
    {
        assert(cs@.take(i + 1).drop_last() =~= cs@.take(i as int));
        let ch = cs[i];
        if is_uppercase_char(ch) {
            if i > 0 && prev_is_lower {
                result.push('_');
            }
            let lower = lowercase_of_char(ch);
            result.push(lower.as_str().get_char(0));
            prev_is_lower = false;
        } else {
            result.push(ch);
            prev_is_lower = is_lowercase_char(ch);
        }
        i += 1;
    }
    assert(cs@.take(cs.len() as int) =~= cs@);
    result
}

/// Appends `capitalized(part)`, reading the first char's uppercase mapping.
fn push_capitalized(out: &mut String, part: &Vec<char>)
    ensures
        final(out)@ == old(out)@ + capitalized(part@),
{
    if part.len() > 0 {
        let upper = uppercase_of_char(part[0]);
        out.push(upper.as_str().get_char(0));
        let ghost mid = out@;
        let mut k: usize = 1;
        while k < part.len()
            invariant
                1 <= k <= part.len(),
                out@ == mid + part@.subrange(1, k as int),
            decreases part.len() - k,
        {
            out.push(part[k]);
            k += 1;
            assert(out@ =~= mid + part@.subrange(1, k as int));
        }
        assert(part@.subrange(1, part.len() as int) =~= part@.drop_first());
        assert(seq![upper_of(part@[0])[0]] + part@.drop_first() =~= capitalized(part@));
        assert(out@ =~= old(out)@ + capitalized(part@));
    } else {
        assert(capitalized(part@) =~= Seq::<char>::empty());
        assert(out@ =~= old(out)@ + capitalized(part@));
    }
}

/// Appends `uncapitalized(part)`, reading the first char's lowercase mapping.
fn push_uncapitalized(out: &mut String, part: &Vec<char>)
    ensures
        final(out)@ == old(out)@ + uncapitalized(part@),
{
    if part.len() > 0 {
        let lower = lowercase_of_char(part[0]);
        out.push(lower.as_str().get_char(0));
        let ghost mid = out@;
        let mut k: usize = 1;
        while k < part.len()
            invariant
                1 <= k <= part.len(),
                out@ == mid + part@.subrange(1, k as int),
            decreases part.len() - k,
        {
            out.push(part[k]);
            k += 1;
            assert(out@ =~= mid + part@.subrange(1, k as int));
        }
        assert(part@.subrange(1, part.len() as int) =~= part@.drop_first());
        assert(seq![lower_of(part@[0])[0]] + part@.drop_first() =~= uncapitalized(part@));
        assert(out@ =~= old(out)@ + uncapitalized(part@));
    } else {
        assert(uncapitalized(part@) =~= Seq::<char>::empty());
        assert(out@ =~= old(out)@ + uncapitalized(part@));
    }
}

/// Appends the words `parts[from..]`, each capitalized.
fn push_all_capitalized(out: &mut String, parts: &Vec<Vec<char>>, from: usize)
    requires
        from <= parts.len(),
    ensures
        final(out)@ == old(out)@ + join_capitalized(deep_chars(parts@).skip(from as int)),
{
    let ghost start = old(out)@;
    let ghost words = deep_chars(parts@).skip(from as int);
    let mut i: usize = from;
    assert(words.take(0) =~= Seq::<Seq<char>>::empty());
    while i < parts.len()
        invariant
            from <= i <= parts.len(),
            words == deep_chars(parts@).skip(from as int),
            out@ == start + join_capitalized(words.take(i - from)),
        decreases parts.len() - i,
    {
        assert(words.take(i - from + 1).drop_last() =~= words.take(i - from));
        assert(words.take(i - from + 1).last() == parts@[i as int]@);
        push_capitalized(out, &parts[i]);
        i += 1;
        assert(out@ =~= start + join_capitalized(words.take(i - from)));
    }
    assert(words.take(parts.len() - from) =~= words);
}

/// `user_name` to `userName` (see `camel_case`).
pub fn to_camel_case(s: &str) -> (r: String)
    ensures
        r@ == camel_case(s@),
{
    let cs = chars_of(s);
    let parts = split_chars(&cs, '_');
    proof {
        lemma_split_nonempty(s@, '_');
    }
    let mut result = String::new();
    push_uncapitalized(&mut result, &parts[0]);
    push_all_capitalized(&mut result, &parts, 1);
    assert(deep_chars(parts@).skip(1) =~= split_seq(s@, '_').drop_first());
    result
}

/// `user_name` to `UserName` (see `pascal_case`).
pub fn to_pascal_case(s: &str) -> (r: String)
    ensures
        r@ == pascal_case(s@),
{
    let cs = chars_of(s);
    let parts = split_chars(&cs, '_');
    let mut result = String::new();
    push_all_capitalized(&mut result, &parts, 0);
    assert(deep_chars(parts@).skip(0) =~= split_seq(s@, '_'));
    result
}

/// `userName` to `USER_NAME`.
pub fn to_screaming_snake_case(s: &str) -> (r: String)
    ensures
        r@ == str_uppercase(snake_case(s@)),
{
    let snake = to_snake_case(s);
    uppercase_of_str(snake.as_str())
}

/// `userName` to `user-name` (see `kebab_case`).
pub fn to_kebab_case(s: &str) -> (r: String)
    ensures
        r@ == kebab_case(s@),
{
    let snake = to_snake_case(s);
    let cs = chars_of(snake.as_str());
    let mut result = String::new();
    let mut i: usize = 0;
    while i < cs.len()
        invariant
            i <= cs.len(),
            cs@ == snake_case(s@),
            result@ == cs@.take(i as int).map_values(|c: char| if c == '_' { '-' } else { c }),
        decreases cs.len() - i,
    {
        if cs[i] == '_' {
            result.push('-');
        } else {
            result.push(cs[i]);
        }
        i += 1;
        assert(result@ =~= cs@.take(i as int).map_values(
            |c: char|
                if c == '_' {
                    '-'
                } else {
                    c
                },
        ));
    }
    assert(cs@.take(cs.len() as int) =~= cs@);
    result
}

/// An explicit `rename` gives the JSON name, whatever rules the item and its
/// parent have.
pub proof fn law_explicit_rename_wins(
    a: SerdeAttrsView,
    rust_name: Seq<char>,
    parent_rename_all: Option<RenameRule>,
)
    requires
        a.rename is Some,
    ensures
        json_name_of(a, rust_name, parent_rename_all) == a.rename->0,
{
}

/// Without an explicit `rename`, the item's own `rename_all` is applied and
/// the parent's is not.
pub proof fn law_own_rule_before_parent(
    a: SerdeAttrsView,
    rust_name: Seq<char>,
    parent_rename_all: Option<RenameRule>,
    rule: RenameRule,
)
    requires
        a.rename is None,
        a.rename_all == Some(rule),
    ensures
        json_name_of(a, rust_name, parent_rename_all) == rule_applied(rule, rust_name),
{
}

/// Text without the separator is a single piece.
pub proof fn lemma_split_without_separator(s: Seq<char>, sep: char)
    requires
        !s.contains(sep),
    ensures
        split_seq(s, sep) == seq![s],
    decreases s.len(),
{
    if s.len() > 0 {
        let init = s.drop_last();
        assert(!init.contains(sep)) by {
            if init.contains(sep) {
                let i = choose|i: int| 0 <= i < init.len() && init[i] == sep;
                assert(s[i] == sep);
            }
        }
        lemma_split_without_separator(init, sep);
        assert(s.last() != sep) by {
            if s.last() == sep {
                assert(s[s.len() - 1] == sep);
            }
        }
        assert(init.push(s.last()) =~= s);
    } else {
        assert(s =~= Seq::<char>::empty());
    }
}

/// A name without `_` is a single word: camelCase only puts its first char
/// in lowercase (`ActiveUser` becomes `activeUser`, `id` stays `id` where
/// `i` is its own lowercase mapping).
pub proof fn law_camel_case_single_word(s: Seq<char>)
    requires
        !s.contains('_'),
    ensures
        camel_case(s) == uncapitalized(s),
{
    lemma_split_without_separator(s, '_');
    assert(split_seq(s, '_').drop_first() =~= Seq::<Seq<char>>::empty());
    assert(uncapitalized(s) + Seq::<char>::empty() =~= uncapitalized(s));
}

/// Whether a word is made of at least two lowercase ASCII letters.
pub open spec fn plain_word(w: Seq<char>) -> bool {
    w.len() >= 2 && forall|i: int| 0 <= i < w.len() ==> 'a' <= #[trigger] w[i] && w[i] <= 'z'
}

/// The words joined with `_`.
pub open spec fn joined_words(ws: Seq<Seq<char>>) -> Seq<char>
    decreases ws.len(),
{
    if ws.len() == 0 {
        Seq::empty()
    } else if ws.len() == 1 {
        ws[0]
    } else {
        joined_words(ws.drop_last()) + seq!['_'] + ws.last()
    }
}

proof fn lemma_lower_letter(c: char)
    requires
        'a' <= c && c <= 'z',
    ensures
        !is_upper(c),
        is_lower(c),
        lower_of(c) == seq![c],
        upper_of(c).len() == 1,
        is_upper(upper_of(c)[0]),
        upper_of(c)[0] != '_',
        lower_of(upper_of(c)[0]) == seq![c],
{
    let u = ((c as u32) - 32) as char;
    assert(u as u32 == (c as u32) - 32);
    assert(((u as u32) + 32) as char == c);
}

proof fn lemma_split_append_word(x: Seq<char>, w: Seq<char>)
    requires
        forall|i: int| 0 <= i < w.len() ==> #[trigger] w[i] != '_',
    ensures
        split_seq(x + seq!['_'] + w, '_') == split_seq(x, '_').push(w),
    decreases w.len(),
{
    let y = x + seq!['_'] + w;
    if w.len() == 0 {
        assert(y =~= x.push('_'));
        assert(y.drop_last() =~= x);
        assert(y.last() == '_');
        assert(w =~= Seq::<char>::empty());
    } else {
        lemma_split_append_word(x, w.drop_last());
        assert(y.drop_last() =~= x + seq!['_'] + w.drop_last());
        assert(y.last() == w.last());
        assert(w.last() == w[w.len() - 1]);
        assert(y.last() != '_');
        let parts = split_seq(y.drop_last(), '_');
        assert(parts == split_seq(x, '_').push(w.drop_last()));
        assert(parts.last() == w.drop_last());
        assert(w.drop_last().push(w.last()) =~= w);
        assert(parts.update(parts.len() - 1, parts.last().push(y.last())) =~= split_seq(x, '_').push(
            w,
        ));
    }
}

proof fn lemma_split_joined(ws: Seq<Seq<char>>)
    requires
        ws.len() >= 1,
        forall|k: int| 0 <= k < ws.len() ==> plain_word(#[trigger] ws[k]),
    ensures
        split_seq(joined_words(ws), '_') == ws,
    decreases ws.len(),
{
    if ws.len() == 1 {
        let w = ws[0];
        assert(plain_word(w));
        assert(!w.contains('_')) by {
            if w.contains('_') {
                let i = choose|i: int| 0 <= i < w.len() && w[i] == '_';
                assert('a' <= w[i]);
            }
        }
        lemma_split_without_separator(w, '_');
        assert(ws =~= seq![w]);
    } else {
        lemma_split_joined(ws.drop_last());
        let w = ws.last();
        assert(plain_word(ws[ws.len() - 1]));
        assert forall|i: int| 0 <= i < w.len() implies #[trigger] w[i] != '_' by {
            assert('a' <= w[i]);
        }
        lemma_split_append_word(joined_words(ws.drop_last()), w);
        assert(ws.drop_last().push(w) =~= ws);
    }
}

proof fn lemma_snake_lower(x: Seq<char>, w: Seq<char>)
    requires
        w.len() >= 1,
        forall|i: int| 0 <= i < w.len() ==> 'a' <= #[trigger] w[i] && w[i] <= 'z',
    ensures
        snake_state(x + w) == (snake_state(x).0 + w, true),
    decreases w.len(),
{
    let y = x + w;
    assert(y.drop_last() =~= x + w.drop_last());
    assert(y.last() == w[w.len() - 1]);
    lemma_lower_letter(w[w.len() - 1]);
    if w.len() > 1 {
        lemma_snake_lower(x, w.drop_last());
        assert(snake_state(x).0 + w.drop_last() + seq![w.last()] =~= snake_state(x).0 + w);
        assert((snake_state(x).0 + w.drop_last()).push(w.last()) =~= snake_state(x).0 + w);
    } else {
        assert(y.drop_last() =~= x);
        assert(snake_state(x).0.push(w[0]) =~= snake_state(x).0 + w);
    }
}

proof fn lemma_snake_capitalized(x: Seq<char>, w: Seq<char>)
    requires
        plain_word(w),
        x.len() > 0 ==> snake_state(x).1,
    ensures
        snake_state(x + capitalized(w)) == (if x.len() > 0 {
            snake_state(x).0 + seq!['_'] + w
        } else {
            w
        }, true),
{
    let c = w[0];
    lemma_lower_letter(c);
    let u = upper_of(c)[0];
    let rest = w.drop_first();
    assert(capitalized(w) == seq![u] + rest);
    let xu = x.push(u);
    assert(xu.drop_last() =~= x);
    assert(xu.last() == u);
    if x.len() == 0 {
        assert(snake_state(x) == (Seq::<char>::empty(), false));
    }
    let sx = snake_state(x).0;
    let head = if x.len() > 0 { sx.push('_') } else { sx };
    assert(snake_state(xu) == (head.push(c), false));
    assert forall|i: int| 0 <= i < rest.len() implies 'a' <= #[trigger] rest[i] && rest[i] <= 'z' by {
        assert(rest[i] == w[i + 1]);
    }
    lemma_snake_lower(xu, rest);
    assert(x + capitalized(w) =~= xu + rest);
    assert(head.push(c) + rest =~= head + w);
    if x.len() == 0 {
        assert(sx =~= Seq::<char>::empty());
        assert(head + w =~= w);
    } else {
        assert(head =~= sx + seq!['_']);
    }
}

/// The words written in camelCase, as `camel_case` writes them.
spec fn camel_words(ws: Seq<Seq<char>>) -> Seq<char> {
    uncapitalized(ws[0]) + join_capitalized(ws.drop_first())
}

proof fn lemma_snake_of_camel_words(ws: Seq<Seq<char>>)
    requires
        ws.len() >= 1,
        forall|k: int| 0 <= k < ws.len() ==> plain_word(#[trigger] ws[k]),
    ensures
        snake_state(camel_words(ws)) == (joined_words(ws), true),
        snake_state(join_capitalized(ws)) == (joined_words(ws), true),
        camel_words(ws).len() > 0,
        join_capitalized(ws).len() > 0,
    decreases ws.len(),
{
    let w0 = ws[0];
    assert(plain_word(w0));
    lemma_lower_letter(w0[0]);
    assert(uncapitalized(w0) =~= w0);
    if ws.len() == 1 {
        assert(ws.drop_first() =~= Seq::<Seq<char>>::empty());
        assert(camel_words(ws) =~= w0);
        lemma_snake_lower(Seq::<char>::empty(), w0);
        assert(Seq::<char>::empty() + w0 =~= w0);
        assert(ws.drop_last() =~= Seq::<Seq<char>>::empty());
        assert(join_capitalized(ws) =~= Seq::<char>::empty() + capitalized(w0));
        lemma_snake_capitalized(Seq::<char>::empty(), w0);
    } else {
        let init = ws.drop_last();
        assert forall|k: int| 0 <= k < init.len() implies plain_word(#[trigger] init[k]) by {
            assert(init[k] == ws[k]);
        }
        lemma_snake_of_camel_words(init);
        let last = ws.last();
        assert(plain_word(ws[ws.len() - 1]));
        assert(ws.drop_first().drop_last() =~= init.drop_first());
        assert(ws.drop_first().last() == last);
        assert(init[0] == w0);
        assert(camel_words(ws) =~= camel_words(init) + capitalized(last));
        lemma_snake_capitalized(camel_words(init), last);
        lemma_snake_capitalized(join_capitalized(init), last);
    }
}

/// snake_case undoes camelCase and PascalCase on snake_case names: for a
/// name of lowercase ASCII words, each of at least two letters, joined
/// with `_` (`user_name`), the snake_case of its camelCase (`userName`) and
/// of its PascalCase (`UserName`) is the name itself.
pub proof fn law_snake_case_undoes_camel_and_pascal(ws: Seq<Seq<char>>)
    requires
        ws.len() >= 1,
        forall|k: int| 0 <= k < ws.len() ==> plain_word(#[trigger] ws[k]),
    ensures
        snake_case(camel_case(joined_words(ws))) == joined_words(ws),
        snake_case(pascal_case(joined_words(ws))) == joined_words(ws),
{
    lemma_split_joined(ws);
    lemma_snake_of_camel_words(ws);
}

/// SCREAMING_SNAKE_CASE is UPPERCASE applied to snake_case, and kebab-case
/// is snake_case with `-` for `_`: for every name, the rules relate so.
pub proof fn law_screaming_snake_and_kebab_follow_snake(n: Seq<char>)
    ensures
        rule_applied(RenameRule::ScreamingSnakeCase, n) == rule_applied(
            RenameRule::Uppercase,
            rule_applied(RenameRule::SnakeCase, n),
        ),
        rule_applied(RenameRule::KebabCase, n) == rule_applied(RenameRule::SnakeCase, n).map_values(
            |c: char| if c == '_' { '-' } else { c },
        ),
{
}

/// For a snake_case name of lowercase ASCII words of at least two letters,
/// the names its PascalCase (the form of an enum variant such as
/// `InProgress`) gets under the word-splitting rules: snake_case gives the
/// name back, SCREAMING_SNAKE_CASE its uppercase with the `_` kept, and
/// kebab-case the name with `-` for `_`.
pub proof fn law_rules_on_pascal_case_names(ws: Seq<Seq<char>>)
    requires
        ws.len() >= 1,
        forall|k: int| 0 <= k < ws.len() ==> plain_word(#[trigger] ws[k]),
    ensures
        rule_applied(RenameRule::SnakeCase, pascal_case(joined_words(ws))) == joined_words(ws),
        rule_applied(RenameRule::ScreamingSnakeCase, pascal_case(joined_words(ws))) == str_uppercase(
            joined_words(ws),
        ),
        rule_applied(RenameRule::KebabCase, pascal_case(joined_words(ws))) == joined_words(
            ws,
        ).map_values(|c: char| if c == '_' { '-' } else { c }),
{
    law_snake_case_undoes_camel_and_pascal(ws);
}

} // verus!
