//! Argonaut JSON codec generator for PureScript: `DecodeJson` and
//! `EncodeJson` instances for structs (as records in a newtype) and for
//! enums (as strings).

use vstd::prelude::*;
use vstd::string::*;
use crate::text::{chars_of, str_eq};
use crate::types::{
    EnumType, EnumTypeView, EnumVariantView, FieldView, RustType, RustTypeView, StructType,
    StructTypeView, TypeDefinition, TypeDefinitionView, TypeKind, TypeKindView,
};

verus! {

/// The texts one after the other.
pub open spec fn concat(items: Seq<Seq<char>>) -> Seq<char>
    decreases items.len(),
{
    if items.len() == 0 {
        Seq::empty()
    } else {
        concat(items.drop_last()) + items.last()
    }
}

/// The texts with `sep` between each two of them.
pub open spec fn joined(items: Seq<Seq<char>>, sep: Seq<char>) -> Seq<char>
    decreases items.len(),
{
    if items.len() == 0 {
        Seq::empty()
    } else if items.len() == 1 {
        items[0]
    } else {
        joined(items.drop_last(), sep) + sep + items.last()
    }
}

/// How a field is read from the decoded object: `.:?` for an `Option`
/// field, so that a missing key and `null` both give `Nothing`, and `.:`
/// for any other field.
pub open spec fn field_decoder_text(json_name: Seq<char>, t: RustTypeView) -> Seq<char> {
    if t is Option {
        "obj .:? \""@ + json_name + "\""@
    } else {
        "obj .: \""@ + json_name + "\""@
    }
}

/// Whether a char may stand in a PureScript identifier after its first char.
pub open spec fn is_ident_char(c: char) -> bool {
    ('a' <= c && c <= 'z') || ('A' <= c && c <= 'Z') || ('0' <= c && c <= '9') || c == '_' || c
        == '\''
}

/// Whether a name is a keyword of PureScript, which cannot name a value.
pub open spec fn is_keyword(s: Seq<char>) -> bool {
    s == "ado"@ || s == "case"@ || s == "class"@ || s == "data"@ || s == "derive"@ || s == "do"@
        || s == "else"@ || s == "false"@ || s == "forall"@ || s == "foreign"@ || s == "if"@ || s
        == "import"@ || s == "in"@ || s == "infix"@ || s == "infixl"@ || s == "infixr"@ || s
        == "instance"@ || s == "let"@ || s == "module"@ || s == "newtype"@ || s == "of"@ || s
        == "then"@ || s == "true"@ || s == "type"@ || s == "where"@
}

/// Whether a JSON name is itself a PureScript identifier that can name a
/// value and a record label: it starts with a lowercase ASCII letter or
/// `_`, the rest are ASCII letters, digits, `_` or `'`, and it is not a
/// keyword.
pub open spec fn plain_label(s: Seq<char>) -> bool {
    &&& s.len() > 0
    &&& (('a' <= s[0] && s[0] <= 'z') || s[0] == '_')
    &&& forall|i: int| 0 <= i < s.len() ==> is_ident_char(#[trigger] s[i])
    &&& !is_keyword(s)
}

/// The name that the decoder binds a field's value to: the JSON name where
/// it is a plain label, else `_` and the JSON name with every char that
/// cannot stand in an identifier replaced by `_` (`user-name` is bound to
/// `_user_name`).
pub open spec fn binder_name(json_name: Seq<char>) -> Seq<char> {
    if plain_label(json_name) {
        json_name
    } else {
        "_"@ + json_name.map_values(|c: char| if is_ident_char(c) { c } else { '_' })
    }
}

/// The record label of a field: the JSON name, in quotes where it is not a
/// plain label.
pub open spec fn record_label(json_name: Seq<char>) -> Seq<char> {
    if plain_label(json_name) {
        json_name
    } else {
        "\""@ + json_name + "\""@
    }
}

/// The entry of one field in the decoded record: a pun for a plain label,
/// else the quoted label and the bound name.
pub open spec fn record_field(json_name: Seq<char>) -> Seq<char> {
    if plain_label(json_name) {
        json_name
    } else {
        record_label(json_name) + ": "@ + binder_name(json_name)
    }
}

/// The `do` line that binds one field.
pub open spec fn decoder_line(f: FieldView) -> Seq<char> {
    "    "@ + binder_name(f.json_name) + " <- "@ + field_decoder_text(f.json_name, f.field_type)
        + "\n"@
}

/// The entry of one field in the encoded record.
pub open spec fn encoder_entry(f: FieldView) -> Seq<char> {
    "\""@ + f.json_name + "\": record."@ + record_label(f.json_name)
}

/// The separator between record entries.
pub open spec fn record_separator() -> Seq<char> {
    "\n      , "@
}

/// The header line of an instance.
pub open spec fn instance_header(kind: Seq<char>, class: Seq<char>, name: Seq<char>) -> Seq<
    char,
> {
    "instance "@ + kind + name + " :: "@ + class + name + " where\n"@
}

/// The `DecodeJson` instance of a struct.
pub open spec fn struct_decoder_text(name: Seq<char>, st: StructTypeView) -> Seq<char> {
    instance_header("decode"@, "DecodeJson "@, name) + "  decodeJson json = do\n"@
        + "    obj <- decodeJson json\n"@ + concat(st.fields.map_values(|f: FieldView| decoder_line(f)))
        + "    pure $ "@ + name + " \n"@ + "      { "@ + joined(
        st.fields.map_values(|f: FieldView| record_field(f.json_name)),
        record_separator(),
    ) + "\n      }\n"@
}

/// The `EncodeJson` instance of a struct.
pub open spec fn struct_encoder_text(name: Seq<char>, st: StructTypeView) -> Seq<char> {
    instance_header("encode"@, "EncodeJson "@, name) + "  encodeJson ("@ + name + " record) =\n"@
        + "    encodeJson\n"@ + "      { "@ + joined(
        st.fields.map_values(|f: FieldView| encoder_entry(f)),
        record_separator(),
    ) + "\n      }\n"@
}

/// The `case` line that decodes one variant.
pub open spec fn enum_decoder_line(v: EnumVariantView) -> Seq<char> {
    "      \""@ + v.json_name + "\" -> Right "@ + v.rust_name + "\n"@
}

/// The `case` line that encodes one variant.
pub open spec fn enum_encoder_line(v: EnumVariantView) -> Seq<char> {
    "        "@ + v.rust_name + " -> \""@ + v.json_name + "\"\n"@
}

/// The `DecodeJson` instance of an enum, with a `TypeMismatch` for any
/// other string.
pub open spec fn enum_decoder_text(name: Seq<char>, et: EnumTypeView) -> Seq<char> {
    instance_header("decode"@, "DecodeJson "@, name) + "  decodeJson json = do\n"@
        + "    str <- decodeJson json\n"@ + "    case str of\n"@ + concat(
        et.variants.map_values(|v: EnumVariantView| enum_decoder_line(v)),
    ) + "      _ -> Left $ TypeMismatch \"Invalid "@ + name + "\"\n"@
}

/// The `EncodeJson` instance of an enum.
pub open spec fn enum_encoder_text(name: Seq<char>, et: EnumTypeView) -> Seq<char> {
    instance_header("encode"@, "EncodeJson "@, name) + "  encodeJson value =\n"@ + "    let\n"@
        + "      str = case value of\n"@ + concat(
        et.variants.map_values(|v: EnumVariantView| enum_encoder_line(v)),
    ) + "    in\n"@ + "      encodeJson str\n"@
}

/// Both instances of a type definition, decoder first.
pub open spec fn codecs_text(d: TypeDefinitionView) -> Seq<char> {
    match d.kind {
        TypeKindView::Struct(st) => struct_decoder_text(d.name, st) + "\n"@ + struct_encoder_text(
            d.name,
            st,
        ),
        TypeKindView::Enum(et) => enum_decoder_text(d.name, et) + "\n"@ + enum_encoder_text(
            d.name,
            et,
        ),
    }
}

proof fn lemma_concat_step(items: Seq<Seq<char>>, i: int)
    requires
        0 <= i < items.len(),
    ensures
        concat(items.take(i + 1)) == concat(items.take(i)) + items[i],
{
    assert(items.take(i + 1).drop_last() =~= items.take(i));
}

proof fn lemma_joined_step(items: Seq<Seq<char>>, sep: Seq<char>, i: int)
    requires
        0 <= i < items.len(),
    ensures
        joined(items.take(i + 1), sep) == if i == 0 {
            items[0]
        } else {
            joined(items.take(i), sep) + sep + items[i]
        },
{
    assert(items.take(i + 1).drop_last() =~= items.take(i));
}

fn ident_char(c: char) -> (r: bool)
    ensures
        r == is_ident_char(c),
{
    ('a' <= c && c <= 'z') || ('A' <= c && c <= 'Z') || ('0' <= c && c <= '9') || c == '_' || c
        == '\''
}

fn keyword(s: &str) -> (r: bool)
    ensures
        r == is_keyword(s@),
{
    str_eq(s, "ado") || str_eq(s, "case") || str_eq(s, "class") || str_eq(s, "data") || str_eq(
        s,
        "derive",
    ) || str_eq(s, "do") || str_eq(s, "else") || str_eq(s, "false") || str_eq(s, "forall")
        || str_eq(s, "foreign") || str_eq(s, "if") || str_eq(s, "import") || str_eq(s, "in")
        || str_eq(s, "infix") || str_eq(s, "infixl") || str_eq(s, "infixr") || str_eq(s, "instance")
        || str_eq(s, "let") || str_eq(s, "module") || str_eq(s, "newtype") || str_eq(s, "of")
        || str_eq(s, "then") || str_eq(s, "true") || str_eq(s, "type") || str_eq(s, "where")
}

/// Whether a JSON name is a plain label (see `plain_label`).
pub fn is_plain_label(s: &str) -> (r: bool)
    ensures
        r == plain_label(s@),
{
    if keyword(s) {
        return false;
    }
    let cs = chars_of(s);
    if cs.len() == 0 {
        return false;
    }
    let c0 = cs[0];
    if !(('a' <= c0 && c0 <= 'z') || c0 == '_') {
        return false;
    }
    let mut i: usize = 0;
    while i < cs.len()
        invariant
            i <= cs.len(),
            cs@ == s@,
            forall|k: int| 0 <= k < i ==> is_ident_char(#[trigger] s@[k]),
        decreases cs.len() - i,
    {
        if !ident_char(cs[i]) {
            return false;
        }
        i += 1;
    }
    true
}

/// Appends `binder_name(json_name)`.
fn push_binder(out: &mut String, json_name: &str)
    ensures
        final(out)@ == old(out)@ + binder_name(json_name@),
{
    if is_plain_label(json_name) {
        out.append(json_name);
    } else {
        out.append("_");
        let cs = chars_of(json_name);
        let ghost start = out@;
        let ghost mapped = json_name@.map_values(|c: char| if is_ident_char(c) { c } else { '_' });
        let mut i: usize = 0;
        while i < cs.len()
            invariant
                i <= cs.len(),
                cs@ == json_name@,
                mapped == json_name@.map_values(|c: char| if is_ident_char(c) { c } else { '_' }),
                out@ == start + mapped.take(i as int),
            decreases cs.len() - i,
        {
            if ident_char(cs[i]) {
                out.push(cs[i]);
            } else {
                out.push('_');
            }
            i += 1;
            assert(out@ =~= start + mapped.take(i as int));
        }
        assert(mapped.take(cs.len() as int) =~= mapped);
    }
}

/// Appends `record_label(json_name)`.
fn push_record_label(out: &mut String, json_name: &str)
    ensures
        final(out)@ == old(out)@ + record_label(json_name@),
{
    if is_plain_label(json_name) {
        out.append(json_name);
    } else {
        out.append("\"");
        out.append(json_name);
        out.append("\"");
        assert(out@ =~= old(out)@ + record_label(json_name@));
    }
}

/// Appends `record_field(json_name)`.
fn push_record_field(out: &mut String, json_name: &str)
    ensures
        final(out)@ == old(out)@ + record_field(json_name@),
{
    if is_plain_label(json_name) {
        out.append(json_name);
    } else {
        push_record_label(out, json_name);
        out.append(": ");
        push_binder(out, json_name);
        assert(out@ =~= old(out)@ + record_field(json_name@));
    }
}

fn push_instance_header(out: &mut String, kind: &str, class: &str, name: &str)
    ensures
        final(out)@ == old(out)@ + instance_header(kind@, class@, name@),
{
    out.append("instance ");
    out.append(kind);
    out.append(name);
    out.append(" :: ");
    out.append(class);
    out.append(name);
    out.append(" where\n");
    assert(out@ =~= old(out)@ + instance_header(kind@, class@, name@));
}

/// Generate Argonaut DecodeJson and EncodeJson instances for a type
pub fn generate_codecs(type_def: &TypeDefinition) -> (output: String)
    ensures
        output@ == codecs_text(type_def@),
{
    let mut output = String::new();
    match &type_def.kind {
        TypeKind::Struct(struct_type) => {
            let dec = generate_struct_decoder(type_def.name.as_str(), struct_type);
            let enc = generate_struct_encoder(type_def.name.as_str(), struct_type);
            output.append(dec.as_str());
            output.append("\n");
            output.append(enc.as_str());
        },
        TypeKind::Enum(enum_type) => {
            let dec = generate_enum_decoder(type_def.name.as_str(), enum_type);
            let enc = generate_enum_encoder(type_def.name.as_str(), enum_type);
            output.append(dec.as_str());
            output.append("\n");
            output.append(enc.as_str());
        },
    }
    assert(output@ =~= codecs_text(type_def@));
    output
}

/// Generate DecodeJson instance for a struct
pub fn generate_struct_decoder(name: &str, struct_type: &StructType) -> (output: String)
    ensures
        output@ == struct_decoder_text(name@, struct_type@),
{
    let mut output = String::new();
    push_instance_header(&mut output, "decode", "DecodeJson ", name);
    output.append("  decodeJson json = do\n");
    output.append("    obj <- decodeJson json\n");
    let ghost head = output@;
    let ghost lines = struct_type@.fields.map_values(|f: FieldView| decoder_line(f));
    let fields = &struct_type.fields;
    let mut i: usize = 0;
    assert(lines.take(0) =~= Seq::<Seq<char>>::empty());
    while i < fields.len()
        invariant
            i <= fields.len(),
            fields@ == struct_type.fields@,
            lines == struct_type@.fields.map_values(|f: FieldView| decoder_line(f)),
            lines.len() == fields.len(),
            output@ == head + concat(lines.take(i as int)),
        decreases fields.len() - i,
    {
        let field = &fields[i];
        let decode_expr = generate_field_decoder(field.json_name.as_str(), &field.field_type);
        let ghost before = output@;
        output.append("    ");
        push_binder(&mut output, field.json_name.as_str());
        output.append(" <- ");
        output.append(decode_expr.as_str());
        output.append("\n");
        proof {
            lemma_concat_step(lines, i as int);
            assert(lines[i as int] == decoder_line(field@));
        }
        assert(output@ =~= before + lines[i as int]);
        i += 1;
    }
    assert(lines.take(fields.len() as int) =~= lines);
    let ghost mid = output@;
    output.append("    pure $ ");
    output.append(name);
    output.append(" \n");
    output.append("      { ");
    let ghost names_start = output@;
    let ghost names = struct_type@.fields.map_values(|f: FieldView| record_field(f.json_name));
    let mut i: usize = 0;
    while i < fields.len()
        invariant
            i <= fields.len(),
            fields@ == struct_type.fields@,
            names == struct_type@.fields.map_values(|f: FieldView| record_field(f.json_name)),
            names.len() == fields.len(),
            output@ == names_start + joined(names.take(i as int), record_separator()),
        decreases fields.len() - i,
    {
        let ghost before = output@;
        if i > 0 {
            output.append("\n      , ");
        }
        push_record_field(&mut output, fields[i].json_name.as_str());
        proof {
            lemma_joined_step(names, record_separator(), i as int);
            assert(names[i as int] == record_field(fields@[i as int].json_name@));
        }
        assert(output@ =~= names_start + joined(names.take(i + 1), record_separator()));
        i += 1;
    }
    assert(names.take(fields.len() as int) =~= names);
    output.append("\n      }\n");
    assert(output@ =~= struct_decoder_text(name@, struct_type@));
    output
}

/// Generate field decoder expression based on type: `.:?` for `Option`
/// fields and `.:` for the others.
pub fn generate_field_decoder(field_name: &str, rust_type: &RustType) -> (r: String)
    ensures
        r@ == field_decoder_text(field_name@, rust_type@),
{
    let mut r = String::new();
    match rust_type {
        RustType::Option(_) => {
            r.append("obj .:? \"");
            r.append(field_name);
            r.append("\"");
        },
        _ => {
            r.append("obj .: \"");
            r.append(field_name);
            r.append("\"");
        },
    }
    assert(r@ =~= field_decoder_text(field_name@, rust_type@));
    r
}

/// Generate EncodeJson instance for a struct
pub fn generate_struct_encoder(name: &str, struct_type: &StructType) -> (output: String)
    ensures
        output@ == struct_encoder_text(name@, struct_type@),
{
    let mut output = String::new();
    push_instance_header(&mut output, "encode", "EncodeJson ", name);
    output.append("  encodeJson (");
    output.append(name);
    output.append(" record) =\n");
    output.append("    encodeJson\n");
    output.append("      { ");
    let ghost start = output@;
    let ghost entries = struct_type@.fields.map_values(|f: FieldView| encoder_entry(f));
    let fields = &struct_type.fields;
    let mut i: usize = 0;
    while i < fields.len()
        invariant
            i <= fields.len(),
            fields@ == struct_type.fields@,
            entries == struct_type@.fields.map_values(|f: FieldView| encoder_entry(f)),
            entries.len() == fields.len(),
            output@ == start + joined(entries.take(i as int), record_separator()),
        decreases fields.len() - i,
    {
        let ghost before = output@;
        if i > 0 {
            output.append("\n      , ");
        }
        output.append("\"");
        output.append(fields[i].json_name.as_str());
        output.append("\": record.");
        push_record_label(&mut output, fields[i].json_name.as_str());
        proof {
            lemma_joined_step(entries, record_separator(), i as int);
            assert(entries[i as int] == encoder_entry(fields@[i as int]@));
        }
        assert(output@ =~= start + joined(entries.take(i + 1), record_separator()));
        i += 1;
    }
    assert(entries.take(fields.len() as int) =~= entries);
    output.append("\n      }\n");
    assert(output@ =~= struct_encoder_text(name@, struct_type@));
    output
}

/// Generate DecodeJson instance for an enum
pub fn generate_enum_decoder(name: &str, enum_type: &EnumType) -> (output: String)
    ensures
        output@ == enum_decoder_text(name@, enum_type@),
{
    let mut output = String::new();
    push_instance_header(&mut output, "decode", "DecodeJson ", name);
    output.append("  decodeJson json = do\n");
    output.append("    str <- decodeJson json\n");
    output.append("    case str of\n");
    let ghost head = output@;
    let ghost lines = enum_type@.variants.map_values(|v: EnumVariantView| enum_decoder_line(v));
    let variants = &enum_type.variants;
    let mut i: usize = 0;
    assert(lines.take(0) =~= Seq::<Seq<char>>::empty());
    while i < variants.len()
        invariant
            i <= variants.len(),
            variants@ == enum_type.variants@,
            lines == enum_type@.variants.map_values(|v: EnumVariantView| enum_decoder_line(v)),
            lines.len() == variants.len(),
            output@ == head + concat(lines.take(i as int)),
        decreases variants.len() - i,
    {
        let ghost before = output@;
        output.append("      \"");
        output.append(variants[i].json_name.as_str());
        output.append("\" -> Right ");
        output.append(variants[i].rust_name.as_str());
        output.append("\n");
        proof {
            lemma_concat_step(lines, i as int);
            assert(lines[i as int] == enum_decoder_line(variants@[i as int]@));
        }
        assert(output@ =~= before + lines[i as int]);
        i += 1;
    }
    assert(lines.take(variants.len() as int) =~= lines);
    output.append("      _ -> Left $ TypeMismatch \"Invalid ");
    output.append(name);
    output.append("\"\n");
    assert(output@ =~= enum_decoder_text(name@, enum_type@));
    output
}

/// Generate EncodeJson instance for an enum
pub fn generate_enum_encoder(name: &str, enum_type: &EnumType) -> (output: String)
    ensures
        output@ == enum_encoder_text(name@, enum_type@),
{
    let mut output = String::new();
    push_instance_header(&mut output, "encode", "EncodeJson ", name);
    output.append("  encodeJson value =\n");
    output.append("    let\n");
    output.append("      str = case value of\n");
    let ghost head = output@;
    let ghost lines = enum_type@.variants.map_values(|v: EnumVariantView| enum_encoder_line(v));
    let variants = &enum_type.variants;
    let mut i: usize = 0;
    assert(lines.take(0) =~= Seq::<Seq<char>>::empty());
    while i < variants.len()
        invariant
            i <= variants.len(),
            variants@ == enum_type.variants@,
            lines == enum_type@.variants.map_values(|v: EnumVariantView| enum_encoder_line(v)),
            lines.len() == variants.len(),
            output@ == head + concat(lines.take(i as int)),
        decreases variants.len() - i,
    {
        let ghost before = output@;
        output.append("        ");
        output.append(variants[i].rust_name.as_str());
        output.append(" -> \"");
        output.append(variants[i].json_name.as_str());
        output.append("\"\n");
        proof {
            lemma_concat_step(lines, i as int);
            assert(lines[i as int] == enum_encoder_line(variants@[i as int]@));
        }
        assert(output@ =~= before + lines[i as int]);
        i += 1;
    }
    assert(lines.take(variants.len() as int) =~= lines);
    output.append("    in\n");
    output.append("      encodeJson str\n");
    assert(output@ =~= enum_encoder_text(name@, enum_type@));
    output
}

/// Optional field handling: an `Option` field is read with `.:?`, which
/// takes a missing key and `null` as `Nothing`; any other field is read
/// with `.:`, which requires the key.
pub proof fn law_optional_fields_read_optionally(json_name: Seq<char>, t: RustTypeView)
    ensures
        t is Option ==> field_decoder_text(json_name, t) == "obj .:? \""@ + json_name + "\""@,
        !(t is Option) ==> field_decoder_text(json_name, t) == "obj .: \""@ + json_name + "\""@,
{
}

/// The variant that the decoder's `case` gives for the string `s`: its arms
/// hold each variant's JSON name in order, and `case` takes the first arm
/// that matches, so this is the Rust name of the first variant whose JSON
/// name is `s`; `None` is the last arm, `TypeMismatch`.
pub open spec fn decoded_variant(vs: Seq<EnumVariantView>, s: Seq<char>) -> Option<Seq<char>>
    decreases vs.len(),
{
    if vs.len() == 0 {
        None
    } else if vs[0].json_name == s {
        Some(vs[0].rust_name)
    } else {
        decoded_variant(vs.drop_first(), s)
    }
}

/// The string that the encoder's `case` gives for the variant named `r`:
/// the JSON name of the first variant whose Rust name is `r`.
pub open spec fn encoded_variant(vs: Seq<EnumVariantView>, r: Seq<char>) -> Option<Seq<char>>
    decreases vs.len(),
{
    if vs.len() == 0 {
        None
    } else if vs[0].rust_name == r {
        Some(vs[0].json_name)
    } else {
        encoded_variant(vs.drop_first(), r)
    }
}

/// Decoding what the encoder writes gives the variant back: where the
/// variants have distinct Rust names and distinct JSON names, the encoder
/// writes each variant's JSON name and the decoder reads it as that
/// variant; a string that is no variant's JSON name reaches the
/// `TypeMismatch` arm. (The arms are those of `enum_encoder_text` and
/// `enum_decoder_text`, one per variant, in order.)
pub proof fn law_enum_decode_after_encode(vs: Seq<EnumVariantView>, s: Seq<char>)
    requires
        forall|i: int, j: int|
            0 <= i < j < vs.len() ==> (#[trigger] vs[i]).rust_name != (#[trigger] vs[j]).rust_name
                && vs[i].json_name != vs[j].json_name,
    ensures
        forall|k: int|
            0 <= k < vs.len() ==> encoded_variant(vs, (#[trigger] vs[k]).rust_name) == Some(
                vs[k].json_name,
            ) && decoded_variant(vs, vs[k].json_name) == Some(vs[k].rust_name),
        (forall|k: int| 0 <= k < vs.len() ==> (#[trigger] vs[k]).json_name != s) ==> decoded_variant(
            vs,
            s,
        ) is None,
    decreases vs.len(),
{
    if vs.len() > 0 {
        let rest = vs.drop_first();
        assert forall|i: int, j: int| 0 <= i < j < rest.len() implies (#[trigger] rest[i]).rust_name
            != (#[trigger] rest[j]).rust_name && rest[i].json_name != rest[j].json_name by {
            assert(rest[i] == vs[i + 1] && rest[j] == vs[j + 1]);
        }
        law_enum_decode_after_encode(rest, s);
        assert forall|k: int| 0 <= k < vs.len() implies encoded_variant(vs, (#[trigger] vs[k]).rust_name)
            == Some(vs[k].json_name) && decoded_variant(vs, vs[k].json_name) == Some(vs[k].rust_name) by {
            if k > 0 {
                assert(rest[k - 1] == vs[k]);
                assert(vs[0].rust_name != vs[k].rust_name && vs[0].json_name != vs[k].json_name);
            }
        }
        if forall|k: int| 0 <= k < vs.len() ==> (#[trigger] vs[k]).json_name != s {
            assert forall|k: int| 0 <= k < rest.len() implies (#[trigger] rest[k]).json_name != s by {
                assert(rest[k] == vs[k + 1]);
            }
            assert(vs[0].json_name != s);
        }
    }
}

proof fn lemma_concat_append(a: Seq<Seq<char>>, b: Seq<Seq<char>>)
    ensures
        concat(a + b) == concat(a) + concat(b),
    decreases b.len(),
{
    if b.len() == 0 {
        assert(a + b =~= a);
        assert(concat(a) + Seq::<char>::empty() =~= concat(a));
    } else {
        lemma_concat_append(a, b.drop_last());
        assert((a + b).drop_last() =~= a + b.drop_last());
        assert((a + b).last() == b.last());
        assert(concat(a) + concat(b.drop_last()) + b.last() =~= concat(a) + (concat(
            b.drop_last(),
        ) + b.last()));
    }
}

/// The line that reads a field in a struct's decoder: the field's value is
/// bound with `.:?` when its type is an `Option`, so that a missing key or
/// `null` gives `Nothing`, and with `.:` for every other type, `Vec`
/// included, so that the key is required.
pub open spec fn field_read_line(f: FieldView) -> Seq<char> {
    "    "@ + binder_name(f.json_name) + (if f.field_type is Option {
        " <- obj .:? \""@
    } else {
        " <- obj .: \""@
    }) + f.json_name + "\"\n"@
}

/// Every field of a struct is read in its decoder by its own line: the
/// decoder text holds, for each field, the line that binds it with `.:?`
/// exactly when its type is an `Option` and with `.:` otherwise.
pub proof fn law_struct_decoder_reads_each_field(name: Seq<char>, st: StructTypeView, k: int)
    requires
        0 <= k < st.fields.len(),
    ensures
        exists|pre: Seq<char>, post: Seq<char>|
            struct_decoder_text(name, st) == pre + field_read_line(st.fields[k]) + post,
{
    let lines = st.fields.map_values(|f: FieldView| decoder_line(f));
    let f = st.fields[k];
    reveal_strlit(" <- ");
    reveal_strlit("obj .:? \"");
    reveal_strlit("obj .: \"");
    reveal_strlit(" <- obj .:? \"");
    reveal_strlit(" <- obj .: \"");
    reveal_strlit("\"");
    reveal_strlit("\"\n");
    reveal_strlit("\n");
    assert(lines[k] == decoder_line(f));
    assert(" <- "@ + "obj .:? \""@ =~= " <- obj .:? \""@);
    assert(" <- "@ + "obj .: \""@ =~= " <- obj .: \""@);
    assert("\""@ + "\n"@ =~= "\"\n"@);
    assert(lines[k] =~= field_read_line(f));
    assert(lines =~= lines.take(k) + (seq![lines[k]] + lines.skip(k + 1)));
    lemma_concat_append(lines.take(k), seq![lines[k]] + lines.skip(k + 1));
    lemma_concat_append(seq![lines[k]], lines.skip(k + 1));
    assert(seq![lines[k]].drop_last() =~= Seq::<Seq<char>>::empty());
    assert(concat(Seq::<Seq<char>>::empty()) =~= Seq::<char>::empty());
    assert(concat(seq![lines[k]]) =~= lines[k]);
    let head = instance_header("decode"@, "DecodeJson "@, name) + "  decodeJson json = do\n"@
        + "    obj <- decodeJson json\n"@;
    let tail = "    pure $ "@ + name + " \n"@ + "      { "@ + joined(
        st.fields.map_values(|g: FieldView| record_field(g.json_name)),
        record_separator(),
    ) + "\n      }\n"@;
    let pre = head + concat(lines.take(k));
    let post = concat(lines.skip(k + 1)) + tail;
    assert(struct_decoder_text(name, st) =~= pre + field_read_line(f) + post);
}

/// The entry that writes a field in a struct's encoder: the field's JSON
/// name in quotes, and the record field it is read from.
pub open spec fn field_write_entry(f: FieldView) -> Seq<char> {
    "\""@ + f.json_name + "\": record."@ + record_label(f.json_name)
}

/// Every field of a struct is written by its encoder: the encoder text
/// holds, for each field, its JSON name and the record field it takes.
pub proof fn law_struct_encoder_writes_each_field(name: Seq<char>, st: StructTypeView, k: int)
    requires
        0 <= k < st.fields.len(),
    ensures
        exists|pre: Seq<char>, post: Seq<char>|
            struct_encoder_text(name, st) == pre + field_write_entry(st.fields[k]) + post,
{
    let entries = st.fields.map_values(|f: FieldView| encoder_entry(f));
    let sep = record_separator();
    assert(entries[k] == field_write_entry(st.fields[k]));
    lemma_joined_contains(entries, sep, k);
    let (p, q) = choose|p: Seq<char>, q: Seq<char>| joined(entries, sep) == p + entries[k] + q;
    let head = instance_header("encode"@, "EncodeJson "@, name) + "  encodeJson ("@ + name
        + " record) =\n"@ + "    encodeJson\n"@ + "      { "@;
    assert(struct_encoder_text(name, st) =~= (head + p) + entries[k] + (q + "\n      }\n"@));
}

proof fn lemma_joined_contains(items: Seq<Seq<char>>, sep: Seq<char>, k: int)
    requires
        0 <= k < items.len(),
    ensures
        exists|p: Seq<char>, q: Seq<char>| joined(items, sep) == p + items[k] + q,
    decreases items.len(),
{
    if items.len() == 1 {
        assert(joined(items, sep) =~= Seq::<char>::empty() + items[k] + Seq::<char>::empty());
    } else if k == items.len() - 1 {
        let p = joined(items.drop_last(), sep) + sep;
        assert(joined(items, sep) =~= p + items[k] + Seq::<char>::empty());
    } else {
        lemma_joined_contains(items.drop_last(), sep, k);
        let (p, q) = choose|p: Seq<char>, q: Seq<char>|
            joined(items.drop_last(), sep) == p + items.drop_last()[k] + q;
        assert(joined(items, sep) =~= p + items[k] + (q + sep + items.last()));
    }
}

} // verus!
