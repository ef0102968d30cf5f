//! A (shallow) JSON Schema (Draft 2020-12) generated from a manifest, shaped
//! like what the serde encoding of the type emits: named structs become
//! objects, tuple structs arrays, newtype structs their inner value, unit
//! structs `null`, fieldless enums string enums, and data-carrying enums an
//! externally tagged `oneOf`.
//!
//! Only primitive scalar field types are mapped precisely (integers carry
//! their range, `char` its length); `Option<T>` is nullable and not required.
//! Any other spelled type falls back to the permissive empty schema `{}`,
//! since a manifest names a field's type but holds no structure to recurse into.
use vstd::prelude::*;
use vstd::string::*;
use crate::manifest::{FieldSpec, Manifest, VariantKind, VariantSpec};
use crate::model::{
    analysis_outcome, declared_count_fits, field_check, models_declaration, models_field,
    publishes, publishes_field, DeriveInput, ItemData, LayoutFacts, Member, StructModel,
};
use crate::text::{
    chars_of, lemma_decimal_parses_as_index, lemma_trimmed_len, matches_at, parses_as_index, parses_to_index, starts_with,
    trim_chars, trimmed,
};

verus! {

/// A JSON document.
#[derive(Debug, PartialEq, Eq)]
pub enum Json {
    Null,
    Bool(bool),
    /// A signed integer.
    Int(i64),
    /// An unsigned integer.
    Nat(u64),
    Str(String),
    Array(Vec<Json>),
    /// An object, its members in insertion order.
    Object(Vec<(String, Json)>),
}

/// A JSON document as a mathematical value.
pub enum JsonModel {
    Null,
    Bool(bool),
    Num(int),
    Str(Seq<char>),
    Array(Seq<JsonModel>),
    Object(Seq<(Seq<char>, JsonModel)>),
}

pub open spec fn model_of(j: Json) -> JsonModel
    decreases j,
{
    match j {
        Json::Null => JsonModel::Null,
        Json::Bool(b) => JsonModel::Bool(b),
        Json::Int(i) => JsonModel::Num(i as int),
        Json::Nat(n) => JsonModel::Num(n as int),
        Json::Str(s) => JsonModel::Str(s@),
        Json::Array(items) => JsonModel::Array(items_model(items@)),
        Json::Object(entries) => JsonModel::Object(entries_model(entries@)),
    }
}

pub open spec fn items_model(items: Seq<Json>) -> Seq<JsonModel>
    decreases items,
{
    if items.len() == 0 {
        Seq::empty()
    } else {
        items_model(items.drop_last()).push(model_of(items.last()))
    }
}

pub open spec fn entries_model(entries: Seq<(String, Json)>) -> Seq<(Seq<char>, JsonModel)>
    decreases entries,
{
    if entries.len() == 0 {
        Seq::empty()
    } else {
        entries_model(entries.drop_last()).push(
            (entries.last().0@, model_of(entries.last().1)),
        )
    }
}

/// The position of `key` among `entries`, if present.
pub open spec fn key_index(entries: Seq<(Seq<char>, JsonModel)>, key: Seq<char>) -> int
    decreases entries.len(),
{
    if entries.len() == 0 {
        -1
    } else if key_index(entries.drop_last(), key) >= 0 {
        key_index(entries.drop_last(), key)
    } else if entries.last().0 == key {
        entries.len() - 1
    } else {
        -1
    }
}

/// `entries` with `key` set to `value`: replaced in place when present,
/// appended otherwise (a JSON object's `insert`).
pub open spec fn obj_insert(
    entries: Seq<(Seq<char>, JsonModel)>,
    key: Seq<char>,
    value: JsonModel,
) -> Seq<(Seq<char>, JsonModel)> {
    let i = key_index(entries, key);
    if i >= 0 {
        entries.update(i, (key, value))
    } else {
        entries.push((key, value))
    }
}

pub open spec fn str_of(lit: &str) -> JsonModel {
    JsonModel::Str(lit@)
}

/// `{ "type": <name> }`.
pub open spec fn typed(name: &str) -> JsonModel {
    JsonModel::Object(seq![("type"@, str_of(name))])
}

/// `{ "type": "integer", "minimum": lo, "maximum": hi }`.
pub open spec fn int_range(lo: int, hi: int) -> JsonModel {
    JsonModel::Object(
        seq![("type"@, str_of("integer")), ("minimum"@, JsonModel::Num(lo)), ("maximum"@, JsonModel::Num(hi))],
    )
}

/// `{ "type": "integer", "minimum": lo }`.
pub open spec fn int_from(lo: int) -> JsonModel {
    JsonModel::Object(seq![("type"@, str_of("integer")), ("minimum"@, JsonModel::Num(lo))])
}

/// A spelled `Option<..>` type: the text between `Option<` and the final `>`.
pub open spec fn is_option_text(s: Seq<char>) -> bool {
    starts_with(s, "Option<"@) && s.len() > "Option<"@.len() && s.last() == '>'
}

pub open spec fn option_inner(s: Seq<char>) -> Seq<char> {
    s.subrange("Option<"@.len() as int, s.len() - 1)
}

/// The JSON Schema of one spelled Rust type (trimmed first).
pub open spec fn type_schema(t: Seq<char>) -> JsonModel
    decreases t.len(),
{
    let s = trimmed(t);
    if is_option_text(s) {
        proof {
            lemma_trimmed_len(t);
        }
        JsonModel::Object(
            seq![("anyOf"@, JsonModel::Array(seq![type_schema(option_inner(s)), typed("null")]))],
        )
    } else if s == "u8"@ {
        int_range(0, 255)
    } else if s == "u16"@ {
        int_range(0, 65535)
    } else if s == "u32"@ {
        int_range(0, 4294967295)
    } else if s == "u64"@ || s == "u128"@ || s == "usize"@ {
        int_from(0)
    } else if s == "i8"@ {
        int_range(-128, 127)
    } else if s == "i16"@ {
        int_range(-32768, 32767)
    } else if s == "i32"@ || s == "i64"@ || s == "i128"@ || s == "isize"@ {
        typed("integer")
    } else if s == "f32"@ || s == "f64"@ {
        typed("number")
    } else if s == "bool"@ {
        typed("boolean")
    } else if s == "String"@ || s == "&str"@ || s == "str"@ {
        typed("string")
    } else if s == "char"@ {
        JsonModel::Object(
            seq![("type"@, str_of("string")), ("minLength"@, JsonModel::Num(1)), ("maxLength"@, JsonModel::Num(1))],
        )
    } else {
        JsonModel::Object(Seq::empty())
    }
}

/// Whether a spelled type is `Option<..>` (and so not required).
pub open spec fn optional_text(t: Seq<char>) -> bool {
    starts_with(trimmed(t), "Option<"@)
}

/// `schema` with `doc` attached as its `description` (unchanged for an empty
/// doc or a schema that is not an object).
pub open spec fn with_doc_model(schema: JsonModel, doc: Seq<char>) -> JsonModel {
    match schema {
        JsonModel::Object(entries) => if doc.len() > 0 {
            JsonModel::Object(obj_insert(entries, "description"@, JsonModel::Str(doc)))
        } else {
            schema
        },
        _ => schema,
    }
}

/// A string value.
pub fn json_str(lit: &str) -> (r: Json)
    ensures
        model_of(r) == JsonModel::Str(lit@),
{
    let mut s = String::new();
    s.append(lit);
    Json::Str(s)
}

/// Appends the member `key: value` to an object's members.
pub fn push_entry(entries: &mut Vec<(String, Json)>, key: &str, value: Json)
    ensures
        entries_model(final(entries)@) == entries_model(old(entries)@).push((key@, model_of(value))),
{
    let mut k = String::new();
    k.append(key);
    entries.push((k, value));
    assert(final(entries)@.drop_last() =~= old(entries)@);
}

/// Appends an item to an array's items.
pub fn push_item(items: &mut Vec<Json>, value: Json)
    ensures
        items_model(final(items)@) == items_model(old(items)@).push(model_of(value)),
{
    items.push(value);
    assert(final(items)@.drop_last() =~= old(items)@);
}

fn typed_json(name: &str) -> (r: Json)
    ensures
        model_of(r) == typed(name),
{
    let mut e: Vec<(String, Json)> = Vec::new();
    push_entry(&mut e, "type", json_str(name));
    Json::Object(e)
}

fn int_range_json(lo: i64, hi: u64) -> (r: Json)
    ensures
        model_of(r) == int_range(lo as int, hi as int),
{
    let mut e: Vec<(String, Json)> = Vec::new();
    push_entry(&mut e, "type", json_str("integer"));
    push_entry(&mut e, "minimum", Json::Int(lo));
    push_entry(&mut e, "maximum", Json::Nat(hi));
    assert(model_of(Json::Int(lo)) == JsonModel::Num(lo as int));
    assert(entries_model(e@) == int_range(lo as int, hi as int)->Object_0);
    Json::Object(e)
}

proof fn lemma_entries_model_update(entries: Seq<(String, Json)>, i: int, k: String, v: Json)
    requires
        0 <= i < entries.len(),
    ensures
        entries_model(entries.update(i, (k, v))) == entries_model(entries).update(
            i,
            (k@, model_of(v)),
        ),
        entries_model(entries).len() == entries.len(),
    decreases entries.len(),
{
    lemma_entries_model_len(entries);
    lemma_entries_model_len(entries.update(i, (k, v)));
    if i == entries.len() - 1 {
        assert(entries.update(i, (k, v)).drop_last() =~= entries.drop_last());
    } else {
        lemma_entries_model_update(entries.drop_last(), i, k, v);
        assert(entries.update(i, (k, v)).drop_last() =~= entries.drop_last().update(i, (k, v)));
    }
    assert(entries_model(entries.update(i, (k, v))) =~= entries_model(entries).update(
        i,
        (k@, model_of(v)),
    ));
}

proof fn lemma_entries_model_len(entries: Seq<(String, Json)>)
    ensures
        entries_model(entries).len() == entries.len(),
        forall|j: int|
            0 <= j < entries.len() ==> (#[trigger] entries_model(entries)[j]).0 == entries[j].0@,
    decreases entries.len(),
{
    if entries.len() > 0 {
        lemma_entries_model_len(entries.drop_last());
    }
}

proof fn lemma_key_index(entries: Seq<(Seq<char>, JsonModel)>, key: Seq<char>)
    ensures
        -1 <= key_index(entries, key) < entries.len(),
        key_index(entries, key) >= 0 ==> entries[key_index(entries, key)].0 == key,
        key_index(entries, key) >= 0 ==> forall|j: int|
            0 <= j < key_index(entries, key) ==> (#[trigger] entries[j]).0 != key,
        key_index(entries, key) < 0 ==> forall|j: int|
            0 <= j < entries.len() ==> (#[trigger] entries[j]).0 != key,
    decreases entries.len(),
{
    if entries.len() > 0 {
        let pre = entries.drop_last();
        lemma_key_index(pre, key);
        assert forall|j: int| 0 <= j < pre.len() implies (#[trigger] entries[j]) == pre[j] by {}
    }
}

/// Sets `key` to `value` in an object's members: replaced in place when
/// present, appended otherwise.
pub fn insert_entry(entries: &mut Vec<(String, Json)>, key: String, value: Json)
    ensures
        entries_model(final(entries)@) == obj_insert(
            entries_model(old(entries)@),
            key@,
            model_of(value),
        ),
{
    proof {
        lemma_entries_model_len(old(entries)@);
        lemma_key_index(entries_model(old(entries)@), key@);
    }
    let mut i: usize = 0;
    while i < entries.len()
        invariant
            i <= entries@.len(),
            entries@ == old(entries)@,
            forall|j: int| 0 <= j < i ==> (#[trigger] entries@[j]).0@ != key@,
        decreases entries@.len() - i,
    {
        if entries[i].0 == key {
            proof {
                lemma_entries_model_len(old(entries)@);
                lemma_key_index(entries_model(old(entries)@), key@);
                let m = entries_model(old(entries)@);
                assert(m[i as int].0 == key@);
                if key_index(m, key@) != i {
                    let ki = key_index(m, key@);
                    assert(m[ki].0 == key@);
                    assert(entries@[ki].0@ == key@);
                }
                lemma_entries_model_update(old(entries)@, i as int, key, value);
            }
            entries.set(i, (key, value));
            return;
        }
        i = i + 1;
    }
    proof {
        lemma_entries_model_len(old(entries)@);
        lemma_key_index(entries_model(old(entries)@), key@);
        let m = entries_model(old(entries)@);
        if key_index(m, key@) >= 0 {
            let ki = key_index(m, key@);
            assert(entries@[ki].0@ == key@);
        }
    }
    let ghost before = entries@;
    entries.push((key, value));
    assert(entries@.drop_last() =~= before);
}


fn int_from_zero_json() -> (r: Json)
    ensures
        model_of(r) == int_from(0),
{
    let mut e: Vec<(String, Json)> = Vec::new();
    push_entry(&mut e, "type", json_str("integer"));
    push_entry(&mut e, "minimum", Json::Nat(0));
    assert(model_of(Json::Nat(0)) == JsonModel::Num(0));
    assert(entries_model(e@) == int_from(0)->Object_0);
    Json::Object(e)
}

fn char_json() -> (r: Json)
    ensures
        model_of(r) == JsonModel::Object(
            seq![("type"@, str_of("string")), ("minLength"@, JsonModel::Num(1)), ("maxLength"@, JsonModel::Num(1))],
        ),
{
    let mut e: Vec<(String, Json)> = Vec::new();
    push_entry(&mut e, "type", json_str("string"));
    push_entry(&mut e, "minLength", Json::Nat(1));
    push_entry(&mut e, "maxLength", Json::Nat(1));
    assert(model_of(Json::Nat(1)) == JsonModel::Num(1));
    assert(entries_model(e@) == seq![
        ("type"@, str_of("string")),
        ("minLength"@, JsonModel::Num(1)),
        ("maxLength"@, JsonModel::Num(1)),
    ]);
    Json::Object(e)
}

/// `{ "anyOf": [inner, { "type": "null" }] }`.
fn nullable_json(inner: Json) -> (r: Json)
    ensures
        model_of(r) == JsonModel::Object(
            seq![("anyOf"@, JsonModel::Array(seq![model_of(inner), typed("null")]))],
        ),
{
    let ghost mi = model_of(inner);
    let mut arms: Vec<Json> = Vec::new();
    push_item(&mut arms, inner);
    push_item(&mut arms, typed_json("null"));
    assert(items_model(arms@) == seq![mi, typed("null")]);
    let ghost ma = items_model(arms@);
    let mut e: Vec<(String, Json)> = Vec::new();
    push_entry(&mut e, "anyOf", Json::Array(arms));
    assert(model_of(Json::Array(arms)) == JsonModel::Array(ma));
    Json::Object(e)
}

/// The JSON Schema of a spelled type held as characters.
fn type_schema_chars(t: &Vec<char>) -> (r: Json)
    ensures
        model_of(r) == type_schema(t@),
    decreases t@.len(),
{
    let s = trim_chars(t);
    let p = "Option<".unicode_len();
    let n = s.len();
    if matches_at(&s, 0, "Option<") && n > p && s[n - 1] == '>' {
        proof {
            lemma_trimmed_len(t@);
            assert(s@.subrange(0, p as int) == "Option<"@);
        }
        let mut inner: Vec<char> = Vec::new();
        let mut k = p;
        while k < n - 1
            invariant
                p <= k <= n - 1,
                n == s@.len(),
                inner@ == s@.subrange(p as int, k as int),
            decreases n - 1 - k,
        {
            inner.push(s[k]);
            k = k + 1;
            assert(inner@ =~= s@.subrange(p as int, k as int));
        }
        let inner_schema = type_schema_chars(&inner);
        assert(inner@ == option_inner(s@));
        return nullable_json(inner_schema);
    }
    proof {
        assert(!is_option_text(s@));
    }
    if crate::text::chars_equal(&s, "u8") {
        int_range_json(0, 255)
    } else if crate::text::chars_equal(&s, "u16") {
        int_range_json(0, 65535)
    } else if crate::text::chars_equal(&s, "u32") {
        int_range_json(0, 4294967295)
    } else if crate::text::chars_equal(&s, "u64") || crate::text::chars_equal(&s, "u128")
        || crate::text::chars_equal(&s, "usize") {
        int_from_zero_json()
    } else if crate::text::chars_equal(&s, "i8") {
        int_range_json(-128, 127)
    } else if crate::text::chars_equal(&s, "i16") {
        int_range_json(-32768, 32767)
    } else if crate::text::chars_equal(&s, "i32") || crate::text::chars_equal(&s, "i64")
        || crate::text::chars_equal(&s, "i128") || crate::text::chars_equal(&s, "isize") {
        typed_json("integer")
    } else if crate::text::chars_equal(&s, "f32") || crate::text::chars_equal(&s, "f64") {
        typed_json("number")
    } else if crate::text::chars_equal(&s, "bool") {
        typed_json("boolean")
    } else if crate::text::chars_equal(&s, "String") || crate::text::chars_equal(&s, "&str")
        || crate::text::chars_equal(&s, "str") {
        typed_json("string")
    } else if crate::text::chars_equal(&s, "char") {
        char_json()
    } else {
        Json::Object(Vec::new())
    }
}

/// The JSON Schema of one spelled Rust type. Primitive scalars map precisely
/// (integers with their range, `char` with its length); `Option<T>` becomes
/// `anyOf [schema(T), null]`; anything else is the permissive `{}`.
pub fn type_schema_json(rust_type: &str) -> (r: Json)
    ensures
        model_of(r) == type_schema(rust_type@),
{
    let t = chars_of(rust_type);
    type_schema_chars(&t)
}

/// Whether a spelled type is `Option<…>` (optional, hence not `required`).
pub fn is_optional(spelled: &str) -> (b: bool)
    ensures
        b == optional_text(spelled@),
{
    let t = chars_of(spelled);
    let s = trim_chars(&t);
    matches_at(&s, 0, "Option<")
}


/// The JSON Schema dialect the emitted documents declare.
pub const DRAFT: &'static str = "https://json-schema.org/draft/2020-12/schema";

/// A field's schema: its type's schema, described by its doc.
pub open spec fn field_schema(f: FieldSpec) -> JsonModel {
    with_doc_model(type_schema(f.ty_name@), f.doc@)
}

/// The fields are tuple positions `"0"`, `"1"`, ... (each name parses as its
/// own index).
pub open spec fn is_tuple_fields(fs: Seq<FieldSpec>) -> bool {
    forall|i: int| 0 <= i < fs.len() ==> parses_as_index((#[trigger] fs[i]).name@, i as nat)
}

pub open spec fn tuple_items(fs: Seq<FieldSpec>) -> Seq<JsonModel>
    decreases fs.len(),
{
    if fs.len() == 0 {
        Seq::empty()
    } else {
        tuple_items(fs.drop_last()).push(field_schema(fs.last()))
    }
}

/// One property per field, keyed by name (a repeated name keeps its first
/// position and its last schema).
pub open spec fn props_of(fs: Seq<FieldSpec>) -> Seq<(Seq<char>, JsonModel)>
    decreases fs.len(),
{
    if fs.len() == 0 {
        Seq::empty()
    } else {
        obj_insert(props_of(fs.drop_last()), fs.last().name@, field_schema(fs.last()))
    }
}

/// The names of the fields that are not `Option<..>`, in order.
pub open spec fn required_of(fs: Seq<FieldSpec>) -> Seq<JsonModel>
    decreases fs.len(),
{
    if fs.len() == 0 {
        Seq::empty()
    } else if optional_text(fs.last().ty_name@) {
        required_of(fs.drop_last())
    } else {
        required_of(fs.drop_last()).push(JsonModel::Str(fs.last().name@))
    }
}

/// `{ "type": "array", "prefixItems": items, "minItems": n, "maxItems": n }`.
pub open spec fn array_schema(items: Seq<JsonModel>) -> JsonModel {
    JsonModel::Object(
        seq![
            ("type"@, str_of("array")),
            ("prefixItems"@, JsonModel::Array(items)),
            ("minItems"@, JsonModel::Num(items.len() as int)),
            ("maxItems"@, JsonModel::Num(items.len() as int)),
        ],
    )
}

/// `{ "type": "object", "properties": props, "required": required }`.
pub open spec fn object_schema(
    props: Seq<(Seq<char>, JsonModel)>,
    required: Seq<JsonModel>,
) -> JsonModel {
    JsonModel::Object(
        seq![
            ("type"@, str_of("object")),
            ("properties"@, JsonModel::Object(props)),
            ("required"@, JsonModel::Array(required)),
        ],
    )
}

/// A struct's schema, matching its serde encoding: unit → `null`, newtype →
/// the inner value, tuple → array, named → object.
pub open spec fn struct_schema(fs: Seq<FieldSpec>) -> JsonModel {
    if fs.len() == 0 {
        typed("null")
    } else if is_tuple_fields(fs) {
        if fs.len() == 1 {
            field_schema(fs[0])
        } else {
            array_schema(tuple_items(fs))
        }
    } else {
        object_schema(props_of(fs), required_of(fs))
    }
}

pub open spec fn all_unit(vs: Seq<VariantSpec>) -> bool {
    forall|k: int| 0 <= k < vs.len() ==> (#[trigger] vs[k]).kind == VariantKind::Unit
}

pub open spec fn variant_names(vs: Seq<VariantSpec>) -> Seq<JsonModel>
    decreases vs.len(),
{
    if vs.len() == 0 {
        Seq::empty()
    } else {
        variant_names(vs.drop_last()).push(JsonModel::Str(vs.last().name@))
    }
}

pub open spec fn payload_items(ps: Seq<crate::manifest::VariantFieldSpec>) -> Seq<JsonModel>
    decreases ps.len(),
{
    if ps.len() == 0 {
        Seq::empty()
    } else {
        payload_items(ps.drop_last()).push(type_schema(ps.last().ty_name@))
    }
}

/// A payload field's key: its name, or `"_"` for a tuple position.
pub open spec fn payload_key(p: crate::manifest::VariantFieldSpec) -> Seq<char> {
    match p.name {
        Some(n) => n@,
        None => "_"@,
    }
}

pub open spec fn payload_props(ps: Seq<crate::manifest::VariantFieldSpec>) -> Seq<
    (Seq<char>, JsonModel),
>
    decreases ps.len(),
{
    if ps.len() == 0 {
        Seq::empty()
    } else {
        obj_insert(
            payload_props(ps.drop_last()),
            payload_key(ps.last()),
            type_schema(ps.last().ty_name@),
        )
    }
}

pub open spec fn payload_required(ps: Seq<crate::manifest::VariantFieldSpec>) -> Seq<JsonModel>
    decreases ps.len(),
{
    if ps.len() == 0 {
        Seq::empty()
    } else if optional_text(ps.last().ty_name@) {
        payload_required(ps.drop_last())
    } else {
        payload_required(ps.drop_last()).push(JsonModel::Str(payload_key(ps.last())))
    }
}

/// `{ "type": "object", "required": [tag], "properties": { tag: payload } }`.
pub open spec fn tagged(tag: Seq<char>, payload: JsonModel) -> JsonModel {
    JsonModel::Object(
        seq![
            ("type"@, str_of("object")),
            ("required"@, JsonModel::Array(seq![JsonModel::Str(tag)])),
            ("properties"@, JsonModel::Object(seq![(tag, payload)])),
        ],
    )
}

/// One `oneOf` branch, externally tagged like serde: a unit variant is its
/// bare name; a data variant is `{ "Name": payload }`.
pub open spec fn case_of(v: VariantSpec) -> JsonModel {
    let ps = v.fields@;
    let case = match v.kind {
        VariantKind::Unit => JsonModel::Object(seq![("const"@, JsonModel::Str(v.name@))]),
        VariantKind::Tuple => tagged(
            v.name@,
            if ps.len() == 1 {
                type_schema(ps[0].ty_name@)
            } else {
                array_schema(payload_items(ps))
            },
        ),
        VariantKind::Struct => tagged(
            v.name@,
            object_schema(payload_props(ps), payload_required(ps)),
        ),
    };
    with_doc_model(case, v.doc@)
}

pub open spec fn cases_of(vs: Seq<VariantSpec>) -> Seq<JsonModel>
    decreases vs.len(),
{
    if vs.len() == 0 {
        Seq::empty()
    } else {
        cases_of(vs.drop_last()).push(case_of(vs.last()))
    }
}

/// An enum's schema: a fieldless enum is a string of variant names; a
/// data-carrying enum is an externally tagged `oneOf`.
pub open spec fn enum_schema(vs: Seq<VariantSpec>) -> JsonModel {
    if all_unit(vs) {
        JsonModel::Object(
            seq![("type"@, str_of("string")), ("enum"@, JsonModel::Array(variant_names(vs)))],
        )
    } else {
        JsonModel::Object(seq![("oneOf"@, JsonModel::Array(cases_of(vs)))])
    }
}

/// The JSON Schema document of a manifest: the struct or enum schema, with
/// `$schema`, `title` (the type's name) and, for a documented type,
/// `description` set on it.
pub open spec fn document(m: Manifest) -> JsonModel {
    let body = if m.variants@.len() == 0 {
        struct_schema(m.fields@)
    } else {
        enum_schema(m.variants@)
    };
    match body {
        JsonModel::Object(e) => {
            let e1 = obj_insert(e, "$schema"@, JsonModel::Str(DRAFT@));
            let e2 = obj_insert(e1, "title"@, JsonModel::Str(m.ty_name@));
            JsonModel::Object(
                if m.doc@.len() > 0 {
                    obj_insert(e2, "description"@, JsonModel::Str(m.doc@))
                } else {
                    e2
                },
            )
        },
        _ => body,
    }
}

fn string_json(s: &String) -> (r: Json)
    ensures
        model_of(r) == JsonModel::Str(s@),
{
    Json::Str(s.clone())
}

fn key_string(lit: &str) -> (r: String)
    ensures
        r@ == lit@,
{
    let mut k = String::new();
    k.append(lit);
    k
}

/// Attach a `description` to an object schema (no change for an empty doc or
/// a schema that is not an object).
pub fn with_doc(schema: Json, doc: &String) -> (r: Json)
    ensures
        model_of(r) == with_doc_model(model_of(schema), doc@),
{
    if doc.as_str().is_empty() {
        return schema;
    }
    match schema {
        Json::Object(mut entries) => {
            insert_entry(&mut entries, key_string("description"), string_json(doc));
            Json::Object(entries)
        },
        other => other,
    }
}

fn array_json(items: Vec<Json>) -> (r: Json)
    ensures
        model_of(r) == array_schema(items_model(items@)),
{
    proof {
        lemma_items_model_len(items@);
    }
    let n = items.len() as u64;
    let ghost mi = items_model(items@);
    let mut e: Vec<(String, Json)> = Vec::new();
    push_entry(&mut e, "type", json_str("array"));
    push_entry(&mut e, "prefixItems", Json::Array(items));
    push_entry(&mut e, "minItems", Json::Nat(n));
    push_entry(&mut e, "maxItems", Json::Nat(n));
    assert(model_of(Json::Nat(n)) == JsonModel::Num(mi.len() as int));
    assert(model_of(Json::Array(items)) == JsonModel::Array(mi));
    assert(entries_model(e@) == array_schema(mi)->Object_0);
    Json::Object(e)
}

fn object_json(props: Vec<(String, Json)>, required: Vec<Json>) -> (r: Json)
    ensures
        model_of(r) == object_schema(entries_model(props@), items_model(required@)),
{
    let ghost mp = entries_model(props@);
    let ghost mr = items_model(required@);
    let mut e: Vec<(String, Json)> = Vec::new();
    push_entry(&mut e, "type", json_str("object"));
    push_entry(&mut e, "properties", Json::Object(props));
    push_entry(&mut e, "required", Json::Array(required));
    assert(model_of(Json::Object(props)) == JsonModel::Object(mp));
    assert(model_of(Json::Array(required)) == JsonModel::Array(mr));
    assert(entries_model(e@) == object_schema(mp, mr)->Object_0);
    Json::Object(e)
}

proof fn lemma_items_model_len(items: Seq<Json>)
    ensures
        items_model(items).len() == items.len(),
    decreases items.len(),
{
    if items.len() > 0 {
        lemma_items_model_len(items.drop_last());
    }
}

/// Whether the fields are the tuple positions `"0"`, `"1"`, ...
fn fields_are_tuple(fields: &Vec<FieldSpec>) -> (b: bool)
    ensures
        b == is_tuple_fields(fields@),
{
    let mut i: usize = 0;
    while i < fields.len()
        invariant
            i <= fields@.len(),
            forall|j: int| 0 <= j < i ==> parses_as_index((#[trigger] fields@[j]).name@, j as nat),
        decreases fields@.len() - i,
    {
        if !parses_to_index(fields[i].name.as_str(), i) {
            return false;
        }
        i = i + 1;
    }
    true
}

/// The schema of a field: its type's schema, described by its doc.
fn field_schema_json(f: &FieldSpec) -> (r: Json)
    ensures
        model_of(r) == field_schema(*f),
{
    with_doc(type_schema_json(f.ty_name.as_str()), &f.doc)
}

/// Schema for a struct, matching serde's encoding: unit → `null`, newtype →
/// inner value, multi-field tuple → array, named → object.
pub fn struct_schema_json(fields: &Vec<FieldSpec>) -> (r: Json)
    ensures
        model_of(r) == struct_schema(fields@),
{
    if fields.len() == 0 {
        return typed_json("null");
    }
    if fields_are_tuple(fields) {
        if fields.len() == 1 {
            return field_schema_json(&fields[0]);
        }
        let mut items: Vec<Json> = Vec::new();
        let mut i: usize = 0;
        while i < fields.len()
            invariant
                i <= fields@.len(),
                items_model(items@) == tuple_items(fields@.subrange(0, i as int)),
            decreases fields@.len() - i,
        {
            proof {
                let pre = fields@.subrange(0, i as int + 1);
                assert(pre.drop_last() =~= fields@.subrange(0, i as int));
            }
            push_item(&mut items, field_schema_json(&fields[i]));
            i = i + 1;
        }
        assert(fields@.subrange(0, i as int) =~= fields@);
        return array_json(items);
    }
    let mut props: Vec<(String, Json)> = Vec::new();
    let mut required: Vec<Json> = Vec::new();
    let mut i: usize = 0;
    while i < fields.len()
        invariant
            i <= fields@.len(),
            entries_model(props@) == props_of(fields@.subrange(0, i as int)),
            items_model(required@) == required_of(fields@.subrange(0, i as int)),
        decreases fields@.len() - i,
    {
        proof {
            let pre = fields@.subrange(0, i as int + 1);
            assert(pre.drop_last() =~= fields@.subrange(0, i as int));
            assert(pre.last() == fields@[i as int]);
        }
        let f = &fields[i];
        insert_entry(&mut props, f.name.clone(), field_schema_json(f));
        if !is_optional(f.ty_name.as_str()) {
            push_item(&mut required, string_json(&f.name));
        }
        i = i + 1;
    }
    assert(fields@.subrange(0, i as int) =~= fields@);
    object_json(props, required)
}


fn variant_is_unit(vs: &Vec<VariantSpec>) -> (b: bool)
    ensures
        b == all_unit(vs@),
{
    let mut k: usize = 0;
    while k < vs.len()
        invariant
            k <= vs@.len(),
            forall|j: int| 0 <= j < k ==> (#[trigger] vs@[j]).kind == VariantKind::Unit,
        decreases vs@.len() - k,
    {
        if vs[k].kind != VariantKind::Unit {
            return false;
        }
        k = k + 1;
    }
    true
}

fn payload_key_string(p: &crate::manifest::VariantFieldSpec) -> (r: String)
    ensures
        r@ == payload_key(*p),
{
    match &p.name {
        Some(n) => n.clone(),
        None => key_string("_"),
    }
}

/// `{ "type": "object", "required": [tag], "properties": { tag: payload } }`.
fn tagged_json(tag: &String, payload: Json) -> (r: Json)
    ensures
        model_of(r) == tagged(tag@, model_of(payload)),
{
    let ghost mp = model_of(payload);
    let mut required: Vec<Json> = Vec::new();
    push_item(&mut required, string_json(tag));
    let mut props: Vec<(String, Json)> = Vec::new();
    props.push((tag.clone(), payload));
    assert(props@.drop_last() =~= Seq::<(String, Json)>::empty());
    let ghost mr = items_model(required@);
    let ghost mq = entries_model(props@);
    let mut e: Vec<(String, Json)> = Vec::new();
    push_entry(&mut e, "type", json_str("object"));
    push_entry(&mut e, "required", Json::Array(required));
    push_entry(&mut e, "properties", Json::Object(props));
    assert(model_of(Json::Array(required)) == JsonModel::Array(mr));
    assert(model_of(Json::Object(props)) == JsonModel::Object(mq));
    assert(entries_model(e@) == tagged(tag@, mp)->Object_0);
    Json::Object(e)
}

/// One `oneOf` branch for a variant.
fn variant_case(v: &VariantSpec) -> (r: Json)
    ensures
        model_of(r) == case_of(*v),
{
    let ps = &v.fields;
    let case = match v.kind {
        VariantKind::Unit => {
            let mut e: Vec<(String, Json)> = Vec::new();
            push_entry(&mut e, "const", string_json(&v.name));
            Json::Object(e)
        },
        VariantKind::Tuple => {
            let payload = if ps.len() == 1 {
                type_schema_json(ps[0].ty_name.as_str())
            } else {
                let mut items: Vec<Json> = Vec::new();
                let mut i: usize = 0;
                while i < ps.len()
                    invariant
                        i <= ps@.len(),
                        items_model(items@) == payload_items(ps@.subrange(0, i as int)),
                    decreases ps@.len() - i,
                {
                    proof {
                        let pre = ps@.subrange(0, i as int + 1);
                        assert(pre.drop_last() =~= ps@.subrange(0, i as int));
                    }
                    push_item(&mut items, type_schema_json(ps[i].ty_name.as_str()));
                    i = i + 1;
                }
                assert(ps@.subrange(0, i as int) =~= ps@);
                array_json(items)
            };
            tagged_json(&v.name, payload)
        },
        VariantKind::Struct => {
            let mut props: Vec<(String, Json)> = Vec::new();
            let mut required: Vec<Json> = Vec::new();
            let mut i: usize = 0;
            while i < ps.len()
                invariant
                    i <= ps@.len(),
                    entries_model(props@) == payload_props(ps@.subrange(0, i as int)),
                    items_model(required@) == payload_required(ps@.subrange(0, i as int)),
                decreases ps@.len() - i,
            {
                proof {
                    let pre = ps@.subrange(0, i as int + 1);
                    assert(pre.drop_last() =~= ps@.subrange(0, i as int));
                    assert(pre.last() == ps@[i as int]);
                }
                let key = payload_key_string(&ps[i]);
                let schema = type_schema_json(ps[i].ty_name.as_str());
                if !is_optional(ps[i].ty_name.as_str()) {
                    push_item(&mut required, Json::Str(key.clone()));
                }
                insert_entry(&mut props, key, schema);
                i = i + 1;
            }
            assert(ps@.subrange(0, i as int) =~= ps@);
            tagged_json(&v.name, object_json(props, required))
        },
    };
    with_doc(case, &v.doc)
}

/// Schema for an enum: a fieldless enum is a string of variant names; a
/// data-carrying enum is an externally tagged `oneOf` (serde's default).
pub fn enum_schema_json(variants: &Vec<VariantSpec>) -> (r: Json)
    ensures
        model_of(r) == enum_schema(variants@),
{
    if variant_is_unit(variants) {
        let mut names: Vec<Json> = Vec::new();
        let mut i: usize = 0;
        while i < variants.len()
            invariant
                i <= variants@.len(),
                items_model(names@) == variant_names(variants@.subrange(0, i as int)),
            decreases variants@.len() - i,
        {
            proof {
                let pre = variants@.subrange(0, i as int + 1);
                assert(pre.drop_last() =~= variants@.subrange(0, i as int));
            }
            push_item(&mut names, string_json(&variants[i].name));
            i = i + 1;
        }
        assert(variants@.subrange(0, i as int) =~= variants@);
        let ghost mn = items_model(names@);
        let mut e: Vec<(String, Json)> = Vec::new();
        push_entry(&mut e, "type", json_str("string"));
        push_entry(&mut e, "enum", Json::Array(names));
        assert(model_of(Json::Array(names)) == JsonModel::Array(mn));
        assert(entries_model(e@) == enum_schema(variants@)->Object_0);
        return Json::Object(e);
    }
    let mut cases: Vec<Json> = Vec::new();
    let mut i: usize = 0;
    while i < variants.len()
        invariant
            i <= variants@.len(),
            items_model(cases@) == cases_of(variants@.subrange(0, i as int)),
        decreases variants@.len() - i,
    {
        proof {
            let pre = variants@.subrange(0, i as int + 1);
            assert(pre.drop_last() =~= variants@.subrange(0, i as int));
        }
        push_item(&mut cases, variant_case(&variants[i]));
        i = i + 1;
    }
    assert(variants@.subrange(0, i as int) =~= variants@);
    let ghost mc = items_model(cases@);
    let mut e: Vec<(String, Json)> = Vec::new();
    push_entry(&mut e, "oneOf", Json::Array(cases));
    assert(model_of(Json::Array(cases)) == JsonModel::Array(mc));
    Json::Object(e)
}

/// The JSON Schema (Draft 2020-12) document of a manifest, shaped like the
/// serde encoding of the type.
pub fn json_schema(m: &Manifest) -> (r: Json)
    ensures
        model_of(r) == document(*m),
{
    let body = if m.variants.len() == 0 {
        struct_schema_json(&m.fields)
    } else {
        enum_schema_json(&m.variants)
    };
    match body {
        Json::Object(mut entries) => {
            insert_entry(&mut entries, key_string("$schema"), json_str(DRAFT));
            insert_entry(&mut entries, key_string("title"), string_json(&m.ty_name));
            if !m.doc.as_str().is_empty() {
                insert_entry(&mut entries, key_string("description"), string_json(&m.doc));
            }
            Json::Object(entries)
        },
        other => other,
    }
}



/// An `Option<T>` field is nullable — `anyOf [schema(T), null]` — and is the
/// kind of field left out of `required`.
pub proof fn lemma_option_is_nullable_and_optional(t: Seq<char>)
    requires
        is_option_text(trimmed(t)),
    ensures
        optional_text(t),
        type_schema(t) == JsonModel::Object(
            seq![("anyOf"@, JsonModel::Array(seq![type_schema(option_inner(trimmed(t))), typed("null")]))],
        ),
{
}

/// A spelled type whose trimmed text ends in `>` is optional (left out of
/// `required`) exactly when its schema is made nullable, that is, when the
/// `serde_json` object it becomes has an `anyOf` member.
pub proof fn lemma_optional_iff_any_of(t: Seq<char>)
    requires
        trimmed(t).len() > 0,
        trimmed(t).last() == '>',
    ensures
        optional_text(t) <==> (value_model(type_schema(t)) matches ValueModel::Obj(members)
            && members.dom().contains("anyOf"@)),
{
    let s = trimmed(t);
    reveal_strlit("Option<");
    reveal_strlit("anyOf");
    if is_option_text(s) {
        let entry = ("anyOf"@, JsonModel::Array(seq![type_schema(option_inner(s)), typed("null")]));
        assert(seq![entry].drop_last() =~= Seq::<(Seq<char>, JsonModel)>::empty());
        assert(value_entries(seq![entry]).dom().contains("anyOf"@));
    } else {
        assert(!starts_with(s, "Option<"@)) by {
            if starts_with(s, "Option<"@) && s.len() == "Option<"@.len() {
                assert(s =~= "Option<"@);
            }
        }
        reveal_strlit("u8");
        reveal_strlit("u16");
        reveal_strlit("u32");
        reveal_strlit("u64");
        reveal_strlit("u128");
        reveal_strlit("usize");
        reveal_strlit("i8");
        reveal_strlit("i16");
        reveal_strlit("i32");
        reveal_strlit("i64");
        reveal_strlit("i128");
        reveal_strlit("isize");
        reveal_strlit("f32");
        reveal_strlit("f64");
        reveal_strlit("bool");
        reveal_strlit("String");
        reveal_strlit("&str");
        reveal_strlit("str");
        reveal_strlit("char");
        assert(type_schema(t) == JsonModel::Object(Seq::empty()));
        assert(!value_entries(Seq::empty()).dom().contains("anyOf"@));
    }
}

/// `v` is the name of a field of `fs` whose type is not `Option<..>`.
pub open spec fn names_required_field(fs: Seq<FieldSpec>, v: JsonModel) -> bool {
    exists|k: int|
        0 <= k < fs.len() && !optional_text((#[trigger] fs[k]).ty_name@) && v == JsonModel::Str(
            fs[k].name@,
        )
}

/// A named struct's `required` lists exactly its fields whose type is not
/// `Option<..>`, by name, in field order.
pub proof fn lemma_required_is_non_optional(fs: Seq<FieldSpec>)
    ensures
        forall|k: int|
            0 <= k < fs.len() && !optional_text((#[trigger] fs[k]).ty_name@) ==> required_of(
                fs,
            ).contains(JsonModel::Str(fs[k].name@)),
        forall|j: int|
            0 <= j < required_of(fs).len() ==> names_required_field(
                fs,
                #[trigger] required_of(fs)[j],
            ),
    decreases fs.len(),
{
    if fs.len() > 0 {
        let pre = fs.drop_last();
        lemma_required_is_non_optional(pre);
        let r = required_of(fs);
        let rp = required_of(pre);
        assert forall|k: int|
            0 <= k < fs.len() && !optional_text((#[trigger] fs[k]).ty_name@) implies r.contains(
                JsonModel::Str(fs[k].name@),
            ) by {
            if k < pre.len() {
                assert(fs[k] == pre[k]);
                let w = choose|w: int| 0 <= w < rp.len() && rp[w] == JsonModel::Str(pre[k].name@);
                assert(r[w] == rp[w]);
            } else {
                assert(r[r.len() - 1] == JsonModel::Str(fs[k].name@));
            }
        }
        assert forall|j: int| 0 <= j < r.len() implies names_required_field(fs, #[trigger] r[j]) by {
            if j < rp.len() {
                assert(r[j] == rp[j]);
                assert(names_required_field(pre, rp[j]));
                let k = choose|k: int|
                    0 <= k < pre.len() && !optional_text((#[trigger] pre[k]).ty_name@) && rp[j]
                        == JsonModel::Str(pre[k].name@);
                assert(fs[k] == pre[k]);
            } else {
                assert(fs[fs.len() - 1] == fs.last());
            }
        }
    }
}


/// The derive and the schema generator agree on tuple structs: the manifest a
/// tuple struct publishes names its fields by position, and the generator
/// reads those names back as positions (so it emits the serde shape of a
/// tuple or newtype, not an object).
pub proof fn lemma_tuple_declaration_is_positional(
    input: DeriveInput,
    model: StructModel,
    module: Seq<char>,
    lf: LayoutFacts,
    predecessor: Option<u32>,
    m: Manifest,
)
    requires
        declared_count_fits(input),
        analysis_outcome(input) is Ok,
        models_declaration(model, input),
        publishes(m, model, module, lf, predecessor),
        input.data matches ItemData::Struct(fs) && forall|k: int|
            0 <= k < fs@.len() ==> (#[trigger] fs@[k]).ident is None,
    ensures
        is_tuple_fields(m.fields@),
{
    if let ItemData::Struct(fs) = input.data {
        let version = model.version;
        assert forall|k: int| 0 <= k < m.fields@.len() implies parses_as_index(
            (#[trigger] m.fields@[k]).name@,
            k as nat,
        ) by {
            assert(publishes_field(m.fields@[k], model.fields@[k], lf.fields@[k]));
            assert(models_field(
                model.fields@[k],
                fs@[k],
                k,
                field_check(fs@[k], version)->Ok_0,
            ));
            assert(fs@[k].ident is None);
            assert(model.fields@[k].member == Member::Unnamed(k as u32));
            assert((k as u32) as nat == k as nat);
            lemma_decimal_parses_as_index(k as nat);
        }
    }
}

/// A JSON value as `serde_json` holds it: an object is a map from keys to
/// values (a key set twice keeps its last value; member order is not kept).
pub enum ValueModel {
    Null,
    Bool(bool),
    Num(int),
    Str(Seq<char>),
    Arr(Seq<ValueModel>),
    Obj(Map<Seq<char>, ValueModel>),
}

/// What a `serde_json::Value` holds.
pub uninterp spec fn value_contents(v: serde_json::Value) -> ValueModel;

/// A `serde_json` object's members.
pub type JsonMap = serde_json::Map<String, serde_json::Value>;

/// What a `serde_json::Map` holds: its keys and the values under them.
pub uninterp spec fn map_contents(m: JsonMap) -> Map<
    Seq<char>,
    ValueModel,
>;

/// The text `serde_json::to_string_pretty` writes for a value.
pub uninterp spec fn pretty_text(v: ValueModel) -> Seq<char>;

/// An object without members.
pub open spec fn no_members() -> Map<Seq<char>, ValueModel> {
    Map::empty()
}

/// What each of a sequence of `serde_json::Value`s holds.
pub open spec fn contents_seq(vs: Seq<serde_json::Value>) -> Seq<ValueModel> {
    vs.map_values(|v: serde_json::Value| value_contents(v))
}

/// The `serde_json` value a JSON document becomes: members are set in
/// order, so a repeated key keeps its last value.
pub open spec fn value_model(j: JsonModel) -> ValueModel
    decreases j,
{
    match j {
        JsonModel::Null => ValueModel::Null,
        JsonModel::Bool(b) => ValueModel::Bool(b),
        JsonModel::Num(n) => ValueModel::Num(n),
        JsonModel::Str(s) => ValueModel::Str(s),
        JsonModel::Array(items) => ValueModel::Arr(value_items(items)),
        JsonModel::Object(entries) => ValueModel::Obj(value_entries(entries)),
    }
}

pub open spec fn value_items(items: Seq<JsonModel>) -> Seq<ValueModel>
    decreases items,
{
    if items.len() == 0 {
        Seq::empty()
    } else {
        value_items(items.drop_last()).push(value_model(items.last()))
    }
}

pub open spec fn value_entries(entries: Seq<(Seq<char>, JsonModel)>) -> Map<Seq<char>, ValueModel>
    decreases entries,
{
    if entries.len() == 0 {
        Map::empty()
    } else {
        value_entries(entries.drop_last()).insert(
            entries.last().0,
            value_model(entries.last().1),
        )
    }
}

/// `serde_json::Value::Null`.
#[verifier::external_body]
fn value_null() -> (r: serde_json::Value)
    ensures
        value_contents(r) == ValueModel::Null,
{
    serde_json::Value::Null
}

/// `serde_json::Value::Bool(b)`.
#[verifier::external_body]
fn value_bool(b: bool) -> (r: serde_json::Value)
    ensures
        value_contents(r) == ValueModel::Bool(b),
{
    serde_json::Value::Bool(b)
}

/// `serde_json::Value::from(i)`: the number `i`.
#[verifier::external_body]
fn value_i64(i: i64) -> (r: serde_json::Value)
    ensures
        value_contents(r) == ValueModel::Num(i as int),
{
    serde_json::Value::from(i)
}

/// `serde_json::Value::from(n)`: the number `n`.
#[verifier::external_body]
fn value_u64(n: u64) -> (r: serde_json::Value)
    ensures
        value_contents(r) == ValueModel::Num(n as int),
{
    serde_json::Value::from(n)
}

/// `serde_json::Value::String(s)`.
#[verifier::external_body]
fn value_string(s: String) -> (r: serde_json::Value)
    ensures
        value_contents(r) == ValueModel::Str(s@),
{
    serde_json::Value::String(s)
}

/// `serde_json::Value::Array(items)`: the items, in order.
#[verifier::external_body]
fn value_array(items: Vec<serde_json::Value>) -> (r: serde_json::Value)
    ensures
        value_contents(r) == ValueModel::Arr(contents_seq(items@)),
{
    serde_json::Value::Array(items)
}

/// `serde_json::Map::new()`: an empty map.
#[verifier::external_body]
fn map_new() -> (r: JsonMap)
    ensures
        map_contents(r) == no_members(),
{
    serde_json::Map::new()
}

/// `serde_json::Map::insert`: sets `key` to `value`, replacing a value
/// already under `key`.
#[verifier::external_body]
fn map_insert(m: &mut JsonMap, key: String, value: serde_json::Value)
    ensures
        map_contents(*final(m)) == map_contents(*old(m)).insert(key@, value_contents(value)),
{
    m.insert(key, value);
}

/// `serde_json::Value::Object(m)`.
#[verifier::external_body]
fn value_object(m: JsonMap) -> (r: serde_json::Value)
    ensures
        value_contents(r) == ValueModel::Obj(map_contents(m)),
{
    serde_json::Value::Object(m)
}

/// `serde_json::to_string_pretty` of a value: the text it writes for what the
/// value holds. Serializing fails only where a `Serialize` impl reports an
/// error or a map key is not a string; a `Value` has neither, so the call
/// always succeeds.
#[verifier::external_body]
fn value_to_string_pretty(v: &serde_json::Value) -> (r: Result<String, serde_json::Error>)
    ensures
        r is Ok,
        r matches Ok(s) ==> s@ == pretty_text(value_contents(*v)),
{
    serde_json::to_string_pretty(v)
}

impl Json {
    /// The same document as a `serde_json::Value`.
    pub fn to_value(&self) -> (r: serde_json::Value)
        ensures
            value_contents(r) == value_model(model_of(*self)),
        decreases self,
    {
        match self {
            Json::Null => value_null(),
            Json::Bool(b) => value_bool(*b),
            Json::Int(i) => value_i64(*i),
            Json::Nat(n) => value_u64(*n),
            Json::Str(s) => value_string(s.clone()),
            Json::Array(items) => {
                let mut out: Vec<serde_json::Value> = Vec::new();
                let mut i: usize = 0;
                while i < items.len()
                    invariant
                        i <= items@.len(),
                        *self == Json::Array(*items),
                        contents_seq(out@) == value_items(items_model(items@.subrange(0, i as int))),
                    decreases items@.len() - i,
                {
                    proof {
                        let pre = items@.subrange(0, i as int + 1);
                        assert(pre.drop_last() =~= items@.subrange(0, i as int));
                        assert(pre.last() == items@[i as int]);
                        let mp = items_model(items@.subrange(0, i as int));
                        let mx = model_of(items@[i as int]);
                        assert(mp.push(mx).drop_last() =~= mp);
                    }
                    let ghost before = out@;
                    assert(decreases_to!(*self => (*self)->Array_0));
                    assert(decreases_to!(*items => items@));
                    assert(decreases_to!(items@ => items@[i as int]));
                    assert(decreases_to!(*self => items@[i as int]));
                    let v = items[i].to_value();
                    out.push(v);
                    assert(contents_seq(out@) =~= contents_seq(before).push(value_contents(v)));
                    i = i + 1;
                }
                assert(items@.subrange(0, i as int) =~= items@);
                value_array(out)
            },
            Json::Object(members) => {
                let mut out = map_new();
                let mut i: usize = 0;
                while i < members.len()
                    invariant
                        i <= members@.len(),
                        *self == Json::Object(*members),
                        map_contents(out) == value_entries(
                            entries_model(members@.subrange(0, i as int)),
                        ),
                    decreases members@.len() - i,
                {
                    proof {
                        let pre = members@.subrange(0, i as int + 1);
                        assert(pre.drop_last() =~= members@.subrange(0, i as int));
                        assert(pre.last() == members@[i as int]);
                        let mp = entries_model(members@.subrange(0, i as int));
                        let e = (members@[i as int].0@, model_of(members@[i as int].1));
                        assert(mp.push(e).drop_last() =~= mp);
                    }
                    assert(decreases_to!(*self => (*self)->Object_0));
                    assert(decreases_to!(*members => members@));
                    assert(decreases_to!(members@ => members@[i as int]));
                    assert(decreases_to!(members@[i as int] => members@[i as int].1));
                    assert(decreases_to!(*self => members@[i as int].1));
                    let v = members[i].1.to_value();
                    map_insert(&mut out, members[i].0.clone(), v);
                    i = i + 1;
                }
                assert(members@.subrange(0, i as int) =~= members@);
                value_object(out)
            },
        }
    }
}

/// JSON Schema for a single spelled Rust type, as a `serde_json::Value`
/// (see [`type_schema_json`]).
pub fn schema_for_type_name(rust_type: &str) -> (r: serde_json::Value)
    ensures
        value_contents(r) == value_model(type_schema(rust_type@)),
{
    type_schema_json(rust_type).to_value()
}

/// The JSON Schema (Draft 2020-12) of the type a manifest describes, as a
/// `serde_json::Value` (see [`json_schema`]).
pub fn to_json_schema(m: &Manifest) -> (r: serde_json::Value)
    ensures
        value_contents(r) == value_model(document(*m)),
{
    json_schema(m).to_value()
}

/// The JSON Schema of the type a manifest describes, pretty-printed: the
/// text `serde_json` writes for [`to_json_schema`]'s value, which always
/// serializes.
pub fn to_json_schema_string(m: &Manifest) -> (r: String)
    ensures
        r@ == pretty_text(value_model(document(*m))),
{
    match value_to_string_pretty(&to_json_schema(m)) {
        Ok(s) => s,
        Err(_) => {
            proof {
                assert(false);
            }
            String::new()
        },
    }
}


// ---------------------------------------------------------------------------
// Reading a document back from its text.
// ---------------------------------------------------------------------------

/// Every number of a JSON document is an `i64` or a `u64`.
pub open spec fn json_plain(j: JsonModel) -> bool
    decreases j,
{
    match j {
        JsonModel::Num(n) => i64::MIN <= n <= u64::MAX,
        JsonModel::Array(items) => forall|i: int|
            0 <= i < items.len() ==> json_plain(#[trigger] items[i]),
        JsonModel::Object(entries) => forall|i: int|
            0 <= i < entries.len() ==> json_plain((#[trigger] entries[i]).1),
        _ => true,
    }
}

/// A value a `serde_json::Value` of integers can hold: every number is an
/// `i64` or a `u64`, and every object has finitely many members.
pub open spec fn value_plain(v: ValueModel) -> bool
    decreases v,
{
    match v {
        ValueModel::Num(n) => i64::MIN <= n <= u64::MAX,
        ValueModel::Arr(items) => forall|i: int|
            0 <= i < items.len() ==> value_plain(#[trigger] items[i]),
        ValueModel::Obj(members) => members.dom().finite() && forall|k: Seq<char>|
            #[trigger] members.dom().contains(k) ==> value_plain(members[k]),
        _ => true,
    }
}

/// Arrays and objects nest at most `depth` deep in `v` (a scalar nests 0
/// deep, a container one deeper than its deepest member).
pub open spec fn nests_within(v: ValueModel, depth: nat) -> bool
    decreases v,
{
    match v {
        ValueModel::Arr(items) => depth > 0 && forall|i: int|
            0 <= i < items.len() ==> nests_within(#[trigger] items[i], (depth - 1) as nat),
        ValueModel::Obj(members) => depth > 0 && forall|k: Seq<char>|
            #[trigger] members.dom().contains(k) ==> nests_within(members[k], (depth - 1) as nat),
        _ => true,
    }
}

/// How deep `serde_json`'s reader lets arrays and objects nest: it refuses
/// a 128th level.
pub open spec fn read_depth_limit() -> nat {
    127
}

/// What `serde_json::from_str` reads from a text: the value, or `None`
/// where the text is not one JSON document.
pub uninterp spec fn parsed_text(s: Seq<char>) -> Option<ValueModel>;

/// `serde_json::from_str::<serde_json::Value>`. What it reads depends on the
/// text alone. Text that `to_string_pretty` wrote for a value whose numbers
/// are `i64`s or `u64`s, whose objects are finite and whose arrays and
/// objects nest within the reader's depth limit reads back as that value:
/// strings and keys are escaped on the way out and unescaped on the way in,
/// and an integer is read as the same integer.
#[verifier::external_body]
fn value_from_str(text: &str) -> (r: Result<serde_json::Value, serde_json::Error>)
    ensures
        r matches Ok(v) ==> parsed_text(text@) == Some(value_contents(v)),
        r is Err ==> parsed_text(text@) is None,
        r matches Ok(v) ==> forall|j: ValueModel|
            value_plain(j) && nests_within(j, read_depth_limit()) && text@ == #[trigger] pretty_text(j)
                ==> value_contents(v) == j,
        r is Err ==> forall|j: ValueModel|
            !(value_plain(j) && nests_within(j, read_depth_limit()) && text@ == #[trigger] pretty_text(j)),
{
    serde_json::from_str(text)
}

proof fn lemma_value_items(items: Seq<JsonModel>)
    ensures
        value_items(items).len() == items.len(),
        forall|i: int|
            0 <= i < items.len() ==> #[trigger] value_items(items)[i] == value_model(items[i]),
    decreases items.len(),
{
    if items.len() > 0 {
        lemma_value_items(items.drop_last());
        assert forall|i: int| 0 <= i < items.len() implies #[trigger] value_items(items)[i]
            == value_model(items[i]) by {
            if i < items.len() - 1 {
                assert(items.drop_last()[i] == items[i]);
            }
        }
    }
}

proof fn lemma_value_entries(entries: Seq<(Seq<char>, JsonModel)>)
    ensures
        value_entries(entries).dom().finite(),
        forall|k: Seq<char>|
            #[trigger] value_entries(entries).dom().contains(k) ==> exists|i: int|
                0 <= i < entries.len() && (#[trigger] entries[i]).0 == k && value_entries(
                    entries,
                )[k] == value_model(entries[i].1),
    decreases entries.len(),
{
    if entries.len() > 0 {
        let pre = entries.drop_last();
        lemma_value_entries(pre);
        assert forall|k: Seq<char>| #[trigger] value_entries(entries).dom().contains(k) implies exists|
            i: int,
        |
            0 <= i < entries.len() && (#[trigger] entries[i]).0 == k && value_entries(entries)[k]
                == value_model(entries[i].1) by {
            if k == entries.last().0 {
                assert(entries[entries.len() - 1] == entries.last());
            } else {
                let i = choose|i: int|
                    0 <= i < pre.len() && (#[trigger] pre[i]).0 == k && value_entries(pre)[k]
                        == value_model(pre[i].1);
                assert(pre[i] == entries[i]);
            }
        }
    }
}

/// A document whose numbers are `i64`s or `u64`s becomes a value
/// `serde_json` holds: the same numbers, finitely many members.
pub proof fn lemma_value_model_plain(j: JsonModel)
    requires
        json_plain(j),
    ensures
        value_plain(value_model(j)),
    decreases j,
{
    match j {
        JsonModel::Array(items) => {
            lemma_value_items(items);
            assert forall|i: int| 0 <= i < value_items(items).len() implies value_plain(
                #[trigger] value_items(items)[i],
            ) by {
                lemma_value_model_plain(items[i]);
            }
        },
        JsonModel::Object(entries) => {
            lemma_value_entries(entries);
            assert forall|k: Seq<char>| #[trigger] value_entries(entries).dom().contains(
                k,
            ) implies value_plain(value_entries(entries)[k]) by {
                let i = choose|i: int|
                    0 <= i < entries.len() && (#[trigger] entries[i]).0 == k && value_entries(
                        entries,
                    )[k] == value_model(entries[i].1);
                lemma_value_model_plain(entries[i].1);
            }
        },
        _ => {},
    }
}


proof fn lemma_object_plain1(a: (Seq<char>, JsonModel))
    requires
        json_plain(a.1),
    ensures
        json_plain(JsonModel::Object(seq![a])),
{
    let e = seq![a];
    assert forall|i: int| 0 <= i < e.len() implies json_plain((#[trigger] e[i]).1) by {
        assert(e[0] == a);
    }
}

proof fn lemma_object_plain2(a: (Seq<char>, JsonModel), b: (Seq<char>, JsonModel))
    requires
        json_plain(a.1),
        json_plain(b.1),
    ensures
        json_plain(JsonModel::Object(seq![a, b])),
{
    let e = seq![a, b];
    assert forall|i: int| 0 <= i < e.len() implies json_plain((#[trigger] e[i]).1) by {
        assert(e[0] == a && e[1] == b);
    }
}

proof fn lemma_object_plain3(
    a: (Seq<char>, JsonModel),
    b: (Seq<char>, JsonModel),
    c: (Seq<char>, JsonModel),
)
    requires
        json_plain(a.1),
        json_plain(b.1),
        json_plain(c.1),
    ensures
        json_plain(JsonModel::Object(seq![a, b, c])),
{
    let e = seq![a, b, c];
    assert forall|i: int| 0 <= i < e.len() implies json_plain((#[trigger] e[i]).1) by {
        assert(e[0] == a && e[1] == b && e[2] == c);
    }
}

proof fn lemma_object_plain4(
    a: (Seq<char>, JsonModel),
    b: (Seq<char>, JsonModel),
    c: (Seq<char>, JsonModel),
    d: (Seq<char>, JsonModel),
)
    requires
        json_plain(a.1),
        json_plain(b.1),
        json_plain(c.1),
        json_plain(d.1),
    ensures
        json_plain(JsonModel::Object(seq![a, b, c, d])),
{
    let e = seq![a, b, c, d];
    assert forall|i: int| 0 <= i < e.len() implies json_plain((#[trigger] e[i]).1) by {
        assert(e[0] == a && e[1] == b && e[2] == c && e[3] == d);
    }
}

proof fn lemma_array_plain2(a: JsonModel, b: JsonModel)
    requires
        json_plain(a),
        json_plain(b),
    ensures
        json_plain(JsonModel::Array(seq![a, b])),
{
    let e = seq![a, b];
    assert forall|i: int| 0 <= i < e.len() implies json_plain(#[trigger] e[i]) by {
        assert(e[0] == a && e[1] == b);
    }
}

proof fn lemma_scalar_schemas_plain()
    ensures
        json_plain(int_range(0, 255)),
        json_plain(int_range(0, 65535)),
        json_plain(int_range(0, 4294967295)),
        json_plain(int_range(-128, 127)),
        json_plain(int_range(-32768, 32767)),
        json_plain(int_from(0)),
        json_plain(typed("integer")),
        json_plain(typed("number")),
        json_plain(typed("boolean")),
        json_plain(typed("string")),
        json_plain(typed("null")),
        json_plain(
            JsonModel::Object(
                seq![("type"@, str_of("string")), ("minLength"@, JsonModel::Num(1)), ("maxLength"@, JsonModel::Num(1))],
            ),
        ),
        json_plain(JsonModel::Object(Seq::empty())),
{
    let ty = ("type"@, str_of("integer"));
    lemma_object_plain3(ty, ("minimum"@, JsonModel::Num(0)), ("maximum"@, JsonModel::Num(255)));
    lemma_object_plain3(ty, ("minimum"@, JsonModel::Num(0)), ("maximum"@, JsonModel::Num(65535)));
    lemma_object_plain3(
        ty,
        ("minimum"@, JsonModel::Num(0)),
        ("maximum"@, JsonModel::Num(4294967295)),
    );
    lemma_object_plain3(ty, ("minimum"@, JsonModel::Num(-128)), ("maximum"@, JsonModel::Num(127)));
    lemma_object_plain3(
        ty,
        ("minimum"@, JsonModel::Num(-32768)),
        ("maximum"@, JsonModel::Num(32767)),
    );
    lemma_object_plain2(ty, ("minimum"@, JsonModel::Num(0)));
    lemma_object_plain1(ty);
    lemma_object_plain1(("type"@, str_of("number")));
    lemma_object_plain1(("type"@, str_of("boolean")));
    lemma_object_plain1(("type"@, str_of("string")));
    lemma_object_plain1(("type"@, str_of("null")));
    lemma_object_plain3(
        ("type"@, str_of("string")),
        ("minLength"@, JsonModel::Num(1)),
        ("maxLength"@, JsonModel::Num(1)),
    );
}

proof fn lemma_type_schema_plain(t: Seq<char>)
    ensures
        json_plain(type_schema(t)),
    decreases t.len(),
{
    let s = trimmed(t);
    lemma_scalar_schemas_plain();
    if is_option_text(s) {
        lemma_trimmed_len(t);
        lemma_type_schema_plain(option_inner(s));
        lemma_array_plain2(type_schema(option_inner(s)), typed("null"));
        lemma_object_plain1(
            ("anyOf"@, JsonModel::Array(seq![type_schema(option_inner(s)), typed("null")])),
        );
    }
}

proof fn lemma_obj_insert_plain(
    entries: Seq<(Seq<char>, JsonModel)>,
    key: Seq<char>,
    value: JsonModel,
)
    requires
        forall|i: int| 0 <= i < entries.len() ==> json_plain((#[trigger] entries[i]).1),
        json_plain(value),
    ensures
        forall|i: int|
            0 <= i < obj_insert(entries, key, value).len() ==> json_plain(
                (#[trigger] obj_insert(entries, key, value)[i]).1,
            ),
{
    lemma_key_index(entries, key);
}

proof fn lemma_with_doc_plain(schema: JsonModel, doc: Seq<char>)
    requires
        json_plain(schema),
    ensures
        json_plain(with_doc_model(schema, doc)),
{
    if let JsonModel::Object(entries) = schema {
        lemma_obj_insert_plain(entries, "description"@, JsonModel::Str(doc));
    }
}

proof fn lemma_field_schema_plain(f: FieldSpec)
    ensures
        json_plain(field_schema(f)),
{
    lemma_type_schema_plain(f.ty_name@);
    lemma_with_doc_plain(type_schema(f.ty_name@), f.doc@);
}

proof fn lemma_tuple_items_plain(fs: Seq<FieldSpec>)
    ensures
        tuple_items(fs).len() == fs.len(),
        forall|i: int| 0 <= i < fs.len() ==> json_plain(#[trigger] tuple_items(fs)[i]),
    decreases fs.len(),
{
    if fs.len() > 0 {
        lemma_tuple_items_plain(fs.drop_last());
        lemma_field_schema_plain(fs.last());
    }
}

proof fn lemma_props_plain(fs: Seq<FieldSpec>)
    ensures
        forall|i: int| 0 <= i < props_of(fs).len() ==> json_plain((#[trigger] props_of(fs)[i]).1),
    decreases fs.len(),
{
    if fs.len() > 0 {
        lemma_props_plain(fs.drop_last());
        lemma_field_schema_plain(fs.last());
        lemma_obj_insert_plain(props_of(fs.drop_last()), fs.last().name@, field_schema(fs.last()));
    }
}

proof fn lemma_required_plain(fs: Seq<FieldSpec>)
    ensures
        forall|i: int| 0 <= i < required_of(fs).len() ==> json_plain(#[trigger] required_of(fs)[i]),
    decreases fs.len(),
{
    if fs.len() > 0 {
        let pre = fs.drop_last();
        lemma_required_plain(pre);
        let r = required_of(fs);
        assert forall|i: int| 0 <= i < r.len() implies json_plain(#[trigger] r[i]) by {
            if i < required_of(pre).len() {
                assert(r[i] == required_of(pre)[i]);
            }
        }
    }
}

proof fn lemma_array_schema_plain(items: Seq<JsonModel>)
    requires
        items.len() <= u64::MAX,
        forall|i: int| 0 <= i < items.len() ==> json_plain(#[trigger] items[i]),
    ensures
        json_plain(array_schema(items)),
{
    lemma_object_plain4(
        ("type"@, str_of("array")),
        ("prefixItems"@, JsonModel::Array(items)),
        ("minItems"@, JsonModel::Num(items.len() as int)),
        ("maxItems"@, JsonModel::Num(items.len() as int)),
    );
}

proof fn lemma_object_schema_plain(props: Seq<(Seq<char>, JsonModel)>, required: Seq<JsonModel>)
    requires
        forall|i: int| 0 <= i < props.len() ==> json_plain((#[trigger] props[i]).1),
        forall|i: int| 0 <= i < required.len() ==> json_plain(#[trigger] required[i]),
    ensures
        json_plain(object_schema(props, required)),
{
    lemma_object_plain3(
        ("type"@, str_of("object")),
        ("properties"@, JsonModel::Object(props)),
        ("required"@, JsonModel::Array(required)),
    );
}

proof fn lemma_struct_schema_plain(fs: Seq<FieldSpec>)
    requires
        fs.len() <= u64::MAX,
    ensures
        json_plain(struct_schema(fs)),
{
    lemma_scalar_schemas_plain();
    if fs.len() > 0 {
        if is_tuple_fields(fs) {
            if fs.len() == 1 {
                lemma_field_schema_plain(fs[0]);
            } else {
                lemma_tuple_items_plain(fs);
                lemma_array_schema_plain(tuple_items(fs));
            }
        } else {
            lemma_props_plain(fs);
            lemma_required_plain(fs);
            lemma_object_schema_plain(props_of(fs), required_of(fs));
        }
    }
}

proof fn lemma_payload_plain(ps: Seq<crate::manifest::VariantFieldSpec>)
    ensures
        payload_items(ps).len() == ps.len(),
        forall|i: int| 0 <= i < ps.len() ==> json_plain(#[trigger] payload_items(ps)[i]),
        forall|i: int|
            0 <= i < payload_props(ps).len() ==> json_plain((#[trigger] payload_props(ps)[i]).1),
        forall|i: int|
            0 <= i < payload_required(ps).len() ==> json_plain(#[trigger] payload_required(ps)[i]),
    decreases ps.len(),
{
    if ps.len() > 0 {
        let pre = ps.drop_last();
        lemma_payload_plain(pre);
        lemma_type_schema_plain(ps.last().ty_name@);
        lemma_obj_insert_plain(
            payload_props(pre),
            payload_key(ps.last()),
            type_schema(ps.last().ty_name@),
        );
        let r = payload_required(ps);
        assert forall|i: int| 0 <= i < r.len() implies json_plain(#[trigger] r[i]) by {
            if i < payload_required(pre).len() {
                assert(r[i] == payload_required(pre)[i]);
            }
        }
    }
}

proof fn lemma_tagged_plain(tag: Seq<char>, payload: JsonModel)
    requires
        json_plain(payload),
    ensures
        json_plain(tagged(tag, payload)),
{
    let req = seq![JsonModel::Str(tag)];
    assert forall|i: int| 0 <= i < req.len() implies json_plain(#[trigger] req[i]) by {
        assert(req[0] == JsonModel::Str(tag));
    }
    lemma_object_plain1((tag, payload));
    lemma_object_plain3(
        ("type"@, str_of("object")),
        ("required"@, JsonModel::Array(req)),
        ("properties"@, JsonModel::Object(seq![(tag, payload)])),
    );
}

proof fn lemma_case_plain(v: VariantSpec)
    requires
        v.fields@.len() <= u64::MAX,
    ensures
        json_plain(case_of(v)),
{
    let ps = v.fields@;
    lemma_payload_plain(ps);
    let case = match v.kind {
        VariantKind::Unit => JsonModel::Object(seq![("const"@, JsonModel::Str(v.name@))]),
        VariantKind::Tuple => tagged(
            v.name@,
            if ps.len() == 1 {
                type_schema(ps[0].ty_name@)
            } else {
                array_schema(payload_items(ps))
            },
        ),
        VariantKind::Struct => tagged(
            v.name@,
            object_schema(payload_props(ps), payload_required(ps)),
        ),
    };
    match v.kind {
        VariantKind::Unit => {
            lemma_object_plain1(("const"@, JsonModel::Str(v.name@)));
        },
        VariantKind::Tuple => {
            if ps.len() == 1 {
                lemma_type_schema_plain(ps[0].ty_name@);
                lemma_tagged_plain(v.name@, type_schema(ps[0].ty_name@));
            } else {
                lemma_array_schema_plain(payload_items(ps));
                lemma_tagged_plain(v.name@, array_schema(payload_items(ps)));
            }
        },
        VariantKind::Struct => {
            lemma_object_schema_plain(payload_props(ps), payload_required(ps));
            lemma_tagged_plain(v.name@, object_schema(payload_props(ps), payload_required(ps)));
        },
    }
    assert(json_plain(case));
    lemma_with_doc_plain(case, v.doc@);
}

/// Every list a manifest holds has at most `u64::MAX` entries, as any list
/// in memory has.
pub open spec fn lists_fit(m: Manifest) -> bool {
    &&& m.fields@.len() <= u64::MAX
    &&& forall|k: int|
        0 <= k < m.variants@.len() ==> (#[trigger] m.variants@[k]).fields@.len() <= u64::MAX
}

proof fn lemma_enum_schema_plain(vs: Seq<VariantSpec>)
    requires
        forall|k: int| 0 <= k < vs.len() ==> (#[trigger] vs[k]).fields@.len() <= u64::MAX,
    ensures
        json_plain(enum_schema(vs)),
    decreases vs.len(),
{
    lemma_names_and_cases_plain(vs);
    lemma_object_plain2(("type"@, str_of("string")), ("enum"@, JsonModel::Array(variant_names(vs))));
    lemma_object_plain1(("oneOf"@, JsonModel::Array(cases_of(vs))));
}

proof fn lemma_names_and_cases_plain(vs: Seq<VariantSpec>)
    requires
        forall|k: int| 0 <= k < vs.len() ==> (#[trigger] vs[k]).fields@.len() <= u64::MAX,
    ensures
        variant_names(vs).len() == vs.len(),
        cases_of(vs).len() == vs.len(),
        forall|i: int| 0 <= i < vs.len() ==> json_plain(#[trigger] variant_names(vs)[i]),
        forall|i: int| 0 <= i < vs.len() ==> json_plain(#[trigger] cases_of(vs)[i]),
    decreases vs.len(),
{
    if vs.len() > 0 {
        let pre = vs.drop_last();
        assert forall|k: int| 0 <= k < pre.len() implies (#[trigger] pre[k]).fields@.len()
            <= u64::MAX by {
            assert(pre[k] == vs[k]);
        }
        lemma_names_and_cases_plain(pre);
        assert(vs[vs.len() - 1] == vs.last());
        lemma_case_plain(vs.last());
    }
}

/// Every number in a manifest's schema document is an `i64` or a `u64` and
/// every object in it is finite: it is a value `serde_json` holds, and the
/// text written for it reads back (see [`json_schema_from_string`]).
pub proof fn lemma_document_plain(m: Manifest)
    requires
        lists_fit(m),
    ensures
        json_plain(document(m)),
        value_plain(value_model(document(m))),
{
    let body = if m.variants@.len() == 0 {
        struct_schema(m.fields@)
    } else {
        enum_schema(m.variants@)
    };
    if m.variants@.len() == 0 {
        lemma_struct_schema_plain(m.fields@);
    } else {
        lemma_enum_schema_plain(m.variants@);
    }
    if let JsonModel::Object(e) = body {
        lemma_obj_insert_plain(e, "$schema"@, JsonModel::Str(DRAFT@));
        let e1 = obj_insert(e, "$schema"@, JsonModel::Str(DRAFT@));
        lemma_obj_insert_plain(e1, "title"@, JsonModel::Str(m.ty_name@));
        let e2 = obj_insert(e1, "title"@, JsonModel::Str(m.ty_name@));
        lemma_obj_insert_plain(e2, "description"@, JsonModel::Str(m.doc@));
    }
    lemma_value_model_plain(document(m));
}


/// Read a JSON document back from its text: the value `serde_json` reads, or
/// `None` where the text is not one JSON document. The text
/// [`to_json_schema_string`] gives for a manifest reads back as exactly the
/// value [`to_json_schema`] gives, wherever the document nests within the
/// reader's depth limit.
pub fn json_schema_from_string(text: &str) -> (r: Option<serde_json::Value>)
    ensures
        r matches Some(v) ==> parsed_text(text@) == Some(value_contents(v)),
        r is None <==> parsed_text(text@) is None,
        forall|m: Manifest|
            lists_fit(m) && nests_within(value_model(document(m)), read_depth_limit()) && text@
                == #[trigger] pretty_text(value_model(document(m))) ==> (r matches Some(v)
                && value_contents(v) == value_model(document(m))),
{
    let read = value_from_str(text);
    proof {
        assert forall|m: Manifest|
            lists_fit(m) && nests_within(value_model(document(m)), read_depth_limit()) && text@
                == #[trigger] pretty_text(value_model(document(m))) implies (read matches Ok(v)
                && value_contents(v) == value_model(document(m))) by {
            lemma_document_plain(m);
        }
    }
    match read {
        Ok(v) => Some(v),
        Err(_) => None,
    }
}


/// Whether one member of a schema object lets the integer `n` through: a
/// `type` must name integers or numbers, a `minimum` must not exceed `n`, a
/// `maximum` must not be below it; other members do not speak of integers.
pub open spec fn member_accepts_int(e: (Seq<char>, JsonModel), n: int) -> bool {
    &&& e.0 == "type"@ ==> (e.1 == JsonModel::Str("integer"@) || e.1 == JsonModel::Str("number"@))
    &&& e.0 == "minimum"@ ==> (e.1 matches JsonModel::Num(lo) && lo <= n)
    &&& e.0 == "maximum"@ ==> (e.1 matches JsonModel::Num(hi) && n <= hi)
}

/// Whether the JSON Schema `schema` (an object) accepts the integer `n`.
pub open spec fn accepts_int(schema: JsonModel, n: int) -> bool {
    match schema {
        JsonModel::Object(entries) => forall|i: int|
            0 <= i < entries.len() ==> member_accepts_int(#[trigger] entries[i], n),
        _ => false,
    }
}

proof fn lemma_key_literals()
    ensures
        "type"@ != "minimum"@,
        "type"@ != "maximum"@,
        "minimum"@ != "maximum"@,
        "integer"@ != "number"@,
{
    reveal_strlit("type");
    reveal_strlit("minimum");
    reveal_strlit("maximum");
    reveal_strlit("integer");
    reveal_strlit("number");
    assert("type"@.len() != "minimum"@.len());
    assert("type"@.len() != "maximum"@.len());
    assert("minimum"@[1] != "maximum"@[1]);
    assert("integer"@.len() != "number"@.len());
}

proof fn lemma_accepts_range(lo: int, hi: int, n: int)
    ensures
        accepts_int(int_range(lo, hi), n) <==> lo <= n <= hi,
{
    lemma_key_literals();
    let e = int_range(lo, hi)->Object_0;
    assert(e[0] == ("type"@, str_of("integer")));
    assert(e[1] == ("minimum"@, JsonModel::Num(lo)));
    assert(e[2] == ("maximum"@, JsonModel::Num(hi)));
    if lo <= n <= hi {
        assert forall|i: int| 0 <= i < e.len() implies member_accepts_int(#[trigger] e[i], n) by {}
    } else if n < lo {
        assert(!member_accepts_int(e[1], n));
    } else {
        assert(!member_accepts_int(e[2], n));
    }
}

proof fn lemma_accepts_from(lo: int, n: int)
    ensures
        accepts_int(int_from(lo), n) <==> lo <= n,
{
    lemma_key_literals();
    let e = int_from(lo)->Object_0;
    assert(e[0] == ("type"@, str_of("integer")));
    assert(e[1] == ("minimum"@, JsonModel::Num(lo)));
    if lo <= n {
        assert forall|i: int| 0 <= i < e.len() implies member_accepts_int(#[trigger] e[i], n) by {}
    } else {
        assert(!member_accepts_int(e[1], n));
    }
}

proof fn lemma_accepts_integer(n: int)
    ensures
        accepts_int(typed("integer"), n),
{
    lemma_key_literals();
    let e = typed("integer")->Object_0;
    assert(e[0] == ("type"@, str_of("integer")));
    assert forall|i: int| 0 <= i < e.len() implies member_accepts_int(#[trigger] e[i], n) by {}
}

proof fn lemma_type_names()
    ensures
        !is_option_text("u8"@),
        !is_option_text("u16"@),
        !is_option_text("u32"@),
        !is_option_text("u64"@),
        !is_option_text("u128"@),
        !is_option_text("usize"@),
        !is_option_text("i8"@),
        !is_option_text("i16"@),
        !is_option_text("i32"@),
        !is_option_text("i64"@),
        !is_option_text("i128"@),
        !is_option_text("isize"@),
        "u8"@ != "u16"@,
        "u8"@ != "u32"@,
        "u8"@ != "u64"@,
        "u8"@ != "u128"@,
        "u8"@ != "usize"@,
        "u8"@ != "i8"@,
        "u8"@ != "i16"@,
        "u8"@ != "i32"@,
        "u8"@ != "i64"@,
        "u8"@ != "i128"@,
        "u8"@ != "isize"@,
        "u16"@ != "u32"@,
        "u16"@ != "u64"@,
        "u16"@ != "u128"@,
        "u16"@ != "usize"@,
        "u16"@ != "i8"@,
        "u16"@ != "i16"@,
        "u16"@ != "i32"@,
        "u16"@ != "i64"@,
        "u16"@ != "i128"@,
        "u16"@ != "isize"@,
        "u32"@ != "u64"@,
        "u32"@ != "u128"@,
        "u32"@ != "usize"@,
        "u32"@ != "i8"@,
        "u32"@ != "i16"@,
        "u32"@ != "i32"@,
        "u32"@ != "i64"@,
        "u32"@ != "i128"@,
        "u32"@ != "isize"@,
        "u64"@ != "u128"@,
        "u64"@ != "usize"@,
        "u64"@ != "i8"@,
        "u64"@ != "i16"@,
        "u64"@ != "i32"@,
        "u64"@ != "i64"@,
        "u64"@ != "i128"@,
        "u64"@ != "isize"@,
        "u128"@ != "usize"@,
        "u128"@ != "i8"@,
        "u128"@ != "i16"@,
        "u128"@ != "i32"@,
        "u128"@ != "i64"@,
        "u128"@ != "i128"@,
        "u128"@ != "isize"@,
        "usize"@ != "i8"@,
        "usize"@ != "i16"@,
        "usize"@ != "i32"@,
        "usize"@ != "i64"@,
        "usize"@ != "i128"@,
        "usize"@ != "isize"@,
        "i8"@ != "i16"@,
        "i8"@ != "i32"@,
        "i8"@ != "i64"@,
        "i8"@ != "i128"@,
        "i8"@ != "isize"@,
        "i16"@ != "i32"@,
        "i16"@ != "i64"@,
        "i16"@ != "i128"@,
        "i16"@ != "isize"@,
        "i32"@ != "i64"@,
        "i32"@ != "i128"@,
        "i32"@ != "isize"@,
        "i64"@ != "i128"@,
        "i64"@ != "isize"@,
        "i128"@ != "isize"@,
{
    reveal_strlit("Option<");
    reveal_strlit("u8");
    reveal_strlit("u16");
    reveal_strlit("u32");
    reveal_strlit("u64");
    reveal_strlit("u128");
    reveal_strlit("usize");
    reveal_strlit("i8");
    reveal_strlit("i16");
    reveal_strlit("i32");
    reveal_strlit("i64");
    reveal_strlit("i128");
    reveal_strlit("isize");
    assert("u8"@.len() != "u16"@.len());
    assert("u8"@.len() != "u32"@.len());
    assert("u8"@.len() != "u64"@.len());
    assert("u8"@.len() != "u128"@.len());
    assert("u8"@.len() != "usize"@.len());
    assert("u8"@[0] != "i8"@[0]);
    assert("u8"@.len() != "i16"@.len());
    assert("u8"@.len() != "i32"@.len());
    assert("u8"@.len() != "i64"@.len());
    assert("u8"@.len() != "i128"@.len());
    assert("u8"@.len() != "isize"@.len());
    assert("u16"@[1] != "u32"@[1]);
    assert("u16"@[1] != "u64"@[1]);
    assert("u16"@.len() != "u128"@.len());
    assert("u16"@.len() != "usize"@.len());
    assert("u16"@.len() != "i8"@.len());
    assert("u16"@[0] != "i16"@[0]);
    assert("u16"@[0] != "i32"@[0]);
    assert("u16"@[0] != "i64"@[0]);
    assert("u16"@.len() != "i128"@.len());
    assert("u16"@.len() != "isize"@.len());
    assert("u32"@[1] != "u64"@[1]);
    assert("u32"@.len() != "u128"@.len());
    assert("u32"@.len() != "usize"@.len());
    assert("u32"@.len() != "i8"@.len());
    assert("u32"@[0] != "i16"@[0]);
    assert("u32"@[0] != "i32"@[0]);
    assert("u32"@[0] != "i64"@[0]);
    assert("u32"@.len() != "i128"@.len());
    assert("u32"@.len() != "isize"@.len());
    assert("u64"@.len() != "u128"@.len());
    assert("u64"@.len() != "usize"@.len());
    assert("u64"@.len() != "i8"@.len());
    assert("u64"@[0] != "i16"@[0]);
    assert("u64"@[0] != "i32"@[0]);
    assert("u64"@[0] != "i64"@[0]);
    assert("u64"@.len() != "i128"@.len());
    assert("u64"@.len() != "isize"@.len());
    assert("u128"@.len() != "usize"@.len());
    assert("u128"@.len() != "i8"@.len());
    assert("u128"@.len() != "i16"@.len());
    assert("u128"@.len() != "i32"@.len());
    assert("u128"@.len() != "i64"@.len());
    assert("u128"@[0] != "i128"@[0]);
    assert("u128"@.len() != "isize"@.len());
    assert("usize"@.len() != "i8"@.len());
    assert("usize"@.len() != "i16"@.len());
    assert("usize"@.len() != "i32"@.len());
    assert("usize"@.len() != "i64"@.len());
    assert("usize"@.len() != "i128"@.len());
    assert("usize"@[0] != "isize"@[0]);
    assert("i8"@.len() != "i16"@.len());
    assert("i8"@.len() != "i32"@.len());
    assert("i8"@.len() != "i64"@.len());
    assert("i8"@.len() != "i128"@.len());
    assert("i8"@.len() != "isize"@.len());
    assert("i16"@[1] != "i32"@[1]);
    assert("i16"@[1] != "i64"@[1]);
    assert("i16"@.len() != "i128"@.len());
    assert("i16"@.len() != "isize"@.len());
    assert("i32"@[1] != "i64"@[1]);
    assert("i32"@.len() != "i128"@.len());
    assert("i32"@.len() != "isize"@.len());
    assert("i64"@.len() != "i128"@.len());
    assert("i64"@.len() != "isize"@.len());
    assert("i128"@.len() != "isize"@.len());
    assert(!starts_with("u8"@, "Option<"@));
    assert(!starts_with("u16"@, "Option<"@));
    assert(!starts_with("u32"@, "Option<"@));
    assert(!starts_with("u64"@, "Option<"@));
    assert(!starts_with("u128"@, "Option<"@));
    assert(!starts_with("usize"@, "Option<"@));
    assert(!starts_with("i8"@, "Option<"@));
    assert(!starts_with("i16"@, "Option<"@));
    assert(!starts_with("i32"@, "Option<"@));
    assert(!starts_with("i64"@, "Option<"@));
    assert(!starts_with("i128"@, "Option<"@));
    assert(!starts_with("isize"@, "Option<"@));
}

/// The schema of a Rust integer type accepts exactly the integers the type
/// holds where JSON Schema can bound them: `u8`, `u16`, `u32`, `i8` and
/// `i16` within their range; `u64`, `u128` and `usize` every integer from 0
/// up; and the wide signed types `i32`, `i64`, `i128` and `isize` every
/// integer, negative ones included.
pub proof fn lemma_integer_schemas_accept_their_range(t: Seq<char>, n: int)
    ensures
        trimmed(t) == "u8"@ ==> (accepts_int(type_schema(t), n) <==> 0 <= n <= 255),
        trimmed(t) == "u16"@ ==> (accepts_int(type_schema(t), n) <==> 0 <= n <= 65535),
        trimmed(t) == "u32"@ ==> (accepts_int(type_schema(t), n) <==> 0 <= n <= 4294967295),
        trimmed(t) == "u64"@ || trimmed(t) == "u128"@ || trimmed(t) == "usize"@ ==> (accepts_int(
            type_schema(t),
            n,
        ) <==> 0 <= n),
        trimmed(t) == "i8"@ ==> (accepts_int(type_schema(t), n) <==> -128 <= n <= 127),
        trimmed(t) == "i16"@ ==> (accepts_int(type_schema(t), n) <==> -32768 <= n <= 32767),
        trimmed(t) == "i32"@ || trimmed(t) == "i64"@ || trimmed(t) == "i128"@ || trimmed(t)
            == "isize"@ ==> accepts_int(type_schema(t), n),
{
    lemma_type_names();
    lemma_accepts_range(0, 255, n);
    lemma_accepts_range(0, 65535, n);
    lemma_accepts_range(0, 4294967295, n);
    lemma_accepts_from(0, n);
    lemma_accepts_range(-128, 127, n);
    lemma_accepts_range(-32768, 32767, n);
    lemma_accepts_integer(n);
}


/// `v` is the key of a payload field of `ps` whose type is not `Option<..>`.
pub open spec fn names_required_payload(
    ps: Seq<crate::manifest::VariantFieldSpec>,
    v: JsonModel,
) -> bool {
    exists|k: int|
        0 <= k < ps.len() && !optional_text((#[trigger] ps[k]).ty_name@) && v == JsonModel::Str(
            payload_key(ps[k]),
        )
}

/// A payload's `required` lists exactly its fields whose type is not
/// `Option<..>`, by key.
pub proof fn lemma_payload_required_is_non_optional(ps: Seq<crate::manifest::VariantFieldSpec>)
    ensures
        forall|k: int|
            0 <= k < ps.len() && !optional_text((#[trigger] ps[k]).ty_name@)
                ==> payload_required(ps).contains(JsonModel::Str(payload_key(ps[k]))),
        forall|j: int|
            0 <= j < payload_required(ps).len() ==> names_required_payload(
                ps,
                #[trigger] payload_required(ps)[j],
            ),
    decreases ps.len(),
{
    if ps.len() > 0 {
        let pre = ps.drop_last();
        lemma_payload_required_is_non_optional(pre);
        let r = payload_required(ps);
        let rp = payload_required(pre);
        assert forall|k: int|
            0 <= k < ps.len() && !optional_text((#[trigger] ps[k]).ty_name@) implies r.contains(
                JsonModel::Str(payload_key(ps[k])),
            ) by {
            if k < pre.len() {
                assert(ps[k] == pre[k]);
                let w = choose|w: int|
                    0 <= w < rp.len() && rp[w] == JsonModel::Str(payload_key(pre[k]));
                assert(r[w] == rp[w]);
            } else {
                assert(r[r.len() - 1] == JsonModel::Str(payload_key(ps[k])));
            }
        }
        assert forall|j: int| 0 <= j < r.len() implies names_required_payload(ps, #[trigger] r[j]) by {
            if j < rp.len() {
                assert(r[j] == rp[j]);
                assert(names_required_payload(pre, rp[j]));
                let k = choose|k: int|
                    0 <= k < pre.len() && !optional_text((#[trigger] pre[k]).ty_name@) && rp[j]
                        == JsonModel::Str(payload_key(pre[k]));
                assert(ps[k] == pre[k]);
            } else {
                assert(ps[ps.len() - 1] == ps.last());
            }
        }
    }
}

/// The case of a struct variant is the variant's name tagging an object
/// schema whose `required` lists exactly the payload fields whose type is
/// not `Option<..>`, by key: an optional payload field is never required.
pub proof fn lemma_struct_case_requires_non_optional(v: VariantSpec)
    requires
        v.kind == VariantKind::Struct,
    ensures
        exists|props: Seq<(Seq<char>, JsonModel)>, req: Seq<JsonModel>|
            {
                &&& case_of(v) == with_doc_model(
                    tagged(v.name@, #[trigger] object_schema(props, req)),
                    v.doc@,
                )
                &&& forall|k: int|
                    0 <= k < v.fields@.len() && !optional_text((#[trigger] v.fields@[k]).ty_name@)
                        ==> req.contains(JsonModel::Str(payload_key(v.fields@[k])))
                &&& forall|j: int|
                    0 <= j < req.len() ==> names_required_payload(v.fields@, #[trigger] req[j])
            },
{
    let ps = v.fields@;
    lemma_payload_required_is_non_optional(ps);
    assert(case_of(v) == with_doc_model(
        tagged(v.name@, object_schema(payload_props(ps), payload_required(ps))),
        v.doc@,
    ));
}

} // verus!
