//! JSON Schema documents generated from manifests.

use ix_schema::jsonschema::{
    is_optional, json_schema_from_string, Json, schema_for_type_name, to_json_schema, to_json_schema_string, DRAFT,
};
use ix_schema::manifest::{
    EvolutionSpec, FieldSpec, LayoutSpec, Manifest, Repr, VariantFieldSpec, VariantKind, VariantSpec,
};
use serde_json::Value;

fn spec(name: &str, ty: &str, doc: &str) -> FieldSpec {
    FieldSpec {
        name: name.to_string(),
        doc: doc.to_string(),
        ty_name: ty.to_string(),
        offset: 0,
        size: 0,
        align: 1,
        since: 1,
    }
}

fn manifest(name: &str, doc: &str, fields: Vec<FieldSpec>, variants: Vec<VariantSpec>) -> Manifest {
    Manifest {
        ty_name: name.to_string(),
        doc: doc.to_string(),
        schema_version: 1,
        layout: LayoutSpec { size: 0, align: 1, repr: Repr::C },
        fields,
        variants,
        evolution: EvolutionSpec::genesis(),
    }
}

fn point() -> Manifest {
    manifest(
        "ix_schema_jsonschema::tests::Point",
        "A 2-D point.",
        vec![spec("x", "u32", "horizontal position"), spec("y", "f64", ""), spec("live", "bool", "")],
        vec![],
    )
}

fn json(text: &str) -> Value {
    serde_json::from_str(text).expect("valid JSON")
}

#[test]
fn named_struct_becomes_object_with_bounded_typed_properties() {
    let s = to_json_schema(&point());
    assert_eq!(s["$schema"], DRAFT);
    assert_eq!(s["description"], "A 2-D point.");
    assert_eq!(s["type"], "object");
    assert_eq!(s["properties"]["x"]["type"], "integer");
    assert_eq!(s["properties"]["x"]["minimum"], 0);
    assert_eq!(s["properties"]["x"]["maximum"], 4_294_967_295u64);
    assert_eq!(s["properties"]["x"]["description"], "horizontal position");
    assert_eq!(s["properties"]["y"]["type"], "number");
    assert_eq!(s["properties"]["live"]["type"], "boolean");
    assert_eq!(s["required"], json(r#"["x", "y", "live"]"#));
}

#[test]
fn struct_shapes_match_serde_encoding() {
    assert_eq!(to_json_schema(&manifest("Unit", "", vec![], vec![]))["type"], "null");
    let n = to_json_schema(&manifest("Inches", "", vec![spec("0", "u32", "")], vec![]));
    assert_eq!(n["type"], "integer");
    assert!(n.get("properties").is_none());
    let p = to_json_schema(&manifest("Pair", "", vec![spec("0", "u32", ""), spec("1", "u64", "")], vec![]));
    assert_eq!(p["type"], "array");
    assert_eq!(p["minItems"], 2);
    assert_eq!(p["prefixItems"][1]["type"], "integer");
}

#[test]
fn string_and_char_are_precise() {
    let s = to_json_schema(&manifest("WithText", "", vec![spec("name", "String", ""), spec("initial", "char", "")], vec![]));
    assert_eq!(s["properties"]["name"]["type"], "string");
    assert_eq!(s["properties"]["initial"]["type"], "string");
    assert_eq!(s["properties"]["initial"]["minLength"], 1);
    assert_eq!(s["properties"]["initial"]["maxLength"], 1);
}

#[test]
fn option_field_is_nullable_and_not_required() {
    assert_eq!(
        schema_for_type_name("Option<u32>"),
        json(r#"{ "anyOf": [{ "type": "integer", "minimum": 0, "maximum": 4294967295 }, { "type": "null" }] }"#)
    );
    let s = to_json_schema(&manifest("Opt", "", vec![spec("a", "Option<u32>", ""), spec("b", "u8", "")], vec![]));
    assert_eq!(s["required"], json(r#"["b"]"#));
    assert!(is_optional(" Option<String> "));
    assert!(!is_optional("Vec<Option<u8>>"));
}

#[test]
fn unknown_and_container_types_are_permissive_not_object() {
    assert_eq!(schema_for_type_name("Vec<u32>"), json("{}"));
    assert_eq!(schema_for_type_name("MyNestedStruct"), json("{}"));
    assert_eq!(schema_for_type_name("[u8; 32]"), json("{}"));
}

#[test]
fn primitive_ranges_and_whitespace() {
    assert_eq!(schema_for_type_name(" i8\t"), json(r#"{ "type": "integer", "minimum": -128, "maximum": 127 }"#));
    assert_eq!(schema_for_type_name("i16"), json(r#"{ "type": "integer", "minimum": -32768, "maximum": 32767 }"#));
    assert_eq!(schema_for_type_name("u16"), json(r#"{ "type": "integer", "minimum": 0, "maximum": 65535 }"#));
    assert_eq!(schema_for_type_name("usize"), json(r#"{ "type": "integer", "minimum": 0 }"#));
    assert_eq!(schema_for_type_name("i64"), json(r#"{ "type": "integer" }"#));
    assert_eq!(schema_for_type_name("&str"), json(r#"{ "type": "string" }"#));
    assert_eq!(
        schema_for_type_name("Option<Option<bool>>"),
        json(r#"{ "anyOf": [{ "anyOf": [{ "type": "boolean" }, { "type": "null" }] }, { "type": "null" }] }"#)
    );
    // Without its closing `>` the text is not an `Option`, only optional.
    assert_eq!(schema_for_type_name("Option<u8"), json("{}"));
    assert!(is_optional("Option<u8"));
}

fn variant(name: &str, kind: VariantKind, fields: Vec<(Option<&str>, &str)>) -> VariantSpec {
    VariantSpec {
        name: name.to_string(),
        doc: String::new(),
        discriminant: None,
        kind,
        fields: fields
            .into_iter()
            .map(|(n, t)| VariantFieldSpec { name: n.map(|s| s.to_string()), ty_name: t.to_string(), size: 0, align: 1 })
            .collect(),
    }
}

#[test]
fn fieldless_enum_is_string_enum_but_data_enum_is_tagged_oneof() {
    let mode = manifest("Mode", "", vec![], vec![variant("Idle", VariantKind::Unit, vec![]), variant("Active", VariantKind::Unit, vec![])]);
    let m = to_json_schema(&mode);
    assert_eq!(m["type"], "string");
    assert_eq!(m["enum"], json(r#"["Idle", "Active"]"#));

    let message = manifest(
        "Message",
        "",
        vec![],
        vec![
            variant("Quit", VariantKind::Unit, vec![]),
            variant("Text", VariantKind::Tuple, vec![(None, "String")]),
            variant("Move", VariantKind::Struct, vec![(Some("x"), "u32"), (Some("y"), "u32")]),
        ],
    );
    let msg = to_json_schema(&message);
    let cases = msg["oneOf"].as_array().expect("oneOf array");
    assert_eq!(cases.len(), 3);
    assert_eq!(cases[0]["const"], "Quit");
    assert_eq!(cases[1]["properties"]["Text"]["type"], "string");
    assert_eq!(cases[2]["properties"]["Move"]["properties"]["x"]["type"], "integer");
    assert_eq!(cases[2]["required"], json(r#"["Move"]"#));
    assert_eq!(cases[2]["properties"]["Move"]["required"], json(r#"["x", "y"]"#));
}

#[test]
fn string_output_is_valid_json() {
    let out = to_json_schema_string(&point());
    let parsed: Value = serde_json::from_str(&out).expect("valid JSON");
    assert_eq!(parsed["title"], "ix_schema_jsonschema::tests::Point");
}

#[test]
fn newtype_keeps_field_doc_unless_the_type_is_documented() {
    let bare = to_json_schema(&manifest("Id", "", vec![spec("0", "u64", "the id")], vec![]));
    assert_eq!(bare["description"], "the id");
    let documented = to_json_schema(&manifest("Id", "An identifier.", vec![spec("0", "u64", "the id")], vec![]));
    assert_eq!(documented["description"], "An identifier.");
    assert_eq!(documented["title"], "Id");
}

#[test]
fn tuple_variant_payload_and_positions() {
    let e = manifest(
        "E",
        "",
        vec![],
        vec![variant("Pair", VariantKind::Tuple, vec![(None, "u8"), (None, "Option<i64>")]), variant("Named", VariantKind::Struct, vec![(None, "u8")])],
    );
    let s = to_json_schema(&e);
    let pair = &s["oneOf"][0]["properties"]["Pair"];
    assert_eq!(pair["type"], "array");
    assert_eq!(pair["maxItems"], 2);
    assert_eq!(pair["prefixItems"][1]["anyOf"][1]["type"], "null");
    let named = &s["oneOf"][1]["properties"]["Named"];
    assert_eq!(named["properties"]["_"]["maximum"], 255);
    // Names that do not read as positions 0, 1, ... make an object.
    let s = to_json_schema(&manifest("Odd", "", vec![spec("1", "u8", ""), spec("0", "u8", "")], vec![]));
    assert_eq!(s["type"], "object");
    let s = to_json_schema(&manifest("Plus", "", vec![spec("+0", "u8", ""), spec("01", "u8", "")], vec![]));
    assert_eq!(s["type"], "array");
}

#[test]
fn a_repeated_member_keeps_its_last_value() {
    let doc = Json::Object(vec![
        ("k".to_string(), Json::Int(-1)),
        ("list".to_string(), Json::Array(vec![Json::Null, Json::Bool(true), Json::Nat(7)])),
        ("k".to_string(), Json::Str("last".to_string())),
    ]);
    assert_eq!(doc.to_value(), json(r#"{ "k": "last", "list": [null, true, 7] }"#));
}

#[test]
fn optional_exactly_when_nullable_for_closed_types() {
    for ty in ["Option<u8>", " Option<Option<bool>> ", "Vec<Option<u8>>", "HashMap<String, u8>", "Option<>"] {
        let nullable = schema_for_type_name(ty).get("anyOf").is_some();
        assert_eq!(is_optional(ty), nullable, "{ty}");
    }
}

#[test]
fn string_output_is_the_pretty_value() {
    let m = point();
    let out = to_json_schema_string(&m);
    assert_eq!(out, serde_json::to_string_pretty(&to_json_schema(&m)).unwrap());
    assert!(out.contains('\n'));
}

#[test]
fn schema_string_reads_back_as_the_schema() {
    let m = point();
    let back = json_schema_from_string(&to_json_schema_string(&m));
    assert_eq!(back, Some(to_json_schema(&m)));
    assert_eq!(back.unwrap()["title"], "ix_schema_jsonschema::tests::Point");
    let e = manifest(
        "E",
        "",
        vec![],
        vec![variant("A", VariantKind::Unit, vec![]), variant("B", VariantKind::Tuple, vec![(None, "Option<i8>")])],
    );
    assert_eq!(json_schema_from_string(&to_json_schema_string(&e)), Some(to_json_schema(&e)));
}

#[test]
fn text_that_is_not_json_reads_as_none() {
    assert_eq!(json_schema_from_string("{ \"type\": "), None);
    assert_eq!(json_schema_from_string("[1, 2] 3"), None);
    assert_eq!(json_schema_from_string(" 42 "), Some(Value::from(42u64)));
}
