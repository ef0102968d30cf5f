//! Layout/wire compatibility: appending fields keeps a version readable by
//! old code; reordering breaks it.

use ix_schema::manifest::Manifest;
use ix_schema::model::{
    DeriveInput, FieldAttr, FieldInput, FieldLayout, ItemData, LayoutFacts, ReprHint, StructAttr,
    StructModel,
};

fn field(name: &str, ty: &str, attrs: Vec<FieldAttr>) -> FieldInput {
    FieldInput { ident: Some(name.to_string()), doc_lines: vec![], ty: ty.to_string(), attrs }
}

fn publish(ident: &str, attrs: Vec<StructAttr>, fields: Vec<FieldInput>, size: usize, layout: Vec<FieldLayout>, pred: Option<u32>) -> Manifest {
    let input = DeriveInput {
        ident: ident.to_string(),
        doc_lines: vec![],
        ix_attrs: attrs,
        repr: vec![ReprHint::C],
        data: ItemData::Struct(fields),
    };
    let model = StructModel::analyze(&input).expect("accepted");
    let facts = LayoutFacts { size, align: 4, fields: layout, variant_fields: vec![], discriminants: vec![] };
    model.expand("compat", &facts, pred).expect("lowered")
}

fn at(offset: usize, size: usize) -> FieldLayout {
    FieldLayout { offset, size, align: size }
}

fn event_v1() -> Manifest {
    publish("EventV1", vec![], vec![field("id", "u32", vec![]), field("kind", "u16", vec![])], 8, vec![at(0, 4), at(4, 2)], None)
}

#[test]
fn append_only_extension_is_compatible() {
    let v1 = event_v1();
    let v2 = publish(
        "EventV2",
        vec![StructAttr::Version(2), StructAttr::MigrateFrom("EventV1".to_string())],
        vec![
            field("id", "u32", vec![]),
            field("kind", "u16", vec![]),
            field("flags", "u16", vec![FieldAttr::Since(2), FieldAttr::Default("0".to_string())]),
        ],
        8,
        vec![at(0, 4), at(4, 2), at(6, 2)],
        Some(v1.schema_version),
    );
    assert!(v2.extends(&v1));
}

#[test]
fn reordering_breaks_compatibility() {
    let v1 = event_v1();
    let bad = publish("BadEvent", vec![], vec![field("kind", "u16", vec![]), field("id", "u32", vec![])], 8, vec![at(0, 2), at(4, 4)], None);
    assert!(!bad.extends(&v1));
    let broken = bad.extends(&v1);
    assert!(!broken);
}

#[test]
fn retyping_or_resizing_breaks_compatibility_and_extension_chains() {
    let v1 = event_v1();
    let retyped = publish("Retyped", vec![], vec![field("id", "i32", vec![]), field("kind", "u16", vec![])], 8, vec![at(0, 4), at(4, 2)], None);
    assert!(!retyped.extends(&v1));
    let resized = publish("Resized", vec![], vec![field("id", "u32", vec![]), field("kind", "u32", vec![])], 8, vec![at(0, 4), at(4, 4)], None);
    assert!(!resized.extends(&v1));
    let dropped = publish("Dropped", vec![], vec![field("id", "u32", vec![])], 4, vec![at(0, 4)], None);
    assert!(!dropped.extends(&v1));
    // Extension composes along a chain.
    let v2 = publish("V2", vec![], vec![field("id", "u32", vec![]), field("kind", "u16", vec![]), field("f", "u16", vec![])], 8, vec![at(0, 4), at(4, 2), at(6, 2)], None);
    let v3 = publish("V3", vec![], vec![field("id", "u32", vec![]), field("kind", "u16", vec![]), field("f", "u16", vec![]), field("g", "u32", vec![])], 12, vec![at(0, 4), at(4, 2), at(6, 2), at(8, 4)], None);
    assert!(v2.extends(&v1) && v3.extends(&v2) && v3.extends(&v1));
}
