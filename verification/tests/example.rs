//! The manifest of a range of declarations: documented types, tuple and unit
//! structs, fieldless and data-carrying enums, nested padding, and field-name
//! stability under `extends`.

use ix_schema::manifest::{Manifest, VariantKind};
use ix_schema::migrate::MigrateFrom;
use ix_schema::model::{
    field_init, DeriveInput, FieldAttr, FieldInit, FieldInput, FieldLayout, ItemData, LayoutFacts,
    ReprHint, SlotLayout, StructAttr, StructModel, VariantFieldModel, VariantInput, VariantShape,
};

fn field(name: Option<&str>, ty: &str, doc: &[&str], attrs: Vec<FieldAttr>) -> FieldInput {
    FieldInput {
        ident: name.map(|n| n.to_string()),
        doc_lines: doc.iter().map(|d| d.to_string()).collect(),
        ty: ty.to_string(),
        attrs,
    }
}

fn at(offset: usize, size: usize, align: usize) -> FieldLayout {
    FieldLayout { offset, size, align }
}

fn struct_input(ident: &str, doc: &[&str], attrs: Vec<StructAttr>, fields: Vec<FieldInput>) -> DeriveInput {
    DeriveInput {
        ident: ident.to_string(),
        doc_lines: doc.iter().map(|d| d.to_string()).collect(),
        ix_attrs: attrs,
        repr: vec![ReprHint::C],
        data: ItemData::Struct(fields),
    }
}

fn publish_struct(input: &DeriveInput, size: usize, align: usize, layout: Vec<FieldLayout>, pred: Option<u32>) -> Manifest {
    let model = StructModel::analyze(input).expect("accepted");
    let facts = LayoutFacts { size, align, fields: layout, variant_fields: vec![], discriminants: vec![] };
    model.expand("example", &facts, pred).expect("lowered")
}

fn variant(ident: &str, doc: &[&str], kind: VariantShape, fields: Vec<(Option<&str>, &str)>) -> VariantInput {
    VariantInput {
        ident: ident.to_string(),
        doc_lines: doc.iter().map(|d| d.to_string()).collect(),
        kind,
        fields: fields
            .into_iter()
            .map(|(n, t)| VariantFieldModel { name: n.map(|s| s.to_string()), ty: t.to_string() })
            .collect(),
    }
}

fn publish_enum(
    ident: &str,
    doc: &[&str],
    variants: Vec<VariantInput>,
    size: usize,
    slots: Vec<Vec<SlotLayout>>,
    discriminants: Vec<i64>,
) -> Manifest {
    let input = DeriveInput {
        ident: ident.to_string(),
        doc_lines: doc.iter().map(|d| d.to_string()).collect(),
        ix_attrs: vec![],
        repr: vec![ReprHint::Other],
        data: ItemData::Enum(variants),
    };
    let model = StructModel::analyze(&input).expect("accepted");
    let facts = LayoutFacts { size, align: size.max(1), fields: vec![], variant_fields: slots, discriminants };
    model.expand("example", &facts, None).expect("lowered")
}

#[test]
fn doc_comments_are_captured_into_the_manifest() {
    let documented = publish_struct(
        &struct_input(
            "Documented",
            &[" A documented reading."],
            vec![],
            vec![field(Some("id"), "u32", &[" the unique id"], vec![])],
        ),
        4,
        4,
        vec![at(0, 4, 4)],
        None,
    );
    assert_eq!(documented.doc, "A documented reading.");
    assert_eq!(documented.fields[0].doc, "the unique id");

    let doc_mode = publish_enum(
        "DocMode",
        &[" modes of operation"],
        vec![variant("Idle", &[" the idle state"], VariantShape::Unit, vec![])],
        1,
        vec![vec![]],
        vec![0],
    );
    assert_eq!(doc_mode.doc, "modes of operation");
    assert_eq!(doc_mode.variants[0].doc, "the idle state");
}

#[test]
fn multi_line_docs_are_trimmed_and_joined() {
    let m = publish_struct(
        &struct_input("Doc", &["  first line\t", "", " second line\u{3000}"], vec![], vec![]),
        0,
        1,
        vec![],
        None,
    );
    assert_eq!(m.doc, "first line\n\nsecond line");
}

#[test]
fn tuple_and_unit_structs_reflect() {
    let pair = publish_struct(
        &struct_input("Pair", &[], vec![], vec![field(None, "u32", &[], vec![]), field(None, "u64", &[], vec![])]),
        16,
        8,
        vec![at(0, 4, 4), at(8, 8, 8)],
        None,
    );
    assert_eq!(pair.fields.len(), 2);
    assert_eq!(pair.fields[0].name, "0");
    assert_eq!(pair.fields[0].offset, 0);
    assert_eq!(pair.fields[1].name, "1");
    assert_eq!(pair.fields[1].ty_name, "u64");
    assert_eq!(pair.fields[1].offset, 8);

    let marker = publish_struct(&struct_input("Marker", &[], vec![], vec![]), 0, 1, vec![], None);
    assert!(marker.fields.is_empty());
    assert!(marker.variants.is_empty());
}

#[test]
fn fieldless_enum_manifest_records_variants() {
    let m = publish_enum(
        "Mode",
        &[],
        vec![
            variant("Idle", &[], VariantShape::Unit, vec![]),
            variant("Active", &[], VariantShape::Unit, vec![]),
            variant("Faulted", &[], VariantShape::Unit, vec![]),
        ],
        1,
        vec![vec![], vec![], vec![]],
        vec![0, 5, 6],
    );
    assert!(m.fields.is_empty());
    assert_eq!(m.variants.len(), 3);
    assert!(m.variants.iter().all(|v| v.kind == VariantKind::Unit));
    assert!(m.variants.iter().all(|v| v.fields.is_empty()));
    assert_eq!(m.variants[0].name, "Idle");
    assert_eq!(m.variants[0].discriminant, Some(0));
    assert_eq!(m.variants[1].name, "Active");
    assert_eq!(m.variants[1].discriminant, Some(5));
    assert_eq!(m.variants[2].name, "Faulted");
    assert_eq!(m.variants[2].discriminant, Some(6));
}

#[test]
fn data_carrying_enum_records_variant_payloads() {
    let m = publish_enum(
        "Shape",
        &[],
        vec![
            variant("Empty", &[], VariantShape::Unit, vec![]),
            variant("Circle", &[], VariantShape::Tuple, vec![(None, "f64")]),
            variant("Rect", &[], VariantShape::Struct, vec![(Some("w"), "u32"), (Some("h"), "u32")]),
        ],
        16,
        vec![
            vec![],
            vec![SlotLayout { size: 8, align: 8 }],
            vec![SlotLayout { size: 4, align: 4 }, SlotLayout { size: 4, align: 4 }],
        ],
        vec![0, 1, 2],
    );
    assert_eq!(m.variants.len(), 3);
    assert!(m.variants.iter().all(|v| v.discriminant.is_none()));
    assert_eq!(m.variants[0].name, "Empty");
    assert_eq!(m.variants[0].kind, VariantKind::Unit);
    assert!(m.variants[0].fields.is_empty());
    assert_eq!(m.variants[1].kind, VariantKind::Tuple);
    assert_eq!(m.variants[1].fields.len(), 1);
    assert_eq!(m.variants[1].fields[0].name, None);
    assert_eq!(m.variants[1].fields[0].ty_name, "f64");
    assert_eq!(m.variants[1].fields[0].size, 8);
    assert_eq!(m.variants[2].kind, VariantKind::Struct);
    assert_eq!(m.variants[2].fields.len(), 2);
    assert_eq!(m.variants[2].fields[0].name.as_deref(), Some("w"));
    assert_eq!(m.variants[2].fields[1].name.as_deref(), Some("h"));
    assert_eq!(m.variants[2].fields[1].ty_name, "u32");
}

#[derive(Debug, PartialEq)]
struct CounterV1(u32);

#[derive(Debug, PartialEq)]
struct CounterV2(u32, u8);

// The edge the derive generates for `CounterV2(u32, #[ix(since = 2, default = 7)] u8)`:
// position 0 is carried, position 1 takes its default.
impl MigrateFrom<CounterV1> for CounterV2 {
    fn migrate_from(prev: CounterV1) -> Self {
        CounterV2(prev.0, 7)
    }
}

#[test]
fn tuple_struct_migration_carries_positions() {
    let v1 = struct_input("CounterV1", &[], vec![], vec![field(None, "u32", &[], vec![])]);
    let v1m = publish_struct(&v1, 4, 4, vec![at(0, 4, 4)], None);
    let v2 = struct_input(
        "CounterV2",
        &[],
        vec![StructAttr::Version(2), StructAttr::MigrateFrom("CounterV1".to_string())],
        vec![
            field(None, "u32", &[], vec![]),
            field(None, "u8", &[], vec![FieldAttr::Since(2), FieldAttr::Default("7".to_string())]),
        ],
    );
    let model = StructModel::analyze(&v2).expect("accepted");
    assert_eq!(field_init(&model.fields[0]), FieldInit::Carried);
    assert_eq!(field_init(&model.fields[1]), FieldInit::Default("7".to_string()));
    let v2m = publish_struct(&v2, 8, 4, vec![at(0, 4, 4), at(4, 1, 1)], Some(v1m.schema_version));

    let lifted = CounterV2::migrate_from(CounterV1(42));
    assert_eq!(lifted.0, 42);
    assert_eq!(lifted.1, 7);
    assert_eq!(v2m.evolution.migrates_from, Some(1));
}

fn padded() -> Manifest {
    publish_struct(
        &struct_input("Padded", &[], vec![], vec![field(Some("a"), "u32", &[], vec![]), field(Some("b"), "u8", &[], vec![])]),
        8,
        4,
        vec![at(0, 4, 4), at(4, 1, 1)],
        None,
    )
}

#[test]
fn is_gap_free_is_top_level_only() {
    let padded = padded();
    assert!(!padded.is_gap_free());
    assert_eq!(padded.padding_bytes(), 3);
    let wraps = publish_struct(
        &struct_input("WrapsPadded", &[], vec![], vec![field(Some("inner"), "Padded", &[], vec![])]),
        8,
        4,
        vec![at(0, 8, 4)],
        None,
    );
    assert!(wraps.is_gap_free());
    assert_eq!(wraps.padding_bytes(), 0);
}

#[test]
fn fields_that_overflow_the_type_are_not_well_formed() {
    let mut m = padded();
    assert!(m.fields_fit());
    m.layout.size = 4;
    assert!(!m.fields_fit());
    m.layout.size = 5;
    assert!(m.fields_fit());
    assert!(m.is_gap_free());
}

#[test]
fn extends_requires_field_name_stability() {
    let count = publish_struct(
        &struct_input("CountV1", &[], vec![], vec![field(Some("count"), "u32", &[], vec![])]),
        4,
        4,
        vec![at(0, 4, 4)],
        None,
    );
    let renamed = publish_struct(
        &struct_input("CountRenamed", &[], vec![], vec![field(Some("total"), "u32", &[], vec![])]),
        4,
        4,
        vec![at(0, 4, 4)],
        None,
    );
    assert!(!renamed.extends(&count));
    assert!(count.extends(&count));
}
