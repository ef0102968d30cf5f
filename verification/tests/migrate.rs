//! A v1 → v2 migration expressed through `#[ix(..)]` attributes.

use ix_schema::manifest::FieldChange;
use ix_schema::migrate::MigrateFrom;
use ix_schema::model::{
    field_change, field_init, DeriveInput, FieldAttr, FieldInit, FieldInput, FieldLayout, ItemData,
    LayoutFacts, ReprHint, StructAttr, StructModel,
};

fn field(name: &str, ty: &str, attrs: Vec<FieldAttr>) -> FieldInput {
    FieldInput { ident: Some(name.to_string()), doc_lines: vec![], ty: ty.to_string(), attrs }
}

fn model(ident: &str, attrs: Vec<StructAttr>, fields: Vec<FieldInput>) -> StructModel {
    StructModel::analyze(&DeriveInput {
        ident: ident.to_string(),
        doc_lines: vec![],
        ix_attrs: attrs,
        repr: vec![ReprHint::C],
        data: ItemData::Struct(fields),
    })
    .expect("accepted")
}

fn at(offset: usize, size: usize) -> FieldLayout {
    FieldLayout { offset, size, align: size }
}

fn user_v2() -> StructModel {
    model(
        "UserV2",
        vec![StructAttr::Version(2), StructAttr::MigrateFrom("UserV1".to_string())],
        vec![
            field("id", "u32", vec![]),
            field("name_length", "u16", vec![FieldAttr::RenameFrom("name_len".to_string())]),
            field("schema_revision", "u8", vec![FieldAttr::Since(2), FieldAttr::Default("1".to_string())]),
            field("verified", "bool", vec![FieldAttr::Since(2), FieldAttr::Default("false".to_string())]),
        ],
    )
}

struct UserV1 {
    id: u32,
    name_len: u16,
}

struct UserV2 {
    id: u32,
    name_length: u16,
    schema_revision: u8,
    verified: bool,
}

// The edge the derive generates from `user_v2()`'s plan.
impl MigrateFrom<UserV1> for UserV2 {
    fn migrate_from(prev: UserV1) -> Self {
        UserV2 { id: prev.id, name_length: prev.name_len, schema_revision: 1, verified: false }
    }
}

#[test]
fn migrate_lifts_v1_into_v2() {
    let plan: Vec<FieldInit> = user_v2().fields.iter().map(field_init).collect();
    assert_eq!(
        plan,
        vec![
            FieldInit::Carried,
            FieldInit::Renamed("name_len".to_string()),
            FieldInit::Default("1".to_string()),
            FieldInit::Default("false".to_string()),
        ]
    );
    let v2 = UserV2::migrate_from(UserV1 { id: 42, name_len: 7 });
    assert_eq!(v2.id, 42);
    assert_eq!(v2.name_length, 7);
    assert_eq!(v2.schema_revision, 1);
    assert!(!v2.verified);
}

#[test]
fn manifest_records_the_evolution() {
    let facts = LayoutFacts { size: 8, align: 4, fields: vec![at(0, 4), at(4, 2), at(6, 1), at(7, 1)], variant_fields: vec![], discriminants: vec![] };
    let m = user_v2().expand("migrate", &facts, Some(1)).expect("lowered");
    assert_eq!(m.schema_version, 2);
    assert_eq!(m.evolution.migrates_from, Some(1));
    let changes = m.evolution.changes;
    assert!(changes.contains(&FieldChange::Renamed { from: "name_len".to_string(), to: "name_length".to_string() }));
    assert!(changes.contains(&FieldChange::Added { name: "schema_revision".to_string() }));
    assert!(changes.contains(&FieldChange::Added { name: "verified".to_string() }));
    assert_eq!(changes.len(), 3);
}

fn widen(n: u16) -> u32 {
    u32::from(n)
}

struct TicksV1 {
    ticks: u16,
}

struct TicksV2 {
    ticks: u32,
}

impl MigrateFrom<TicksV1> for TicksV2 {
    fn migrate_from(prev: TicksV1) -> Self {
        TicksV2 { ticks: widen(prev.ticks) }
    }
}

#[test]
fn with_function_transforms_a_field() {
    let m = model(
        "CounterV2",
        vec![StructAttr::Version(2), StructAttr::MigrateFrom("CounterV1".to_string())],
        vec![field("ticks", "u32", vec![FieldAttr::With("widen".to_string())])],
    );
    assert_eq!(field_init(&m.fields[0]), FieldInit::With("widen".to_string()));
    let v2 = TicksV2::migrate_from(TicksV1 { ticks: 300 });
    assert_eq!(v2.ticks, 300u32);
    let facts = LayoutFacts { size: 4, align: 4, fields: vec![at(0, 4)], variant_fields: vec![], discriminants: vec![] };
    let published = m.expand("migrate", &facts, Some(1)).expect("lowered");
    assert!(published.evolution.changes.contains(&FieldChange::Transformed { name: "ticks".to_string() }));
}

#[test]
fn a_carried_field_records_nothing() {
    let m = user_v2();
    assert_eq!(field_change(&m.fields[0]), None);
    assert_eq!(field_init(&m.fields[0]), FieldInit::Carried);
    // `with` takes precedence over `default` in the record, `default` in the plan.
    let both = model(
        "Both",
        vec![StructAttr::Version(2), StructAttr::MigrateFrom("Prev".to_string())],
        vec![field("x", "u8", vec![FieldAttr::With("f".to_string()), FieldAttr::Default("3".to_string())])],
    );
    assert_eq!(field_change(&both.fields[0]), Some(FieldChange::Transformed { name: "x".to_string() }));
    assert_eq!(field_init(&both.fields[0]), FieldInit::Default("3".to_string()));
}
