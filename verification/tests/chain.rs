//! Multi-hop migration: a v1 → v2 → v3 chain where the oldest version is
//! brought to the newest in one call.

use ix_schema::manifest::Manifest;
use ix_schema::migrate::{upgrade_one, upgrade_two, MigrateFrom, Upgrade};
use ix_schema::model::{
    field_init, DeriveInput, FieldAttr, FieldInit, FieldInput, FieldLayout, ItemData, LayoutFacts,
    ReprHint, StructAttr, StructModel,
};

struct DocV1 {
    id: u32,
}

struct DocV2 {
    id: u32,
    revision: u16,
}

struct DocV3 {
    id: u32,
    revision: u16,
    archived: bool,
}

// The edges the derive generates from the declarations in `declarations()`.
impl MigrateFrom<DocV1> for DocV2 {
    fn migrate_from(prev: DocV1) -> Self {
        DocV2 { id: prev.id, revision: 1 }
    }
}

impl MigrateFrom<DocV2> for DocV3 {
    fn migrate_from(prev: DocV2) -> Self {
        DocV3 { id: prev.id, revision: prev.revision, archived: true }
    }
}

// The transitive closure of upgrades across the chain.
impl Upgrade<DocV2> for DocV1 {
    fn upgrade(self) -> DocV2 {
        upgrade_one(self)
    }
}

impl Upgrade<DocV3> for DocV2 {
    fn upgrade(self) -> DocV3 {
        upgrade_one(self)
    }
}

impl Upgrade<DocV3> for DocV1 {
    fn upgrade(self) -> DocV3 {
        upgrade_two::<DocV1, DocV2, DocV3>(self)
    }
}

fn field(name: &str, ty: &str, attrs: Vec<FieldAttr>) -> FieldInput {
    FieldInput { ident: Some(name.to_string()), doc_lines: vec![], ty: ty.to_string(), attrs }
}

fn model(ident: &str, attrs: Vec<StructAttr>, fields: Vec<FieldInput>) -> StructModel {
    StructModel::analyze(&DeriveInput {
        ident: ident.to_string(),
        doc_lines: vec![],
        ix_attrs: attrs,
        repr: vec![ReprHint::C],
        data: ItemData::Struct(fields),
    })
    .expect("accepted")
}

fn declarations() -> (StructModel, StructModel, StructModel) {
    let v1 = model("DocV1", vec![], vec![field("id", "u32", vec![])]);
    let v2 = model(
        "DocV2",
        vec![StructAttr::Version(2), StructAttr::MigrateFrom("DocV1".to_string())],
        vec![
            field("id", "u32", vec![]),
            field("revision", "u16", vec![FieldAttr::Since(2), FieldAttr::Default("1".to_string())]),
        ],
    );
    let v3 = model(
        "DocV3",
        vec![StructAttr::Version(3), StructAttr::MigrateFrom("DocV2".to_string())],
        vec![
            field("id", "u32", vec![]),
            field("revision", "u16", vec![]),
            field("archived", "bool", vec![FieldAttr::Since(3), FieldAttr::Default("true".to_string())]),
        ],
    );
    (v1, v2, v3)
}

fn publish(m: &StructModel, size: usize, layout: Vec<FieldLayout>, pred: Option<u32>) -> Manifest {
    let facts = LayoutFacts { size, align: 4, fields: layout, variant_fields: vec![], discriminants: vec![] };
    m.expand("chain", &facts, pred).expect("lowered")
}

fn at(offset: usize, size: usize) -> FieldLayout {
    FieldLayout { offset, size, align: size }
}

#[test]
fn single_hops_are_available() {
    let (_, v2, v3) = declarations();
    assert_eq!(field_init(&v2.fields[0]), FieldInit::Carried);
    assert_eq!(field_init(&v2.fields[1]), FieldInit::Default("1".to_string()));
    assert_eq!(field_init(&v3.fields[2]), FieldInit::Default("true".to_string()));

    let two: DocV2 = DocV1 { id: 10 }.upgrade();
    assert_eq!(two.id, 10);
    assert_eq!(two.revision, 1);

    let three: DocV3 = DocV2 { id: 20, revision: 5 }.upgrade();
    assert_eq!(three.id, 20);
    assert_eq!(three.revision, 5);
    assert!(three.archived);
}

#[test]
fn oldest_upgrades_directly_to_newest() {
    let three: DocV3 = DocV1 { id: 7 }.upgrade();
    assert_eq!(three.id, 7);
    assert_eq!(three.revision, 1);
    assert!(three.archived);
}

#[test]
fn manifest_chain_records_each_predecessor() {
    let (v1, v2, v3) = declarations();
    let m1 = publish(&v1, 4, vec![at(0, 4)], None);
    let m2 = publish(&v2, 8, vec![at(0, 4), at(4, 2)], Some(m1.schema_version));
    let m3 = publish(&v3, 8, vec![at(0, 4), at(4, 2), at(6, 1)], Some(m2.schema_version));
    assert_eq!(m1.evolution.migrates_from, None);
    assert_eq!(m2.evolution.migrates_from, Some(1));
    assert_eq!(m3.evolution.migrates_from, Some(2));
}

#[test]
fn migrating_from_a_newer_version_is_refused() {
    let (_, v2, _) = declarations();
    let facts = LayoutFacts { size: 8, align: 4, fields: vec![at(0, 4), at(4, 2)], variant_fields: vec![], discriminants: vec![] };
    let err = v2.expand("chain", &facts, Some(2)).unwrap_err();
    assert_eq!(err, ix_schema::model::DeriveError::PredecessorNotOlder { predecessor: 2, version: 2 });
    assert_eq!(err.message(), "ix-schema: `migrate_from` target must be an older schema version");
}
