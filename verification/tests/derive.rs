//! The manifest a declaration publishes: what the derive reads off a
//! declaration, validates, and lowers given the compiler's layout figures.

use ix_schema::driver::{Driver, ZerocopyDriver};
use ix_schema::manifest::{Manifest, Repr};
use ix_schema::model::{
    DeriveError, DeriveInput, FieldAttr, FieldInput, FieldLayout, ItemData, LayoutFacts,
    ReprHint, StructAttr, StructModel,
};
use std::mem::{align_of, size_of};

fn field(name: &str, ty: &str, attrs: Vec<FieldAttr>) -> FieldInput {
    FieldInput {
        ident: Some(name.to_string()),
        doc_lines: vec![],
        ty: ty.to_string(),
        attrs,
    }
}

fn at(offset: usize, size: usize, align: usize) -> FieldLayout {
    FieldLayout { offset, size, align }
}

fn declaration(ident: &str, attrs: Vec<StructAttr>, fields: Vec<FieldInput>) -> DeriveInput {
    DeriveInput {
        ident: ident.to_string(),
        doc_lines: vec![],
        ix_attrs: attrs,
        repr: vec![ReprHint::C],
        data: ItemData::Struct(fields),
    }
}

fn publish(input: &DeriveInput, size: usize, align: usize, layout: Vec<FieldLayout>) -> Manifest {
    let model = StructModel::analyze(input).expect("accepted");
    let facts = LayoutFacts {
        size,
        align,
        fields: layout,
        variant_fields: vec![],
        discriminants: vec![],
    };
    model.expand("derive", &facts, None).expect("lowered")
}

/// `#[repr(C)] struct Packet { id: u32, kind: u16, flag: u8 }`.
fn packet() -> Manifest {
    let input = declaration(
        "Packet",
        vec![],
        vec![
            field("id", "u32", vec![]),
            field("kind", "u16", vec![]),
            field("flag", "u8", vec![]),
        ],
    );
    publish(
        &input,
        8,
        4,
        vec![
            at(0, size_of::<u32>(), align_of::<u32>()),
            at(4, size_of::<u16>(), align_of::<u16>()),
            at(6, size_of::<u8>(), align_of::<u8>()),
        ],
    )
}

#[test]
fn derive_emits_manifest_for_named_struct() {
    let m = packet();
    assert_eq!(m.schema_version, 1);
    assert_eq!(m.layout.repr, Repr::C);
    assert_eq!(m.fields.len(), 3);
    assert_eq!(m.fields[0].name, "id");
    assert_eq!(m.fields[1].name, "kind");
    assert_eq!(m.fields[2].name, "flag");
    assert!(m.ty_name.ends_with("::Packet"));
}

#[test]
fn derive_offsets_track_real_layout() {
    let m = packet();
    assert_eq!(m.fields[0].offset, 0);
    assert_eq!(m.fields[1].offset, 4);
    assert_eq!(m.fields[2].offset, 6);
    assert_eq!(m.packed_field_bytes(), 7);
}

#[test]
fn version_attribute_is_honoured() {
    let input = declaration("Versioned", vec![StructAttr::Version(3)], vec![field("x", "u64", vec![])]);
    let m = publish(&input, 8, 8, vec![at(0, 8, 8)]);
    assert_eq!(m.schema_version, 3);
}

#[test]
fn since_attribute_records_field_origin() {
    let input = declaration(
        "Grown",
        vec![StructAttr::Version(2)],
        vec![
            field("original", "u32", vec![]),
            field("added", "u32", vec![FieldAttr::Since(2)]),
        ],
    );
    let m = publish(&input, 8, 4, vec![at(0, 4, 4), at(4, 4, 4)]);
    assert_eq!(m.fields[0].since, 1);
    assert_eq!(m.fields[1].since, 2);
}

#[test]
fn driver_accepts_dense_rejects_padded() {
    let dense = publish(
        &declaration("Dense", vec![], vec![field("a", "u32", vec![]), field("b", "u32", vec![])]),
        8,
        4,
        vec![at(0, 4, 4), at(4, 4, 4)],
    );
    let packet = packet();
    assert!(<ZerocopyDriver as Driver>::supports(&dense));
    assert!(!<ZerocopyDriver as Driver>::supports(&packet));
    assert!(dense.is_gap_free());
    assert_eq!(packet.padding_bytes(), 1);
}

#[test]
fn rust_repr_is_not_zerocopy_supported_even_when_dense() {
    let mut input = declaration("Loose", vec![], vec![field("a", "u32", vec![])]);
    input.repr = vec![];
    let m = publish(&input, 4, 4, vec![at(0, 4, 4)]);
    assert_eq!(m.layout.repr, Repr::Rust);
    assert!(m.is_gap_free());
    assert!(!<ZerocopyDriver as Driver>::supports(&m));
}

#[test]
fn since_after_version_is_refused() {
    let input = declaration("Early", vec![], vec![field("late", "u8", vec![FieldAttr::Since(2)])]);
    let err = StructModel::analyze(&input).unwrap_err();
    assert_eq!(err, DeriveError::SinceAfterVersion { since: 2, version: 1 });
    assert_eq!(
        err.message(),
        "field declares `since = 2` but the struct is only version 1"
    );
    assert_eq!(
        err.help().as_deref(),
        Some("raise the struct's `#[ix(version = ..)]` or lower `since`")
    );
}

#[test]
fn duplicate_and_unknown_keys_are_refused() {
    let dup = declaration(
        "Dup",
        vec![],
        vec![field("a", "u8", vec![FieldAttr::Since(1), FieldAttr::Since(1)])],
    );
    assert_eq!(StructModel::analyze(&dup).unwrap_err(), DeriveError::DuplicateKey);
    let dup_version = declaration("DupV", vec![StructAttr::Version(1), StructAttr::Version(2)], vec![]);
    assert_eq!(StructModel::analyze(&dup_version).unwrap_err(), DeriveError::DuplicateKey);
    let unknown_field = declaration("Uf", vec![], vec![field("a", "u8", vec![FieldAttr::Unknown])]);
    let err = StructModel::analyze(&unknown_field).unwrap_err();
    assert_eq!(err, DeriveError::UnknownFieldAttribute);
    assert_eq!(
        err.message(),
        "unknown field attribute; expected `since`, `default`, `with` or `rename_from`"
    );
    let unknown_struct = declaration("Us", vec![StructAttr::Unknown], vec![]);
    let err = StructModel::analyze(&unknown_struct).unwrap_err();
    assert_eq!(err, DeriveError::UnknownStructAttribute);
    assert_eq!(
        err.message(),
        "unknown struct attribute; expected `version`, `migrate_from` or `removed`"
    );
    assert_eq!(err.help(), None);
}

#[test]
fn union_is_refused() {
    let input = DeriveInput {
        ident: "U".to_string(),
        doc_lines: vec![],
        ix_attrs: vec![],
        repr: vec![],
        data: ItemData::Union,
    };
    let err = StructModel::analyze(&input).unwrap_err();
    assert_eq!(err, DeriveError::Union);
    assert_eq!(err.message(), "`#[derive(Ix)]` supports structs and enums, not unions");
}

#[test]
fn packed_repr_defaults_to_one() {
    let mut input = declaration("P", vec![], vec![field("a", "u8", vec![])]);
    input.repr = vec![ReprHint::C, ReprHint::Other, ReprHint::Packed(None)];
    assert_eq!(StructModel::analyze(&input).unwrap().repr, Repr::Packed(1));
    input.repr = vec![ReprHint::Packed(Some(4)), ReprHint::Transparent];
    assert_eq!(StructModel::analyze(&input).unwrap().repr, Repr::Transparent);
    input.repr = vec![ReprHint::Other];
    assert_eq!(StructModel::analyze(&input).unwrap().repr, Repr::Rust);
}
