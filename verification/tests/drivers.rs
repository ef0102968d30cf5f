//! The drivers' capability gates and the version-tagged envelope.

use ix_schema::driver::{Driver, Envelope, VersionMismatch, ZerocopyDriver};
use ix_schema::manifest::{EvolutionSpec, FieldSpec, LayoutSpec, Manifest, Repr};
use ix_schema::postcard_driver::{self, PostcardDriver, PostcardError};
use ix_schema::serde_driver::{self, SerdeDriver, SerdeError};
use ix_schema::toml_driver::{self, TomlDriver, TomlError};

fn point(version: u32, repr: Repr, size: usize) -> Manifest {
    let field = |name: &str, offset: usize| FieldSpec {
        name: name.to_string(),
        doc: String::new(),
        ty_name: "u32".to_string(),
        offset,
        size: 4,
        align: 4,
        since: 1,
    };
    Manifest {
        ty_name: "tests::Point".to_string(),
        doc: String::new(),
        schema_version: version,
        layout: LayoutSpec { size, align: 4, repr },
        fields: vec![field("x", 0), field("y", 4)],
        variants: vec![],
        evolution: EvolutionSpec::genesis(),
    }
}

#[test]
fn driver_supports_dense_repr_c() {
    assert!(<ZerocopyDriver as Driver>::supports(&point(1, Repr::C, 8)));
    assert!(<ZerocopyDriver as Driver>::supports(&point(1, Repr::Transparent, 8)));
    assert!(!<ZerocopyDriver as Driver>::supports(&point(1, Repr::C, 12)));
    assert!(!<ZerocopyDriver as Driver>::supports(&point(1, Repr::Packed(1), 8)));
    assert!(<SerdeDriver as Driver>::supports(&point(1, Repr::Rust, 12)));
    assert!(<PostcardDriver as Driver>::supports(&point(1, Repr::Rust, 12)));
    assert!(<TomlDriver as Driver>::supports(&point(1, Repr::Rust, 12)));
}

#[test]
fn lib_wrong_version_is_rejected() {
    let err = serde_driver::check_envelope(Envelope { schema_version: 99, data: (1u32, "x") }, 1).unwrap_err();
    assert!(matches!(err, SerdeError::VersionMismatch { expected: 1, found: 99 }));
    assert_eq!(err.describe(), "schema version mismatch: envelope is v99 but the type is v1");
}

#[test]
fn sealed_envelope_opens_for_the_same_version() {
    let m = point(3, Repr::C, 8);
    let e = Envelope::seal(&m, "payload");
    assert_eq!(e.schema_version, 3);
    assert_eq!(e.open(3), Ok("payload"));
    assert_eq!(Envelope::seal(&m, 7u8).open(4), Err(VersionMismatch { expected: 4, found: 3 }));
    assert!(matches!(serde_driver::check_envelope(Envelope::seal(&m, 5u8), 3), Ok(5)));
    assert!(matches!(postcard_driver::check_envelope(Envelope::seal(&m, 5u8), 3), Ok(5)));
    assert!(matches!(toml_driver::check_envelope(Envelope::seal(&m, 5u8), 3), Ok(5)));
}

#[test]
fn every_driver_reports_the_mismatch() {
    let e = || Envelope { schema_version: 2, data: () };
    let p = postcard_driver::check_envelope(e(), 1).unwrap_err();
    assert!(matches!(p, PostcardError::VersionMismatch { expected: 1, found: 2 }));
    assert_eq!(p.describe(), "schema version mismatch: envelope is v2 but the type is v1");
    let t = toml_driver::check_envelope(e(), 10).unwrap_err();
    assert!(matches!(t, TomlError::VersionMismatch { expected: 10, found: 2 }));
    assert_eq!(t.describe(), "schema version mismatch: envelope is v2 but the type is v10");
}

#[test]
fn the_tag_is_version_level_not_type_level() {
    // Two different types at the same version: either reader takes the other's envelope.
    let account = point(1, Repr::C, 8);
    let mut product = point(1, Repr::Rust, 8);
    product.ty_name = "tests::Product".to_string();
    let blob = Envelope::seal(&account, (1u32, "alice"));
    assert!(matches!(serde_driver::check_envelope(blob, product.schema_version), Ok((1, "alice"))));
}

#[test]
fn outside_errors_are_described_with_their_driver() {
    let json_err = serde_json::from_str::<u32>("not json").unwrap_err();
    let json_text = json_err.to_string();
    assert!(!json_text.is_empty());
    let e: SerdeError = json_err.into();
    assert_eq!(e.describe(), format!("serde_json error: {json_text}"));
    let pc_err = postcard::from_bytes::<u32>(&[]).unwrap_err();
    let pc_text = pc_err.to_string();
    assert!(!pc_text.is_empty());
    let e: PostcardError = pc_err.into();
    assert_eq!(e.describe(), format!("postcard error: {pc_text}"));
    let de_err = toml::from_str::<toml::Table>("= =").unwrap_err();
    let de_text = de_err.to_string();
    assert!(!de_text.is_empty());
    let e: TomlError = de_err.into();
    assert_eq!(e.describe(), format!("toml deserialize error: {de_text}"));
    let ser_err = toml::to_string(&1u32).unwrap_err();
    let ser_text = ser_err.to_string();
    assert!(!ser_text.is_empty());
    let e = TomlError::Serialize(ser_err);
    assert_eq!(e.describe(), format!("toml serialize error: {ser_text}"));
}

#[derive(Debug, PartialEq)]
struct ConfigV1 {
    id: u32,
    name: String,
}

#[derive(Debug, PartialEq)]
struct UserV1 {
    id: u32,
}

#[derive(Debug, PartialEq)]
struct UserV2 {
    id: u32,
    level: u8,
}

#[derive(Debug, PartialEq)]
struct UserV3 {
    id: u32,
    level: u8,
    admin: bool,
}

impl ix_schema::migrate::MigrateFrom<UserV1> for UserV2 {
    fn migrate_from(prev: UserV1) -> Self {
        UserV2 { id: prev.id, level: 9 }
    }
}

impl ix_schema::migrate::MigrateFrom<UserV2> for UserV3 {
    fn migrate_from(prev: UserV2) -> Self {
        UserV3 { id: prev.id, level: prev.level, admin: false }
    }
}

fn versioned(version: u32) -> Manifest {
    let mut m = point(version, Repr::Rust, 8);
    m.fields.clear();
    m
}

#[test]
fn lib_versioned_roundtrip_preserves_data() {
    let cfg = ConfigV1 { id: 1, name: "alpha".to_string() };
    let stored = Envelope::seal(&versioned(1), cfg);
    assert_eq!(stored.schema_version, 1);
    let back = serde_driver::check_envelope(stored, 1).expect("deserialize");
    assert_eq!(back, ConfigV1 { id: 1, name: "alpha".to_string() });
}

#[test]
fn lib_migrate_on_decode_lifts_old_payload() {
    let stored = Envelope::seal(&versioned(1), UserV1 { id: 5 });
    let prev = postcard_driver::check_envelope(stored, 1).expect("store");
    let v2 = ix_schema::migrate::upgrade_one::<UserV1, UserV2>(prev);
    assert_eq!(v2.id, 5);
    assert_eq!(v2.level, 9);
}

#[test]
fn migrate_rejects_a_wrongly_tagged_envelope() {
    let mistagged = Envelope { schema_version: 2, data: UserV1 { id: 5 } };
    let err = serde_driver::check_envelope(mistagged, 1).unwrap_err();
    assert!(matches!(err, SerdeError::VersionMismatch { expected: 1, found: 2 }));
}

#[test]
fn upgrade_on_decode_walks_the_whole_chain() {
    let stored = Envelope::seal(&versioned(1), UserV1 { id: 5 });
    let prev = toml_driver::check_envelope(stored, 1).expect("store");
    let v3 = ix_schema::migrate::upgrade_two::<UserV1, UserV2, UserV3>(prev);
    assert_eq!(v3, UserV3 { id: 5, level: 9, admin: false });
}
