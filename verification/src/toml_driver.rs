//! The TOML driver: the same version tagging over TOML's config-shaped,
//! table-oriented format. The envelope's scalar `schema_version` precedes the
//! `data` table, as TOML requires scalars before tables at one level.
use vstd::prelude::*;
use vstd::string::*;
use crate::driver::{mismatch_message, mismatch_text, Driver, Envelope, VersionMismatch};
use crate::manifest::Manifest;

verus! {

/// Errors produced by the TOML driver.
#[derive(Debug)]
pub enum TomlError {
    /// TOML serialization failed.
    Serialize(toml::ser::Error),
    /// TOML deserialization failed.
    Deserialize(toml::de::Error),
    /// The envelope's schema version did not match the target type's version.
    VersionMismatch {
        /// Version the target type declares in its manifest.
        expected: u32,
        /// Version found in the decoded envelope.
        found: u32,
    },
}

impl From<toml::ser::Error> for TomlError {
    fn from(err: toml::ser::Error) -> (r: Self) {
        TomlError::Serialize(err)
    }
}

impl vstd::std_specs::convert::FromSpecImpl<toml::ser::Error> for TomlError {
    open spec fn obeys_from_spec() -> bool {
        true
    }

    open spec fn from_spec(err: toml::ser::Error) -> Self {
        TomlError::Serialize(err)
    }
}

impl From<toml::de::Error> for TomlError {
    fn from(err: toml::de::Error) -> (r: Self) {
        TomlError::Deserialize(err)
    }
}

impl vstd::std_specs::convert::FromSpecImpl<toml::de::Error> for TomlError {
    open spec fn obeys_from_spec() -> bool {
        true
    }

    open spec fn from_spec(err: toml::de::Error) -> Self {
        TomlError::Deserialize(err)
    }
}

/// The text toml's `Display` writes for a serialization error.
pub uninterp spec fn toml_ser_error_display(err: toml::ser::Error) -> Seq<char>;

/// The text toml's `Display` writes for a deserialization error: its
/// message, and where the input held one, the place in it.
pub uninterp spec fn toml_de_error_display(err: toml::de::Error) -> Seq<char>;

/// The text toml gives of a serialization error (its `Display`).
#[verifier::external_body]
fn ser_error_text(err: &toml::ser::Error) -> (r: String)
    ensures
        r@ == toml_ser_error_display(*err),
{
    err.to_string()
}

/// The text toml gives of a deserialization error (its `Display`).
#[verifier::external_body]
fn de_error_text(err: &toml::de::Error) -> (r: String)
    ensures
        r@ == toml_de_error_display(*err),
{
    err.to_string()
}

impl TomlError {
    /// The error a reader reports for an envelope of the wrong version.
    pub fn from_mismatch(m: VersionMismatch) -> (e: TomlError)
        ensures
            e == (TomlError::VersionMismatch { expected: m.expected, found: m.found }),
    {
        TomlError::VersionMismatch { expected: m.expected, found: m.found }
    }

    /// The error's message.
    pub fn describe(&self) -> (r: String)
        ensures
            match self {
                TomlError::Serialize(err) => r@ == "toml serialize error: "@ + toml_ser_error_display(
                    *err,
                ),
                TomlError::Deserialize(err) => r@ == "toml deserialize error: "@
                    + toml_de_error_display(*err),
                TomlError::VersionMismatch { expected, found } => r@ == mismatch_text(
                    *expected,
                    *found,
                ),
            },
    {
        match self {
            TomlError::Serialize(err) => {
                let mut s = String::new();
                s.append("toml serialize error: ");
                s.append(ser_error_text(err).as_str());
                s
            },
            TomlError::Deserialize(err) => {
                let mut s = String::new();
                s.append("toml deserialize error: ");
                s.append(de_error_text(err).as_str());
                s
            },
            TomlError::VersionMismatch { expected, found } => mismatch_message(
                *expected,
                *found,
            ),
        }
    }
}

/// Accept a decoded envelope for a type of version `expected`: its value if
/// the tag matches, [`TomlError::VersionMismatch`] otherwise.
pub fn check_envelope<T>(envelope: Envelope<T>, expected: u32) -> (r: Result<T, TomlError>)
    ensures
        envelope.schema_version == expected ==> r == Ok::<T, TomlError>(envelope.data),
        envelope.schema_version != expected ==> r == Err::<T, TomlError>(
            TomlError::VersionMismatch { expected, found: envelope.schema_version },
        ),
{
    match envelope.open(expected) {
        Ok(data) => Ok(data),
        Err(m) => Err(TomlError::from_mismatch(m)),
    }
}

/// The TOML driver: supported for any type that is both `Ix` and
/// serde-(de)serializable, whatever its manifest says.
pub struct TomlDriver;

impl Driver for TomlDriver {
    fn supports(manifest: &Manifest) -> (b: bool)
        ensures
            b,
    {
        true
    }
}

} // verus!
