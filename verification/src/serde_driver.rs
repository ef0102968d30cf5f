//! The serde (JSON) driver: what it decides about a version-tagged envelope
//! once serde_json has read one, and how its errors read.
//!
//! The envelope carries the schema *version*, not the type's identity: two
//! different types at the same version whose shapes coincide read each other's
//! envelopes without error.
use vstd::prelude::*;
use vstd::string::*;
use crate::driver::{mismatch_message, mismatch_text, Driver, Envelope, VersionMismatch};
use crate::manifest::Manifest;

verus! {

/// Errors produced by the serde driver.
#[derive(Debug)]
pub enum SerdeError {
    /// The underlying serde_json operation failed.
    Json(serde_json::Error),
    /// The envelope's schema version did not match the target type's version.
    VersionMismatch {
        /// Version the target type declares in its manifest.
        expected: u32,
        /// Version found in the decoded envelope.
        found: u32,
    },
}

impl From<serde_json::Error> for SerdeError {
    fn from(err: serde_json::Error) -> (r: Self) {
        SerdeError::Json(err)
    }
}

impl vstd::std_specs::convert::FromSpecImpl<serde_json::Error> for SerdeError {
    open spec fn obeys_from_spec() -> bool {
        true
    }

    open spec fn from_spec(err: serde_json::Error) -> Self {
        SerdeError::Json(err)
    }
}

/// The text `serde_json`'s `Display` writes for an error: its message, and
/// the line and column where reading stopped when there is one.
pub uninterp spec fn json_error_display(err: serde_json::Error) -> Seq<char>;

/// The text `serde_json` gives of its error (its `Display`).
#[verifier::external_body]
fn json_error_text(err: &serde_json::Error) -> (r: String)
    ensures
        r@ == json_error_display(*err),
{
    err.to_string()
}

impl SerdeError {
    /// The error a reader reports for an envelope of the wrong version.
    pub fn from_mismatch(m: VersionMismatch) -> (e: SerdeError)
        ensures
            e == (SerdeError::VersionMismatch { expected: m.expected, found: m.found }),
    {
        SerdeError::VersionMismatch { expected: m.expected, found: m.found }
    }

    /// The error's message.
    pub fn describe(&self) -> (r: String)
        ensures
            match self {
                SerdeError::Json(err) => r@ == "serde_json error: "@ + json_error_display(*err),
                SerdeError::VersionMismatch { expected, found } => r@ == mismatch_text(
                    *expected,
                    *found,
                ),
            },
    {
        match self {
            SerdeError::Json(err) => {
                let mut s = String::new();
                s.append("serde_json error: ");
                s.append(json_error_text(err).as_str());
                s
            },
            SerdeError::VersionMismatch { expected, found } => mismatch_message(*expected, *found),
        }
    }
}

/// Accept a decoded envelope for a type of version `expected`: its value if
/// the tag matches, [`SerdeError::VersionMismatch`] otherwise.
pub fn check_envelope<T>(envelope: Envelope<T>, expected: u32) -> (r: Result<T, SerdeError>)
    ensures
        envelope.schema_version == expected ==> r == Ok::<T, SerdeError>(envelope.data),
        envelope.schema_version != expected ==> r == Err::<T, SerdeError>(
            SerdeError::VersionMismatch { expected, found: envelope.schema_version },
        ),
{
    match envelope.open(expected) {
        Ok(data) => Ok(data),
        Err(m) => Err(SerdeError::from_mismatch(m)),
    }
}

/// The serde driver: supported for any type that is both `Ix` and
/// serde-(de)serializable, whatever its manifest says.
pub struct SerdeDriver;

impl Driver for SerdeDriver {
    fn supports(manifest: &Manifest) -> (b: bool)
        ensures
            b,
    {
        true
    }
}

} // verus!
