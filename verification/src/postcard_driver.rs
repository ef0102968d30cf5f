//! The postcard (binary) driver: the same version tagging over postcard's
//! compact, non-self-describing format. As with JSON the tag is version-level,
//! not type-level — and with a non-self-describing format a same-version
//! mismatch of types is even easier to read without error.
use vstd::prelude::*;
use vstd::string::*;
use crate::driver::{mismatch_message, mismatch_text, Driver, Envelope, VersionMismatch};
use crate::manifest::Manifest;

verus! {

/// Errors produced by the postcard driver.
#[derive(Debug)]
pub enum PostcardError {
    /// The underlying postcard operation failed.
    Postcard(postcard::Error),
    /// The envelope's schema version did not match the target type's version.
    VersionMismatch {
        /// Version the target type declares in its manifest.
        expected: u32,
        /// Version found in the decoded envelope.
        found: u32,
    },
}

impl From<postcard::Error> for PostcardError {
    fn from(err: postcard::Error) -> (r: Self) {
        PostcardError::Postcard(err)
    }
}

impl vstd::std_specs::convert::FromSpecImpl<postcard::Error> for PostcardError {
    open spec fn obeys_from_spec() -> bool {
        true
    }

    open spec fn from_spec(err: postcard::Error) -> Self {
        PostcardError::Postcard(err)
    }
}

/// The text postcard's `Display` writes for an error: a fixed sentence for
/// each kind of error.
pub uninterp spec fn postcard_error_display(err: postcard::Error) -> Seq<char>;

/// The text postcard gives of its error (its `Display`).
#[verifier::external_body]
fn postcard_error_text(err: &postcard::Error) -> (r: String)
    ensures
        r@ == postcard_error_display(*err),
{
    err.to_string()
}

impl PostcardError {
    /// The error a reader reports for an envelope of the wrong version.
    pub fn from_mismatch(m: VersionMismatch) -> (e: PostcardError)
        ensures
            e == (PostcardError::VersionMismatch { expected: m.expected, found: m.found }),
    {
        PostcardError::VersionMismatch { expected: m.expected, found: m.found }
    }

    /// The error's message.
    pub fn describe(&self) -> (r: String)
        ensures
            match self {
                PostcardError::Postcard(err) => r@ == "postcard error: "@ + postcard_error_display(*err),
                PostcardError::VersionMismatch { expected, found } => r@ == mismatch_text(
                    *expected,
                    *found,
                ),
            },
    {
        match self {
            PostcardError::Postcard(err) => {
                let mut s = String::new();
                s.append("postcard error: ");
                s.append(postcard_error_text(err).as_str());
                s
            },
            PostcardError::VersionMismatch { expected, found } => mismatch_message(
                *expected,
                *found,
            ),
        }
    }
}

/// Accept a decoded envelope for a type of version `expected`: its value if
/// the tag matches, [`PostcardError::VersionMismatch`] otherwise.
pub fn check_envelope<T>(envelope: Envelope<T>, expected: u32) -> (r: Result<T, PostcardError>)
    ensures
        envelope.schema_version == expected ==> r == Ok::<T, PostcardError>(envelope.data),
        envelope.schema_version != expected ==> r == Err::<T, PostcardError>(
            PostcardError::VersionMismatch { expected, found: envelope.schema_version },
        ),
{
    match envelope.open(expected) {
        Ok(data) => Ok(data),
        Err(m) => Err(PostcardError::from_mismatch(m)),
    }
}

/// The postcard driver: supported for any type that is both `Ix` and
/// serde-(de)serializable, whatever its manifest says.
pub struct PostcardDriver;

impl Driver for PostcardDriver {
    fn supports(manifest: &Manifest) -> (b: bool)
        ensures
            b,
    {
        true
    }
}

} // verus!
