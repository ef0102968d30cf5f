//! The contract between a type and the drivers that read its manifest: the
//! `Ix` trait a type implements, the `Driver` capability gate, and the
//! version-tagged envelope every codec driver writes and checks.
use vstd::prelude::*;
use vstd::string::*;
use crate::manifest::{Manifest, Repr};
use crate::text::{decimal, push_decimal};

verus! {

/// A type that publishes a manifest.
pub trait Ix {
    /// The type's manifest.
    fn manifest() -> Manifest;
}

/// A driver decides, from a type's manifest alone, whether it can handle it.
pub trait Driver {
    fn supports(manifest: &Manifest) -> (b: bool)
        requires
            manifest.well_formed(),
    ;
}

/// The zerocopy driver: supports exactly the types with a stable `C` or
/// `transparent` representation and no top-level padding.
pub struct ZerocopyDriver;

impl Driver for ZerocopyDriver {
    fn supports(manifest: &Manifest) -> (b: bool)
        ensures
            b == ((manifest.layout.repr == Repr::C || manifest.layout.repr == Repr::Transparent)
                && manifest.spec_padding_bytes() == 0),
    {
        let stable = match manifest.layout.repr {
            Repr::C => true,
            Repr::Transparent => true,
            _ => false,
        };
        stable && manifest.is_gap_free()
    }
}

/// A value tagged with the schema version of its type.
#[derive(Clone, Copy, Debug, PartialEq, Eq)]
pub struct Envelope<T> {
    pub schema_version: u32,
    pub data: T,
}

/// The envelope's version is not the one the reader expects.
#[derive(Clone, Copy, Debug, PartialEq, Eq, Structural)]
pub struct VersionMismatch {
    /// Version the target type declares in its manifest.
    pub expected: u32,
    /// Version found in the envelope.
    pub found: u32,
}

/// The message of a version mismatch, as every driver words it.
pub open spec fn mismatch_text(expected: u32, found: u32) -> Seq<char> {
    "schema version mismatch: envelope is v"@ + decimal(found as nat) + " but the type is v"@
        + decimal(expected as nat)
}

/// "schema version mismatch: envelope is v{found} but the type is v{expected}".
pub fn mismatch_message(expected: u32, found: u32) -> (r: String)
    ensures
        r@ == mismatch_text(expected, found),
{
    let mut s = String::new();
    s.append("schema version mismatch: envelope is v");
    push_decimal(&mut s, found as u64);
    s.append(" but the type is v");
    push_decimal(&mut s, expected as u64);
    assert(s@ =~= mismatch_text(expected, found));
    s
}

/// The envelope a writer produces for `data` of a type with manifest `m`.
pub open spec fn sealed<T>(m: Manifest, data: T) -> Envelope<T> {
    Envelope { schema_version: m.schema_version, data }
}

/// What a reader expecting version `expected` takes out of `e`.
pub open spec fn opened<T>(e: Envelope<T>, expected: u32) -> Result<T, VersionMismatch> {
    if e.schema_version == expected {
        Ok(e.data)
    } else {
        Err(VersionMismatch { expected, found: e.schema_version })
    }
}

impl<T> Envelope<T> {
    /// Tag `data` with the schema version from its type's manifest.
    pub fn seal(manifest: &Manifest, data: T) -> (e: Envelope<T>)
        ensures
            e == sealed(*manifest, data),
    {
        Envelope { schema_version: manifest.schema_version, data }
    }

    /// Take the value out of the envelope if its tag is the version the
    /// reader expects; otherwise report both versions.
    pub fn open(self, expected: u32) -> (r: Result<T, VersionMismatch>)
        ensures
            r == opened(self, expected),
    {
        if self.schema_version == expected {
            Ok(self.data)
        } else {
            Err(VersionMismatch { expected, found: self.schema_version })
        }
    }
}

/// What a reader of a type gets back from a writer of the same type is the
/// value written: an envelope sealed under manifest `m` opens under `m`'s
/// version.
pub proof fn lemma_envelope_roundtrip<T>(m: Manifest, data: T)
    ensures
        opened(sealed(m, data), m.schema_version) == Ok::<T, VersionMismatch>(data),
{
}

/// A reader refuses exactly the envelopes tagged with another version, and
/// reports the version it expected and the one it found.
pub proof fn lemma_envelope_refusal<T>(e: Envelope<T>, expected: u32)
    ensures
        opened(e, expected) is Err <==> e.schema_version != expected,
        opened(e, expected) is Err ==> opened(e, expected) == Err::<T, VersionMismatch>(
            VersionMismatch { expected, found: e.schema_version },
        ),
{
}

/// The tag is version-level, not type-level: two writers of different types
/// at the same schema version produce envelopes any reader of that version
/// accepts.
pub proof fn lemma_tag_is_version_level<A, B>(ma: Manifest, mb: Manifest, a: A, b: B, expected: u32)
    requires
        ma.schema_version == mb.schema_version,
        ma.schema_version == expected,
    ensures
        opened(sealed(ma, a), expected) is Ok,
        opened(sealed(mb, b), expected) is Ok,
{
}

} // verus!
