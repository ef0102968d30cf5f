//! The intermediate representation of a type that publishes a manifest: what
//! the `Ix` derive reads off a struct or enum declaration, how it validates the
//! `#[ix(..)]` attributes, and how it lowers the result to a [`Manifest`] and a
//! field-by-field migration plan.
//!
//! The inputs are plain values (identifiers, spelled types, doc lines, parsed
//! attribute keys); the layout figures that the compiler computes for the
//! declared type are handed to [`StructModel::expand`] as [`LayoutFacts`].
use vstd::prelude::*;
use crate::manifest::{
    EvolutionSpec, FieldChange, FieldSpec, LayoutSpec, Manifest, Repr, VariantFieldSpec, VariantKind,
    VariantSpec,
};
use vstd::string::*;
use crate::text::{
    chars_of, decimal, decimal_string, push_char, push_decimal, trim_bounds, trimmed,
};

verus! {

/// Field accessor: a named field or a tuple position.
#[derive(Clone, Debug, PartialEq, Eq)]
pub enum Member {
    Named(String),
    Unnamed(u32),
}

/// A field of the struct, with the ix metadata attached to it.
#[derive(Clone, Debug, PartialEq, Eq)]
pub struct FieldModel {
    pub member: Member,
    /// The field's doc comment (joined `///` lines), or `""`.
    pub doc: String,
    /// Declared field type, as spelled.
    pub ty: String,
    /// Schema version the field was introduced in.
    pub since: u32,
    /// Initialiser (expression text) for a field absent from the previous version.
    pub default: Option<String>,
    /// Conversion function (path text) applied to the predecessor's field.
    pub with: Option<String>,
    /// The field's name in the previous version, if renamed.
    pub rename_from: Option<String>,
}

/// The shape of an enum variant's payload.
#[derive(Clone, Copy, Debug, PartialEq, Eq, Structural)]
pub enum VariantShape {
    /// `Variant` — no payload.
    Unit,
    /// `Variant(A, B)` — positional payload.
    Tuple,
    /// `Variant { a: A }` — named payload.
    Struct,
}

/// A single payload field of a data-carrying variant.
#[derive(Clone, Debug, PartialEq, Eq)]
pub struct VariantFieldModel {
    /// Field name for a struct-like variant; `None` for a tuple position.
    pub name: Option<String>,
    /// Declared field type, as spelled.
    pub ty: String,
}

/// A single enum variant.
#[derive(Clone, Debug, PartialEq, Eq)]
pub struct VariantModel {
    pub ident: String,
    /// The variant's doc comment (joined `///` lines), or `""`.
    pub doc: String,
    pub kind: VariantShape,
    /// Payload fields (empty for a unit variant).
    pub fields: Vec<VariantFieldModel>,
}

/// How one field of a migrated struct is initialised from its predecessor.
#[derive(Clone, Debug, PartialEq, Eq)]
pub enum FieldInit {
    /// From the `default` expression; the predecessor is not read.
    Default(String),
    /// The `with` function applied to the predecessor's field of the same name.
    With(String),
    /// The predecessor's field under its old name.
    Renamed(String),
    /// The predecessor's field of the same name, unchanged.
    Carried,
}

impl View for FieldChange {
    type V = ChangeView;

    open spec fn view(&self) -> ChangeView {
        match self {
            FieldChange::Added { name } => ChangeView::Added(name@),
            FieldChange::Removed { name } => ChangeView::Removed(name@),
            FieldChange::Renamed { from, to } => ChangeView::Renamed(from@, to@),
            FieldChange::Transformed { name } => ChangeView::Transformed(name@),
        }
    }
}

/// A [`FieldChange`] with its names as character sequences.
pub enum ChangeView {
    Added(Seq<char>),
    Removed(Seq<char>),
    Renamed(Seq<char>, Seq<char>),
    Transformed(Seq<char>),
}

/// The doc text of a list of `///` lines: each line trimmed, joined by `\n`.
pub open spec fn doc_text(lines: Seq<String>) -> Seq<char>
    decreases lines.len(),
{
    if lines.len() == 0 {
        Seq::empty()
    } else if lines.len() == 1 {
        trimmed(lines[0]@)
    } else {
        doc_text(lines.drop_last()) + seq!['\n'] + trimmed(lines.last()@)
    }
}

/// A member's name as text: the identifier, or the tuple index in decimal.
pub open spec fn member_name(m: Member) -> Seq<char> {
    match m {
        Member::Named(id) => id@,
        Member::Unnamed(i) => decimal(i as nat),
    }
}

/// The evolution record a field contributes, if any.
pub open spec fn change_of(f: FieldModel) -> Option<ChangeView> {
    if f.with is Some {
        Some(ChangeView::Transformed(member_name(f.member)))
    } else if f.rename_from is Some {
        Some(ChangeView::Renamed(f.rename_from->0@, member_name(f.member)))
    } else if f.default is Some {
        Some(ChangeView::Added(member_name(f.member)))
    } else {
        None
    }
}

/// How a field is initialised by the migration from the predecessor.
pub open spec fn init_of(f: FieldModel) -> FieldInit {
    if f.default is Some {
        FieldInit::Default(f.default->0)
    } else if f.with is Some {
        FieldInit::With(f.with->0)
    } else if f.rename_from is Some {
        FieldInit::Renamed(f.rename_from->0)
    } else {
        FieldInit::Carried
    }
}

/// Join a type/field/variant's `///` doc lines into one string, one line per
/// `///`, each trimmed. Returns `""` when undocumented.
pub fn doc_of(lines: &Vec<String>) -> (r: String)
    ensures
        r@ == doc_text(lines@),
{
    let mut r = String::new();
    let mut i: usize = 0;
    while i < lines.len()
        invariant
            i <= lines@.len(),
            r@ == doc_text(lines@.subrange(0, i as int)),
        decreases lines@.len() - i,
    {
        let ghost before = r@;
        if i > 0 {
            push_char(&mut r, '\n');
        }
        let cs = chars_of(lines[i].as_str());
        let (a, b) = trim_bounds(&cs);
        let mut k = a;
        while k < b
            invariant
                a <= k <= b <= cs@.len(),
                r@ == (if i > 0 {
                    before.push('\n')
                } else {
                    before
                }) + cs@.subrange(a as int, k as int),
            decreases b - k,
        {
            push_char(&mut r, cs[k]);
            k = k + 1;
            proof {
                let base = if i > 0 {
                    before.push('\n')
                } else {
                    before
                };
                assert(base + cs@.subrange(a as int, k as int) =~= base + cs@.subrange(
                    a as int,
                    k - 1,
                ) + seq![cs@[k - 1]]);
            }
        }
        proof {
            let pre = lines@.subrange(0, i as int + 1);
            assert(pre.drop_last() =~= lines@.subrange(0, i as int));
            assert(pre.last() == lines@[i as int]);
            if i == 0 {
                assert(before =~= Seq::<char>::empty());
                assert(r@ =~= trimmed(lines@[0]@));
            } else {
                assert(r@ =~= before + seq!['\n'] + trimmed(lines@[i as int]@));
            }
        }
        i = i + 1;
    }
    assert(lines@.subrange(0, i as int) =~= lines@);
    r
}

impl FieldModel {
    /// The field's name as a string: the identifier, or the tuple index.
    pub fn name_string(&self) -> (r: String)
        ensures
            r@ == member_name(self.member),
    {
        match &self.member {
            Member::Named(id) => id.clone(),
            Member::Unnamed(idx) => decimal_string(*idx as u64),
        }
    }
}

/// The [`FieldChange`] entry a field contributes to the evolution record, if
/// any: a `with` field is transformed, a renamed field is renamed, a defaulted
/// field is added; a carried field records nothing.
pub fn field_change(field: &FieldModel) -> (r: Option<FieldChange>)
    ensures
        r is Some == change_of(*field) is Some,
        r matches Some(c) ==> change_of(*field) == Some(c@),
{
    if field.with.is_some() {
        Some(FieldChange::Transformed { name: field.name_string() })
    } else if let Some(old) = &field.rename_from {
        Some(FieldChange::Renamed { from: old.clone(), to: field.name_string() })
    } else if field.default.is_some() {
        Some(FieldChange::Added { name: field.name_string() })
    } else {
        None
    }
}

/// The constructor of one field of the migrated struct. The four cases are
/// exhaustive: a `default` field never reads the predecessor; `with`,
/// `rename_from` and a carried field all read it.
pub fn field_init(field: &FieldModel) -> (r: FieldInit)
    ensures
        r == init_of(*field),
{
    if let Some(default) = &field.default {
        FieldInit::Default(default.clone())
    } else if let Some(with) = &field.with {
        FieldInit::With(with.clone())
    } else if let Some(old) = &field.rename_from {
        FieldInit::Renamed(old.clone())
    } else {
        FieldInit::Carried
    }
}


/// Why a declaration cannot publish a manifest.
#[derive(Clone, Debug, PartialEq, Eq)]
pub enum DeriveError {
    /// The same `#[ix(..)]` key appears twice for one item.
    DuplicateKey,
    /// A field-level key other than `since`, `default`, `with`, `rename_from`.
    UnknownFieldAttribute,
    /// A struct-level key other than `version`, `migrate_from`, `removed`.
    UnknownStructAttribute,
    /// A field declares it was introduced after the struct's own version.
    SinceAfterVersion { since: u32, version: u32 },
    /// `removed(..)` is declared without a `migrate_from`.
    RemovedWithoutMigrateFrom,
    /// `removed(..)` names a field that is still present.
    RemovedFieldPresent { name: String },
    /// `migrate_from` or `removed(..)` on an enum.
    EnumMigration,
    /// Unions are not modelled.
    Union,
    /// The `migrate_from` target is not an older schema version.
    PredecessorNotOlder { predecessor: u32, version: u32 },
}

/// One key of a field-level `#[ix(..)]` attribute, with its parsed value.
#[derive(Clone, Debug, PartialEq, Eq)]
pub enum FieldAttr {
    Since(u32),
    Default(String),
    With(String),
    RenameFrom(String),
    /// Any other key.
    Unknown,
}

/// The field-level keys seen so far.
#[derive(Clone, Debug, PartialEq, Eq)]
pub struct FieldAttrs {
    pub since: Option<u32>,
    pub default: Option<String>,
    pub with: Option<String>,
    pub rename_from: Option<String>,
}

/// One key of a struct-level `#[ix(..)]` attribute, with its parsed value.
#[derive(Clone, Debug, PartialEq, Eq)]
pub enum StructAttr {
    Version(u32),
    MigrateFrom(String),
    /// `removed("a", "b")`: names dropped relative to the predecessor.
    Removed(Vec<String>),
    /// Any other key.
    Unknown,
}

/// The struct-level settings, defaults applied.
#[derive(Clone, Debug, PartialEq, Eq)]
pub struct StructAttrs {
    pub version: u32,
    pub migrate_from: Option<String>,
    pub removed: Vec<String>,
}

/// One entry of a `#[repr(..)]` attribute.
#[derive(Clone, Copy, Debug, PartialEq, Eq, Structural)]
pub enum ReprHint {
    C,
    Transparent,
    /// `packed` (`None`) or `packed(n)`.
    Packed(Option<usize>),
    /// `align(n)`, a primitive enum repr, and anything else that does not
    /// change the type's identity for ix.
    Other,
}

/// A declared struct field, as written.
#[derive(Clone, Debug, PartialEq, Eq)]
pub struct FieldInput {
    /// `None` for a tuple position.
    pub ident: Option<String>,
    /// The values of the field's `///` lines.
    pub doc_lines: Vec<String>,
    pub ty: String,
    /// The keys of its `#[ix(..)]` attributes, in order.
    pub attrs: Vec<FieldAttr>,
}

/// A declared enum variant, as written.
#[derive(Clone, Debug, PartialEq, Eq)]
pub struct VariantInput {
    pub ident: String,
    pub doc_lines: Vec<String>,
    pub kind: VariantShape,
    pub fields: Vec<VariantFieldModel>,
}

/// The body of a declaration.
#[derive(Clone, Debug, PartialEq, Eq)]
pub enum ItemData {
    Struct(Vec<FieldInput>),
    Enum(Vec<VariantInput>),
    Union,
}

/// A declaration that derives `Ix`, as written.
#[derive(Clone, Debug, PartialEq, Eq)]
pub struct DeriveInput {
    pub ident: String,
    pub doc_lines: Vec<String>,
    /// The keys of its `#[ix(..)]` attributes, in order.
    pub ix_attrs: Vec<StructAttr>,
    /// The entries of its `#[repr(..)]` attributes, in order.
    pub repr: Vec<ReprHint>,
    pub data: ItemData,
}

/// The whole declaration, parsed and validated.
#[derive(Clone, Debug, PartialEq, Eq)]
pub struct StructModel {
    pub ident: String,
    /// The type's doc comment (joined `///` lines), or `""`.
    pub doc: String,
    /// Schema version (`1` unless overridden).
    pub version: u32,
    /// The predecessor type (as spelled) this version migrates from, if any.
    pub migrate_from: Option<String>,
    pub repr: Repr,
    /// Fields in declaration order (empty for an enum).
    pub fields: Vec<FieldModel>,
    /// Variants in declaration order (empty for a struct).
    pub variants: Vec<VariantModel>,
    /// Names of fields present in the predecessor but dropped in this version.
    pub removed: Vec<String>,
}

pub open spec fn no_field_attrs() -> FieldAttrs {
    FieldAttrs { since: None, default: None, with: None, rename_from: None }
}

/// The field-level keys after one more key; a repeated key is an error.
pub open spec fn step_field_attr(st: FieldAttrs, a: FieldAttr) -> Result<FieldAttrs, DeriveError> {
    match a {
        FieldAttr::Since(n) => if st.since is Some {
            Err(DeriveError::DuplicateKey)
        } else {
            Ok(FieldAttrs { since: Some(n), ..st })
        },
        FieldAttr::Default(e) => if st.default is Some {
            Err(DeriveError::DuplicateKey)
        } else {
            Ok(FieldAttrs { default: Some(e), ..st })
        },
        FieldAttr::With(p) => if st.with is Some {
            Err(DeriveError::DuplicateKey)
        } else {
            Ok(FieldAttrs { with: Some(p), ..st })
        },
        FieldAttr::RenameFrom(o) => if st.rename_from is Some {
            Err(DeriveError::DuplicateKey)
        } else {
            Ok(FieldAttrs { rename_from: Some(o), ..st })
        },
        FieldAttr::Unknown => Err(DeriveError::UnknownFieldAttribute),
    }
}

/// The field-level keys of `attrs`, read in order; the first bad key wins.
pub open spec fn fold_field_attrs(attrs: Seq<FieldAttr>) -> Result<FieldAttrs, DeriveError>
    decreases attrs.len(),
{
    if attrs.len() == 0 {
        Ok(no_field_attrs())
    } else {
        match fold_field_attrs(attrs.drop_last()) {
            Err(e) => Err(e),
            Ok(st) => step_field_attr(st, attrs.last()),
        }
    }
}

/// The keys of a field, then the check that it is not newer than its struct.
pub open spec fn field_check(f: FieldInput, version: u32) -> Result<FieldAttrs, DeriveError> {
    match fold_field_attrs(f.attrs@) {
        Err(e) => Err(e),
        Ok(st) => {
            let since = match st.since {
                Some(n) => n,
                None => 1u32,
            };
            if since > version {
                Err(DeriveError::SinceAfterVersion { since, version })
            } else {
                Ok(st)
            }
        },
    }
}

/// The member a field at `index` is reached by.
pub open spec fn member_of(f: FieldInput, index: int) -> Member {
    match f.ident {
        Some(id) => Member::Named(id),
        None => Member::Unnamed(index as u32),
    }
}

/// `m` is the analysis of field `f` at `index`, whose keys are `st`.
pub open spec fn models_field(m: FieldModel, f: FieldInput, index: int, st: FieldAttrs) -> bool {
    &&& m.member == member_of(f, index)
    &&& m.doc@ == doc_text(f.doc_lines@)
    &&& m.ty == f.ty
    &&& m.since == (match st.since {
        Some(n) => n,
        None => 1u32,
    })
    &&& m.default == st.default
    &&& m.with == st.with
    &&& m.rename_from == st.rename_from
}

/// The struct-level settings of `attrs`, read in order: version, predecessor
/// and the removed names; the first repeated or unknown key wins.
pub open spec fn fold_struct_attrs(attrs: Seq<StructAttr>) -> Result<
    (Option<u32>, Option<String>, Seq<String>),
    DeriveError,
>
    decreases attrs.len(),
{
    if attrs.len() == 0 {
        Ok((None, None, Seq::empty()))
    } else {
        match fold_struct_attrs(attrs.drop_last()) {
            Err(e) => Err(e),
            Ok((v, m, rem)) => match attrs.last() {
                StructAttr::Version(n) => if v is Some {
                    Err(DeriveError::DuplicateKey)
                } else {
                    Ok((Some(n), m, rem))
                },
                StructAttr::MigrateFrom(t) => if m is Some {
                    Err(DeriveError::DuplicateKey)
                } else {
                    Ok((v, Some(t), rem))
                },
                StructAttr::Removed(names) => Ok((v, m, rem + names@)),
                StructAttr::Unknown => Err(DeriveError::UnknownStructAttribute),
            },
        }
    }
}

/// The representation the last recognised `#[repr(..)]` entry selects.
pub open spec fn repr_of(hints: Seq<ReprHint>) -> Repr
    decreases hints.len(),
{
    if hints.len() == 0 {
        Repr::Rust
    } else {
        match hints.last() {
            ReprHint::C => Repr::C,
            ReprHint::Transparent => Repr::Transparent,
            ReprHint::Packed(None) => Repr::Packed(1),
            ReprHint::Packed(Some(n)) => Repr::Packed(n),
            ReprHint::Other => repr_of(hints.drop_last()),
        }
    }
}

/// The first field (in order) whose keys are rejected, if any.
pub open spec fn fields_check(fs: Seq<FieldInput>, version: u32) -> Result<(), DeriveError>
    decreases fs.len(),
{
    if fs.len() == 0 {
        Ok(())
    } else {
        match fields_check(fs.drop_last(), version) {
            Err(e) => Err(e),
            Ok(_) => match field_check(fs.last(), version) {
                Err(e) => Err(e),
                Ok(_) => Ok(()),
            },
        }
    }
}

/// The name the field at `k` is published under.
pub open spec fn input_name(fs: Seq<FieldInput>, k: int) -> Seq<char> {
    member_name(member_of(fs[k], k))
}

pub open spec fn names_a_field(fs: Seq<FieldInput>, name: Seq<char>) -> bool {
    exists|k: int| 0 <= k < fs.len() && #[trigger] input_name(fs, k) == name
}

/// The first removed name (in order) that is still a field, if any.
pub open spec fn removed_check(removed: Seq<String>, fs: Seq<FieldInput>) -> Result<(), DeriveError>
    decreases removed.len(),
{
    if removed.len() == 0 {
        Ok(())
    } else {
        match removed_check(removed.drop_last(), fs) {
            Err(e) => Err(e),
            Ok(_) => if names_a_field(fs, removed.last()@) {
                Err(DeriveError::RemovedFieldPresent { name: removed.last() })
            } else {
                Ok(())
            },
        }
    }
}

/// Whether a declaration is accepted, and if not the error it is refused with.
pub open spec fn analysis_outcome(input: DeriveInput) -> Result<(), DeriveError> {
    match input.data {
        ItemData::Union => Err(DeriveError::Union),
        ItemData::Struct(fs) => match fold_struct_attrs(input.ix_attrs@) {
            Err(e) => Err(e),
            Ok((v, m, rem)) => {
                let version = match v {
                    Some(n) => n,
                    None => 1u32,
                };
                match fields_check(fs@, version) {
                    Err(e) => Err(e),
                    Ok(_) => if rem.len() > 0 && m is None {
                        Err(DeriveError::RemovedWithoutMigrateFrom)
                    } else {
                        removed_check(rem, fs@)
                    },
                }
            },
        },
        ItemData::Enum(_) => match fold_struct_attrs(input.ix_attrs@) {
            Err(e) => Err(e),
            Ok((v, m, rem)) => if m is Some || rem.len() > 0 {
                Err(DeriveError::EnumMigration)
            } else {
                Ok(())
            },
        },
    }
}

/// `vm` is the analysis of the declared variant `vi`.
pub open spec fn models_variant(vm: VariantModel, vi: VariantInput) -> bool {
    &&& vm.ident == vi.ident
    &&& vm.doc@ == doc_text(vi.doc_lines@)
    &&& vm.kind == vi.kind
    &&& vm.fields@ == vi.fields@
}

/// `m` is the analysis of an accepted declaration `input`.
pub open spec fn models_declaration(m: StructModel, input: DeriveInput) -> bool {
    let (v, mf, rem) = fold_struct_attrs(input.ix_attrs@)->Ok_0;
    let version = match v {
        Some(n) => n,
        None => 1u32,
    };
    &&& m.ident == input.ident
    &&& m.doc@ == doc_text(input.doc_lines@)
    &&& m.version == version
    &&& m.repr == repr_of(input.repr@)
    &&& match input.data {
        ItemData::Struct(fs) => {
            &&& m.migrate_from == mf
            &&& m.removed@ == rem
            &&& m.variants@.len() == 0
            &&& m.fields@.len() == fs@.len()
            &&& forall|k: int|
                0 <= k < fs@.len() ==> models_field(
                    #[trigger] m.fields@[k],
                    fs@[k],
                    k,
                    field_check(fs@[k], version)->Ok_0,
                )
        },
        ItemData::Enum(vs) => {
            &&& m.migrate_from is None
            &&& m.removed@.len() == 0
            &&& m.fields@.len() == 0
            &&& m.variants@.len() == vs@.len()
            &&& forall|k: int|
                0 <= k < vs@.len() ==> models_variant(#[trigger] m.variants@[k], vs@[k])
        },
        ItemData::Union => false,
    }
}

/// A struct's positions are numbered by `u32`.
pub open spec fn declared_count_fits(input: DeriveInput) -> bool {
    match input.data {
        ItemData::Struct(fs) => fs@.len() <= u32::MAX,
        _ => true,
    }
}

fn clone_opt_string(o: &Option<String>) -> (r: Option<String>)
    ensures
        r == *o,
{
    match o {
        Some(s) => Some(s.clone()),
        None => None,
    }
}

fn clone_variant_fields(v: &Vec<VariantFieldModel>) -> (r: Vec<VariantFieldModel>)
    ensures
        r@ == v@,
{
    let mut r: Vec<VariantFieldModel> = Vec::new();
    let mut i: usize = 0;
    while i < v.len()
        invariant
            i <= v@.len(),
            r@ == v@.subrange(0, i as int),
        decreases v@.len() - i,
    {
        r.push(VariantFieldModel { name: clone_opt_string(&v[i].name), ty: v[i].ty.clone() });
        i = i + 1;
        assert(r@ =~= v@.subrange(0, i as int));
    }
    assert(v@.subrange(0, i as int) =~= v@);
    r
}

/// Read the keys of one field-level attribute list in order, rejecting a
/// repeated or unknown key.
pub fn fold_field_keys(attrs: &Vec<FieldAttr>) -> (r: Result<FieldAttrs, DeriveError>)
    ensures
        r == fold_field_attrs(attrs@),
{
    let mut st = FieldAttrs { since: None, default: None, with: None, rename_from: None };
    let mut i: usize = 0;
    while i < attrs.len()
        invariant
            i <= attrs@.len(),
            fold_field_attrs(attrs@.subrange(0, i as int)) == Ok::<FieldAttrs, DeriveError>(st),
        decreases attrs@.len() - i,
    {
        proof {
            let pre = attrs@.subrange(0, i as int + 1);
            assert(pre.drop_last() =~= attrs@.subrange(0, i as int));
            assert(pre.last() == attrs@[i as int]);
        }
        let next = match &attrs[i] {
            FieldAttr::Since(n) => if st.since.is_some() {
                Err(DeriveError::DuplicateKey)
            } else {
                Ok(FieldAttrs { since: Some(*n), ..st })
            },
            FieldAttr::Default(e) => if st.default.is_some() {
                Err(DeriveError::DuplicateKey)
            } else {
                Ok(FieldAttrs { default: Some(e.clone()), ..st })
            },
            FieldAttr::With(p) => if st.with.is_some() {
                Err(DeriveError::DuplicateKey)
            } else {
                Ok(FieldAttrs { with: Some(p.clone()), ..st })
            },
            FieldAttr::RenameFrom(o) => if st.rename_from.is_some() {
                Err(DeriveError::DuplicateKey)
            } else {
                Ok(FieldAttrs { rename_from: Some(o.clone()), ..st })
            },
            FieldAttr::Unknown => Err(DeriveError::UnknownFieldAttribute),
        };
        match next {
            Err(e) => {
                proof {
                    lemma_fold_field_attrs_stuck(attrs@, i as int + 1);
                }
                return Err(e);
            },
            Ok(s2) => {
                st = s2;
            },
        }
        i = i + 1;
    }
    assert(attrs@.subrange(0, i as int) =~= attrs@);
    Ok(st)
}

proof fn lemma_fold_field_attrs_stuck(attrs: Seq<FieldAttr>, k: int)
    requires
        0 <= k <= attrs.len(),
        fold_field_attrs(attrs.subrange(0, k)) is Err,
    ensures
        fold_field_attrs(attrs) == fold_field_attrs(attrs.subrange(0, k)),
    decreases attrs.len() - k,
{
    if k < attrs.len() {
        let pre = attrs.subrange(0, k + 1);
        assert(pre.drop_last() =~= attrs.subrange(0, k));
        lemma_fold_field_attrs_stuck(attrs, k + 1);
    } else {
        assert(attrs.subrange(0, k) =~= attrs);
    }
}

proof fn lemma_fold_struct_attrs_stuck(attrs: Seq<StructAttr>, k: int)
    requires
        0 <= k <= attrs.len(),
        fold_struct_attrs(attrs.subrange(0, k)) is Err,
    ensures
        fold_struct_attrs(attrs) == fold_struct_attrs(attrs.subrange(0, k)),
    decreases attrs.len() - k,
{
    if k < attrs.len() {
        let pre = attrs.subrange(0, k + 1);
        assert(pre.drop_last() =~= attrs.subrange(0, k));
        lemma_fold_struct_attrs_stuck(attrs, k + 1);
    } else {
        assert(attrs.subrange(0, k) =~= attrs);
    }
}

/// Parse the struct-level `#[ix(version = .., migrate_from = .., removed(..))]`
/// keys in order; `version` defaults to `1`.
pub fn parse_struct_attrs(attrs: &Vec<StructAttr>) -> (r: Result<StructAttrs, DeriveError>)
    ensures
        match fold_struct_attrs(attrs@) {
            Err(e) => r == Err::<StructAttrs, DeriveError>(e),
            Ok((v, m, rem)) => r matches Ok(sa) && sa.version == (match v {
                Some(n) => n,
                None => 1u32,
            }) && sa.migrate_from == m && sa.removed@ == rem,
        },
{
    let mut version: Option<u32> = None;
    let mut migrate_from: Option<String> = None;
    let mut removed: Vec<String> = Vec::new();
    let mut i: usize = 0;
    while i < attrs.len()
        invariant
            i <= attrs@.len(),
            fold_struct_attrs(attrs@.subrange(0, i as int)) == Ok::<
                (Option<u32>, Option<String>, Seq<String>),
                DeriveError,
            >((version, migrate_from, removed@)),
        decreases attrs@.len() - i,
    {
        proof {
            let pre = attrs@.subrange(0, i as int + 1);
            assert(pre.drop_last() =~= attrs@.subrange(0, i as int));
            assert(pre.last() == attrs@[i as int]);
        }
        match &attrs[i] {
            StructAttr::Version(n) => {
                if version.is_some() {
                    proof {
                        lemma_fold_struct_attrs_stuck(attrs@, i as int + 1);
                    }
                    return Err(DeriveError::DuplicateKey);
                }
                version = Some(*n);
            },
            StructAttr::MigrateFrom(t) => {
                if migrate_from.is_some() {
                    proof {
                        lemma_fold_struct_attrs_stuck(attrs@, i as int + 1);
                    }
                    return Err(DeriveError::DuplicateKey);
                }
                migrate_from = Some(t.clone());
            },
            StructAttr::Removed(names) => {
                let ghost before = removed@;
                let mut k: usize = 0;
                while k < names.len()
                    invariant
                        k <= names@.len(),
                        removed@ == before + names@.subrange(0, k as int),
                    decreases names@.len() - k,
                {
                    removed.push(names[k].clone());
                    k = k + 1;
                    assert(removed@ =~= before + names@.subrange(0, k as int));
                }
                assert(names@.subrange(0, k as int) =~= names@);
            },
            StructAttr::Unknown => {
                proof {
                    lemma_fold_struct_attrs_stuck(attrs@, i as int + 1);
                }
                return Err(DeriveError::UnknownStructAttribute);
            },
        }
        i = i + 1;
    }
    assert(attrs@.subrange(0, i as int) =~= attrs@);
    let v = match version {
        Some(n) => n,
        None => 1,
    };
    Ok(StructAttrs { version: v, migrate_from, removed })
}

/// Translate the `#[repr(..)]` entries into a [`Repr`]: the last of `C`,
/// `transparent` and `packed` wins; a bare `packed` means `packed(1)`; other
/// entries are ignored.
pub fn parse_repr(hints: &Vec<ReprHint>) -> (r: Repr)
    ensures
        r == repr_of(hints@),
{
    let mut repr = Repr::Rust;
    let mut i: usize = 0;
    while i < hints.len()
        invariant
            i <= hints@.len(),
            repr == repr_of(hints@.subrange(0, i as int)),
        decreases hints@.len() - i,
    {
        proof {
            let pre = hints@.subrange(0, i as int + 1);
            assert(pre.drop_last() =~= hints@.subrange(0, i as int));
            assert(pre.last() == hints@[i as int]);
        }
        match hints[i] {
            ReprHint::C => {
                repr = Repr::C;
            },
            ReprHint::Transparent => {
                repr = Repr::Transparent;
            },
            ReprHint::Packed(None) => {
                repr = Repr::Packed(1);
            },
            ReprHint::Packed(Some(n)) => {
                repr = Repr::Packed(n);
            },
            ReprHint::Other => {},
        }
        i = i + 1;
    }
    assert(hints@.subrange(0, i as int) =~= hints@);
    repr
}

impl FieldModel {
    /// Analyse one declared field at position `index` of a struct of version
    /// `struct_version`: read its keys (a repeated or unknown key is an error),
    /// default `since` to `1`, and reject a field newer than its struct.
    pub fn analyze(field: &FieldInput, index: usize, struct_version: u32) -> (r: Result<
        FieldModel,
        DeriveError,
    >)
        requires
            index <= u32::MAX,
        ensures
            match field_check(*field, struct_version) {
                Err(e) => r == Err::<FieldModel, DeriveError>(e),
                Ok(st) => r matches Ok(m) && models_field(m, *field, index as int, st),
            },
    {
        let st = match fold_field_keys(&field.attrs) {
            Err(e) => {
                return Err(e);
            },
            Ok(st) => st,
        };
        let since = match st.since {
            Some(n) => n,
            None => 1,
        };
        if since > struct_version {
            return Err(DeriveError::SinceAfterVersion { since, version: struct_version });
        }
        let member = match &field.ident {
            Some(id) => Member::Named(id.clone()),
            None => Member::Unnamed(index as u32),
        };
        Ok(
            FieldModel {
                member,
                doc: doc_of(&field.doc_lines),
                ty: field.ty.clone(),
                since,
                default: st.default,
                with: st.with,
                rename_from: st.rename_from,
            },
        )
    }
}


proof fn lemma_fields_check_stuck(fs: Seq<FieldInput>, version: u32, k: int)
    requires
        0 <= k <= fs.len(),
        fields_check(fs.subrange(0, k), version) is Err,
    ensures
        fields_check(fs, version) == fields_check(fs.subrange(0, k), version),
    decreases fs.len() - k,
{
    if k < fs.len() {
        let pre = fs.subrange(0, k + 1);
        assert(pre.drop_last() =~= fs.subrange(0, k));
        lemma_fields_check_stuck(fs, version, k + 1);
    } else {
        assert(fs.subrange(0, k) =~= fs);
    }
}

proof fn lemma_removed_check_stuck(rem: Seq<String>, fs: Seq<FieldInput>, k: int)
    requires
        0 <= k <= rem.len(),
        removed_check(rem.subrange(0, k), fs) is Err,
    ensures
        removed_check(rem, fs) == removed_check(rem.subrange(0, k), fs),
    decreases rem.len() - k,
{
    if k < rem.len() {
        let pre = rem.subrange(0, k + 1);
        assert(pre.drop_last() =~= rem.subrange(0, k));
        lemma_removed_check_stuck(rem, fs, k + 1);
    } else {
        assert(rem.subrange(0, k) =~= rem);
    }
}

/// Whether one of `fields` is published under `name`.
fn has_field_named(fields: &Vec<FieldModel>, name: &String) -> (b: bool)
    ensures
        b == exists|k: int| 0 <= k < fields@.len() && #[trigger] member_name(fields@[k].member) == name@,
{
    let mut k: usize = 0;
    while k < fields.len()
        invariant
            k <= fields@.len(),
            forall|j: int| 0 <= j < k ==> #[trigger] member_name(fields@[j].member) != name@,
        decreases fields@.len() - k,
    {
        let n = fields[k].name_string();
        if n == *name {
            return true;
        }
        k = k + 1;
    }
    false
}

impl StructModel {
    /// Parse and validate a declaration into the model, refusing anything ix
    /// cannot represent: a union, a repeated or unknown `#[ix(..)]` key, a field
    /// newer than its struct, `removed(..)` without `migrate_from` or naming a
    /// field still present, and migration on an enum.
    pub fn analyze(input: &DeriveInput) -> (r: Result<StructModel, DeriveError>)
        requires
            declared_count_fits(*input),
        ensures
            match analysis_outcome(*input) {
                Err(e) => r == Err::<StructModel, DeriveError>(e),
                Ok(_) => r matches Ok(m) && models_declaration(m, *input),
            },
    {
        match &input.data {
            ItemData::Struct(fs) => Self::analyze_struct(input, fs),
            ItemData::Enum(vs) => Self::analyze_enum(input, vs),
            ItemData::Union => Err(DeriveError::Union),
        }
    }

    /// Analyze a struct — named, tuple, newtype, or unit. Tuple positions
    /// become `Member::Unnamed`.
    fn analyze_struct(input: &DeriveInput, fs: &Vec<FieldInput>) -> (r: Result<
        StructModel,
        DeriveError,
    >)
        requires
            input.data == ItemData::Struct(*fs),
            fs@.len() <= u32::MAX,
        ensures
            match analysis_outcome(*input) {
                Err(e) => r == Err::<StructModel, DeriveError>(e),
                Ok(_) => r matches Ok(m) && models_declaration(m, *input),
            },
    {
        let sa = match parse_struct_attrs(&input.ix_attrs) {
            Err(e) => {
                return Err(e);
            },
            Ok(sa) => sa,
        };
        let version = sa.version;
        let ghost folded = fold_struct_attrs(input.ix_attrs@);
        let repr = parse_repr(&input.repr);
        let mut fields: Vec<FieldModel> = Vec::new();
        let mut k: usize = 0;
        while k < fs.len()
            invariant
                input.data == ItemData::Struct(*fs),
                folded == fold_struct_attrs(input.ix_attrs@),
                folded == Ok::<(Option<u32>, Option<String>, Seq<String>), DeriveError>(
                    (folded->Ok_0.0, sa.migrate_from, sa.removed@),
                ),
                version == sa.version,
                sa.version == (match folded->Ok_0.0 {
                    Some(n) => n,
                    None => 1u32,
                }),
                k <= fs@.len() <= u32::MAX,
                fields_check(fs@.subrange(0, k as int), version) == Ok::<(), DeriveError>(()),
                fields@.len() == k,
                forall|j: int|
                    0 <= j < k ==> models_field(
                        #[trigger] fields@[j],
                        fs@[j],
                        j,
                        field_check(fs@[j], version)->Ok_0,
                    ),
            decreases fs@.len() - k,
        {
            proof {
                let pre = fs@.subrange(0, k as int + 1);
                assert(pre.drop_last() =~= fs@.subrange(0, k as int));
                assert(pre.last() == fs@[k as int]);
            }
            match FieldModel::analyze(&fs[k], k, version) {
                Err(e) => {
                    proof {
                        lemma_fields_check_stuck(fs@, version, k as int + 1);
                    }
                    return Err(e);
                },
                Ok(m) => {
                    fields.push(m);
                },
            }
            k = k + 1;
        }
        assert(fs@.subrange(0, k as int) =~= fs@);
        if sa.removed.len() > 0 && sa.migrate_from.is_none() {
            return Err(DeriveError::RemovedWithoutMigrateFrom);
        }
        let mut i: usize = 0;
        while i < sa.removed.len()
            invariant
                input.data == ItemData::Struct(*fs),
                folded == fold_struct_attrs(input.ix_attrs@),
                folded == Ok::<(Option<u32>, Option<String>, Seq<String>), DeriveError>(
                    (folded->Ok_0.0, sa.migrate_from, sa.removed@),
                ),
                version == sa.version,
                sa.version == (match folded->Ok_0.0 {
                    Some(n) => n,
                    None => 1u32,
                }),
                fields_check(fs@, version) == Ok::<(), DeriveError>(()),
                !(sa.removed@.len() > 0 && sa.migrate_from is None),
                i <= sa.removed@.len(),
                removed_check(sa.removed@.subrange(0, i as int), fs@) == Ok::<(), DeriveError>(()),
                fields@.len() == fs@.len(),
                forall|j: int|
                    0 <= j < fs@.len() ==> models_field(
                        #[trigger] fields@[j],
                        fs@[j],
                        j,
                        field_check(fs@[j], version)->Ok_0,
                    ),
            decreases sa.removed@.len() - i,
        {
            proof {
                let pre = sa.removed@.subrange(0, i as int + 1);
                assert(pre.drop_last() =~= sa.removed@.subrange(0, i as int));
                assert(pre.last() == sa.removed@[i as int]);
            }
            let present = has_field_named(&fields, &sa.removed[i]);
            proof {
                let name = sa.removed@[i as int]@;
                if present {
                    let k = choose|k: int|
                        0 <= k < fields@.len() && #[trigger] member_name(fields@[k].member)
                            == name;
                    assert(models_field(fields@[k], fs@[k], k, field_check(fs@[k], version)->Ok_0));
                    assert(input_name(fs@, k) == name);
                } else {
                    assert forall|k: int| 0 <= k < fs@.len() implies #[trigger] input_name(fs@, k)
                        != name by {
                        assert(models_field(
                            fields@[k],
                            fs@[k],
                            k,
                            field_check(fs@[k], version)->Ok_0,
                        ));
                        assert(member_name(fields@[k].member) != name);
                    }
                }
            }
            if present {
                proof {
                    lemma_removed_check_stuck(sa.removed@, fs@, i as int + 1);
                }
                return Err(DeriveError::RemovedFieldPresent { name: sa.removed[i].clone() });
            }
            i = i + 1;
        }
        assert(sa.removed@.subrange(0, i as int) =~= sa.removed@);
        Ok(
            StructModel {
                ident: input.ident.clone(),
                doc: doc_of(&input.doc_lines),
                version,
                migrate_from: sa.migrate_from,
                repr,
                fields,
                variants: Vec::new(),
                removed: sa.removed,
            },
        )
    }

    /// Analyze an enum. Fieldless and data-carrying variants are both
    /// modelled; schema migration on an enum is refused.
    fn analyze_enum(input: &DeriveInput, vs: &Vec<VariantInput>) -> (r: Result<
        StructModel,
        DeriveError,
    >)
        requires
            input.data == ItemData::Enum(*vs),
        ensures
            match analysis_outcome(*input) {
                Err(e) => r == Err::<StructModel, DeriveError>(e),
                Ok(_) => r matches Ok(m) && models_declaration(m, *input),
            },
    {
        let sa = match parse_struct_attrs(&input.ix_attrs) {
            Err(e) => {
                return Err(e);
            },
            Ok(sa) => sa,
        };
        if sa.migrate_from.is_some() || sa.removed.len() > 0 {
            return Err(DeriveError::EnumMigration);
        }
        let repr = parse_repr(&input.repr);
        let mut variants: Vec<VariantModel> = Vec::new();
        let mut k: usize = 0;
        while k < vs.len()
            invariant
                k <= vs@.len(),
                variants@.len() == k,
                forall|j: int| 0 <= j < k ==> models_variant(#[trigger] variants@[j], vs@[j]),
            decreases vs@.len() - k,
        {
            let v = &vs[k];
            variants.push(
                VariantModel {
                    ident: v.ident.clone(),
                    doc: doc_of(&v.doc_lines),
                    kind: v.kind,
                    fields: clone_variant_fields(&v.fields),
                },
            );
            k = k + 1;
        }
        Ok(
            StructModel {
                ident: input.ident.clone(),
                doc: doc_of(&input.doc_lines),
                version: sa.version,
                migrate_from: None,
                repr,
                fields: Vec::new(),
                variants,
                removed: Vec::new(),
            },
        )
    }
}


/// Where one struct field sits, as the compiler laid it out.
#[derive(Clone, Copy, Debug, PartialEq, Eq, Structural)]
pub struct FieldLayout {
    pub offset: usize,
    pub size: usize,
    pub align: usize,
}

/// Size and alignment of one variant payload field.
#[derive(Clone, Copy, Debug, PartialEq, Eq, Structural)]
pub struct SlotLayout {
    pub size: usize,
    pub align: usize,
}

/// The layout figures the compiler computes for a declared type: the type's
/// size and alignment, each field's offset, size and alignment, each variant
/// payload field's size and alignment, and each variant's discriminant (read
/// only for a fieldless enum).
#[derive(Clone, Debug, PartialEq, Eq)]
pub struct LayoutFacts {
    pub size: usize,
    pub align: usize,
    pub fields: Vec<FieldLayout>,
    pub variant_fields: Vec<Vec<SlotLayout>>,
    pub discriminants: Vec<i64>,
}

/// A [`VariantShape`] as a manifest [`VariantKind`].
pub open spec fn kind_of(shape: VariantShape) -> VariantKind {
    match shape {
        VariantShape::Unit => VariantKind::Unit,
        VariantShape::Tuple => VariantKind::Tuple,
        VariantShape::Struct => VariantKind::Struct,
    }
}

/// An enum all of whose (one or more) variants are units: only such an enum
/// has integer discriminants.
pub open spec fn fieldless(vs: Seq<VariantModel>) -> bool {
    vs.len() > 0 && forall|k: int| 0 <= k < vs.len() ==> (#[trigger] vs[k]).kind == VariantShape::Unit
}

/// The evolution records the fields contribute, in field order.
pub open spec fn changes_of(fs: Seq<FieldModel>) -> Seq<ChangeView>
    decreases fs.len(),
{
    if fs.len() == 0 {
        Seq::empty()
    } else {
        changes_of(fs.drop_last()) + match change_of(fs.last()) {
            Some(c) => seq![c],
            None => Seq::empty(),
        }
    }
}

/// The `Removed` records of the dropped names, in order.
pub open spec fn removals_of(rem: Seq<String>) -> Seq<ChangeView> {
    Seq::new(rem.len(), |i: int| ChangeView::Removed(rem[i]@))
}

pub open spec fn change_views(cs: Seq<FieldChange>) -> Seq<ChangeView> {
    cs.map_values(|c: FieldChange| c@)
}

/// `lf` fits the model: one entry per field, variant and payload field.
pub open spec fn facts_fit(model: StructModel, lf: LayoutFacts) -> bool {
    &&& lf.fields@.len() == model.fields@.len()
    &&& lf.variant_fields@.len() == model.variants@.len()
    &&& lf.discriminants@.len() == model.variants@.len()
    &&& forall|k: int|
        0 <= k < model.variants@.len() ==> (#[trigger] lf.variant_fields@[k])@.len()
            == model.variants@[k].fields@.len()
}

/// `fs` publishes field `f` laid out at `l`.
pub open spec fn publishes_field(fs: FieldSpec, f: FieldModel, l: FieldLayout) -> bool {
    &&& fs.name@ == member_name(f.member)
    &&& fs.doc == f.doc
    &&& fs.ty_name == f.ty
    &&& fs.offset == l.offset
    &&& fs.size == l.size
    &&& fs.align == l.align
    &&& fs.since == f.since
}

/// `vs` publishes variant `v` with payload layout `slots` and discriminant
/// `disc` (when the enum is fieldless).
pub open spec fn publishes_variant(
    vs: VariantSpec,
    v: VariantModel,
    slots: Seq<SlotLayout>,
    disc: Option<i64>,
) -> bool {
    &&& vs.name == v.ident
    &&& vs.doc == v.doc
    &&& vs.discriminant == disc
    &&& vs.kind == kind_of(v.kind)
    &&& vs.fields@.len() == v.fields@.len()
    &&& forall|j: int|
        0 <= j < v.fields@.len() ==> {
            let p = #[trigger] vs.fields@[j];
            &&& p.name == v.fields@[j].name
            &&& p.ty_name == v.fields@[j].ty
            &&& p.size == slots[j].size
            &&& p.align == slots[j].align
        }
}

/// `m` is the manifest the model publishes under `module`, given the
/// compiler's layout figures and the predecessor's version.
pub open spec fn publishes(
    m: Manifest,
    model: StructModel,
    module: Seq<char>,
    lf: LayoutFacts,
    predecessor: Option<u32>,
) -> bool {
    &&& m.ty_name@ == module + seq![':', ':'] + model.ident@
    &&& m.doc == model.doc
    &&& m.schema_version == model.version
    &&& m.layout == LayoutSpec { size: lf.size, align: lf.align, repr: model.repr }
    &&& m.fields@.len() == model.fields@.len()
    &&& forall|k: int|
        0 <= k < model.fields@.len() ==> publishes_field(
            #[trigger] m.fields@[k],
            model.fields@[k],
            lf.fields@[k],
        )
    &&& m.variants@.len() == model.variants@.len()
    &&& forall|k: int|
        0 <= k < model.variants@.len() ==> publishes_variant(
            #[trigger] m.variants@[k],
            model.variants@[k],
            lf.variant_fields@[k]@,
            if fieldless(model.variants@) {
                Some(lf.discriminants@[k])
            } else {
                None
            },
        )
    &&& match model.migrate_from {
        None => m.evolution.migrates_from is None && m.evolution.changes@.len() == 0,
        Some(_) => {
            &&& m.evolution.migrates_from == predecessor
            &&& change_views(m.evolution.changes@) == changes_of(model.fields@) + removals_of(
                model.removed@,
            )
        },
    }
}

fn kind_to_manifest(shape: VariantShape) -> (k: VariantKind)
    ensures
        k == kind_of(shape),
{
    match shape {
        VariantShape::Unit => VariantKind::Unit,
        VariantShape::Tuple => VariantKind::Tuple,
        VariantShape::Struct => VariantKind::Struct,
    }
}

/// Whether every one of the (one or more) variants is a unit.
pub fn enum_is_fieldless(variants: &Vec<VariantModel>) -> (b: bool)
    ensures
        b == fieldless(variants@),
{
    if variants.len() == 0 {
        return false;
    }
    let mut k: usize = 0;
    while k < variants.len()
        invariant
            k <= variants@.len(),
            variants@.len() > 0,
            forall|j: int| 0 <= j < k ==> (#[trigger] variants@[j]).kind == VariantShape::Unit,
        decreases variants@.len() - k,
    {
        if variants[k].kind != VariantShape::Unit {
            return false;
        }
        k = k + 1;
    }
    true
}

impl StructModel {
    /// Lower the model to the manifest a compiled type publishes, given the
    /// layout figures the compiler computes (`facts`), the module the type is
    /// declared in, and — when it migrates — its predecessor's schema version.
    /// A predecessor that is not an older version is refused.
    pub fn expand(&self, module: &str, facts: &LayoutFacts, predecessor: Option<u32>) -> (r:
        Result<Manifest, DeriveError>)
        requires
            facts_fit(*self, *facts),
            self.migrate_from is Some <==> predecessor is Some,
        ensures
            match predecessor {
                Some(p) => if p >= self.version {
                    r == Err::<Manifest, DeriveError>(
                        DeriveError::PredecessorNotOlder { predecessor: p, version: self.version },
                    )
                } else {
                    r matches Ok(m) && publishes(m, *self, module@, *facts, predecessor)
                },
                None => r matches Ok(m) && publishes(m, *self, module@, *facts, predecessor),
            },
    {
        if let Some(p) = predecessor {
            if p >= self.version {
                return Err(DeriveError::PredecessorNotOlder { predecessor: p, version: self.version });
            }
        }
        let mut ty_name = String::new();
        ty_name.append(module);
        ty_name.append("::");
        ty_name.append(self.ident.as_str());
        proof {
            reveal_strlit("::");
            assert(ty_name@ =~= module@ + seq![':', ':'] + self.ident@);
        }
        let fields = self.field_specs(facts);
        let variants = self.variant_specs(facts);
        let evolution = match predecessor {
            None => EvolutionSpec::genesis(),
            Some(p) => EvolutionSpec { migrates_from: Some(p), changes: self.evolution_changes() },
        };
        Ok(
            Manifest {
                ty_name,
                doc: self.doc.clone(),
                schema_version: self.version,
                layout: LayoutSpec { size: facts.size, align: facts.align, repr: self.repr },
                fields,
                variants,
                evolution,
            },
        )
    }

    fn field_specs(&self, facts: &LayoutFacts) -> (r: Vec<FieldSpec>)
        requires
            facts_fit(*self, *facts),
        ensures
            r@.len() == self.fields@.len(),
            forall|k: int|
                0 <= k < self.fields@.len() ==> publishes_field(
                    #[trigger] r@[k],
                    self.fields@[k],
                    facts.fields@[k],
                ),
    {
        let mut r: Vec<FieldSpec> = Vec::new();
        let mut k: usize = 0;
        while k < self.fields.len()
            invariant
                facts_fit(*self, *facts),
                k <= self.fields@.len(),
                r@.len() == k,
                forall|j: int|
                    0 <= j < k ==> publishes_field(
                        #[trigger] r@[j],
                        self.fields@[j],
                        facts.fields@[j],
                    ),
            decreases self.fields@.len() - k,
        {
            let f = &self.fields[k];
            let l = facts.fields[k];
            r.push(
                FieldSpec {
                    name: f.name_string(),
                    doc: f.doc.clone(),
                    ty_name: f.ty.clone(),
                    offset: l.offset,
                    size: l.size,
                    align: l.align,
                    since: f.since,
                },
            );
            k = k + 1;
        }
        r
    }

    fn variant_specs(&self, facts: &LayoutFacts) -> (r: Vec<VariantSpec>)
        requires
            facts_fit(*self, *facts),
        ensures
            r@.len() == self.variants@.len(),
            forall|k: int|
                0 <= k < self.variants@.len() ==> publishes_variant(
                    #[trigger] r@[k],
                    self.variants@[k],
                    facts.variant_fields@[k]@,
                    if fieldless(self.variants@) {
                        Some(facts.discriminants@[k])
                    } else {
                        None
                    },
                ),
    {
        let is_fieldless = enum_is_fieldless(&self.variants);
        let mut r: Vec<VariantSpec> = Vec::new();
        let mut k: usize = 0;
        while k < self.variants.len()
            invariant
                facts_fit(*self, *facts),
                is_fieldless == fieldless(self.variants@),
                k <= self.variants@.len(),
                r@.len() == k,
                forall|j: int|
                    0 <= j < k ==> publishes_variant(
                        #[trigger] r@[j],
                        self.variants@[j],
                        facts.variant_fields@[j]@,
                        if fieldless(self.variants@) {
                            Some(facts.discriminants@[j])
                        } else {
                            None
                        },
                    ),
            decreases self.variants@.len() - k,
        {
            let v = &self.variants[k];
            let slots = &facts.variant_fields[k];
            assert(slots@.len() == v.fields@.len());
            let mut payload: Vec<VariantFieldSpec> = Vec::new();
            let mut j: usize = 0;
            while j < v.fields.len()
                invariant
                    slots@.len() == v.fields@.len(),
                    j <= v.fields@.len(),
                    payload@.len() == j,
                    forall|i: int|
                        0 <= i < j ==> {
                            let p = #[trigger] payload@[i];
                            &&& p.name == v.fields@[i].name
                            &&& p.ty_name == v.fields@[i].ty
                            &&& p.size == slots@[i].size
                            &&& p.align == slots@[i].align
                        },
                decreases v.fields@.len() - j,
            {
                let vf = &v.fields[j];
                payload.push(
                    VariantFieldSpec {
                        name: clone_opt_string(&vf.name),
                        ty_name: vf.ty.clone(),
                        size: slots[j].size,
                        align: slots[j].align,
                    },
                );
                j = j + 1;
            }
            let discriminant = if is_fieldless {
                Some(facts.discriminants[k])
            } else {
                None
            };
            r.push(
                VariantSpec {
                    name: v.ident.clone(),
                    doc: v.doc.clone(),
                    discriminant,
                    kind: kind_to_manifest(v.kind),
                    fields: payload,
                },
            );
            k = k + 1;
        }
        r
    }

    /// The evolution record: each field's change (in order), then each
    /// removed name.
    fn evolution_changes(&self) -> (r: Vec<FieldChange>)
        ensures
            change_views(r@) == changes_of(self.fields@) + removals_of(self.removed@),
    {
        let mut r: Vec<FieldChange> = Vec::new();
        let mut k: usize = 0;
        while k < self.fields.len()
            invariant
                k <= self.fields@.len(),
                change_views(r@) == changes_of(self.fields@.subrange(0, k as int)),
            decreases self.fields@.len() - k,
        {
            let ghost before = r@;
            proof {
                let pre = self.fields@.subrange(0, k as int + 1);
                assert(pre.drop_last() =~= self.fields@.subrange(0, k as int));
                assert(pre.last() == self.fields@[k as int]);
            }
            match field_change(&self.fields[k]) {
                Some(c) => {
                    r.push(c);
                    assert(change_views(r@) =~= change_views(before) + seq![c@]);
                },
                None => {
                    assert(change_views(r@) =~= change_views(before) + Seq::<ChangeView>::empty());
                },
            }
            k = k + 1;
        }
        assert(self.fields@.subrange(0, k as int) =~= self.fields@);
        let ghost mid = r@;
        let mut i: usize = 0;
        while i < self.removed.len()
            invariant
                i <= self.removed@.len(),
                change_views(mid) == changes_of(self.fields@),
                change_views(r@) == change_views(mid) + removals_of(
                    self.removed@.subrange(0, i as int),
                ),
            decreases self.removed@.len() - i,
        {
            let ghost before = r@;
            r.push(FieldChange::Removed { name: self.removed[i].clone() });
            i = i + 1;
            let ghost last = ChangeView::Removed(self.removed@[i - 1]@);
            assert(change_views(r@) =~= change_views(before).push(last));
            assert(removals_of(self.removed@.subrange(0, i as int)) =~= removals_of(
                self.removed@.subrange(0, i - 1),
            ).push(last));
            assert(change_views(r@) =~= change_views(mid) + removals_of(
                self.removed@.subrange(0, i as int),
            ));
        }
        assert(self.removed@.subrange(0, i as int) =~= self.removed@);
        r
    }
}


/// The diagnostic a refused declaration is reported with.
pub open spec fn error_text(e: DeriveError) -> Seq<char> {
    match e {
        DeriveError::DuplicateKey => "duplicate `ix` attribute key"@,
        DeriveError::UnknownFieldAttribute => "unknown field attribute; expected `since`, `default`, `with` or `rename_from`"@,
        DeriveError::UnknownStructAttribute => "unknown struct attribute; expected `version`, `migrate_from` or `removed`"@,
        DeriveError::SinceAfterVersion { since, version } => "field declares `since = "@ + decimal(
            since as nat,
        ) + "` but the struct is only version "@ + decimal(version as nat),
        DeriveError::RemovedWithoutMigrateFrom => "`removed(..)` records fields dropped from a predecessor, but no `migrate_from` is declared"@,
        DeriveError::RemovedFieldPresent { name } => "`removed(\""@ + name@
            + "\")` names a field that is still present"@,
        DeriveError::EnumMigration => "ix-schema: schema migration is not yet supported on enums"@,
        DeriveError::Union => "`#[derive(Ix)]` supports structs and enums, not unions"@,
        DeriveError::PredecessorNotOlder { .. } => "ix-schema: `migrate_from` target must be an older schema version"@,
    }
}

/// The hint that accompanies the diagnostic, if any.
pub open spec fn help_text(e: DeriveError) -> Option<Seq<char>> {
    match e {
        DeriveError::SinceAfterVersion { .. } => Some(
            "raise the struct's `#[ix(version = ..)]` or lower `since`"@,
        ),
        DeriveError::RemovedWithoutMigrateFrom => Some(
            "add `#[ix(version = .., migrate_from = PrevType)]`"@,
        ),
        DeriveError::RemovedFieldPresent { .. } => Some(
            "delete the field, or drop it from `removed(..)`"@,
        ),
        DeriveError::EnumMigration => Some(
            "derive `Ix` on an enum without `migrate_from`/`removed`"@,
        ),
        DeriveError::Union => Some(
            "a union's fields overlap in memory; model it as a struct with a tag field"@,
        ),
        _ => None,
    }
}

fn owned(lit: &str) -> (r: String)
    ensures
        r@ == lit@,
{
    let mut s = String::new();
    s.append(lit);
    s
}

impl DeriveError {
    /// The diagnostic the declaration is refused with.
    pub fn message(&self) -> (r: String)
        ensures
            r@ == error_text(*self),
    {
        match self {
            DeriveError::DuplicateKey => owned("duplicate `ix` attribute key"),
            DeriveError::UnknownFieldAttribute => owned(
                "unknown field attribute; expected `since`, `default`, `with` or `rename_from`",
            ),
            DeriveError::UnknownStructAttribute => owned(
                "unknown struct attribute; expected `version`, `migrate_from` or `removed`",
            ),
            DeriveError::SinceAfterVersion { since, version } => {
                let mut s = owned("field declares `since = ");
                push_decimal(&mut s, *since as u64);
                s.append("` but the struct is only version ");
                push_decimal(&mut s, *version as u64);
                s
            },
            DeriveError::RemovedWithoutMigrateFrom => owned(
                "`removed(..)` records fields dropped from a predecessor, but no `migrate_from` is declared",
            ),
            DeriveError::RemovedFieldPresent { name } => {
                let mut s = owned("`removed(\"");
                s.append(name.as_str());
                s.append("\")` names a field that is still present");
                s
            },
            DeriveError::EnumMigration => owned(
                "ix-schema: schema migration is not yet supported on enums",
            ),
            DeriveError::Union => owned("`#[derive(Ix)]` supports structs and enums, not unions"),
            DeriveError::PredecessorNotOlder { .. } => owned(
                "ix-schema: `migrate_from` target must be an older schema version",
            ),
        }
    }

    /// The hint that accompanies the diagnostic, if any.
    pub fn help(&self) -> (r: Option<String>)
        ensures
            match help_text(*self) {
                Some(h) => r matches Some(s) && s@ == h,
                None => r is None,
            },
    {
        match self {
            DeriveError::SinceAfterVersion { .. } => Some(
                owned("raise the struct's `#[ix(version = ..)]` or lower `since`"),
            ),
            DeriveError::RemovedWithoutMigrateFrom => Some(
                owned("add `#[ix(version = .., migrate_from = PrevType)]`"),
            ),
            DeriveError::RemovedFieldPresent { .. } => Some(
                owned("delete the field, or drop it from `removed(..)`"),
            ),
            DeriveError::EnumMigration => Some(
                owned("derive `Ix` on an enum without `migrate_from`/`removed`"),
            ),
            DeriveError::Union => Some(
                owned("a union's fields overlap in memory; model it as a struct with a tag field"),
            ),
            _ => None,
        }
    }
}


proof fn lemma_fields_check_each(fs: Seq<FieldInput>, version: u32)
    requires
        fields_check(fs, version) is Ok,
    ensures
        forall|k: int| 0 <= k < fs.len() ==> (#[trigger] field_check(fs[k], version)) is Ok,
    decreases fs.len(),
{
    if fs.len() > 0 {
        let pre = fs.drop_last();
        lemma_fields_check_each(pre, version);
        assert forall|k: int| 0 <= k < fs.len() implies (#[trigger] field_check(fs[k], version))
            is Ok by {
            if k < pre.len() {
                assert(fs[k] == pre[k]);
            }
        }
    }
}

/// No accepted field is newer than its type: every field the analysis keeps
/// was introduced at or before the declared schema version.
pub proof fn lemma_accepted_fields_not_newer(input: DeriveInput, m: StructModel)
    requires
        analysis_outcome(input) is Ok,
        models_declaration(m, input),
    ensures
        forall|k: int| 0 <= k < m.fields@.len() ==> (#[trigger] m.fields@[k]).since <= m.version,
{
    if let ItemData::Struct(fs) = input.data {
        let version = m.version;
        lemma_fields_check_each(fs@, version);
        assert forall|k: int| 0 <= k < m.fields@.len() implies (#[trigger] m.fields@[k]).since
            <= m.version by {
            assert(field_check(fs@[k], version) is Ok);
            assert(models_field(m.fields@[k], fs@[k], k, field_check(fs@[k], version)->Ok_0));
        }
    }
}

proof fn lemma_removed_check_each(rem: Seq<String>, fs: Seq<FieldInput>)
    requires
        removed_check(rem, fs) is Ok,
    ensures
        forall|i: int| 0 <= i < rem.len() ==> !names_a_field(fs, (#[trigger] rem[i])@),
    decreases rem.len(),
{
    if rem.len() > 0 {
        let pre = rem.drop_last();
        lemma_removed_check_each(pre, fs);
        assert forall|i: int| 0 <= i < rem.len() implies !names_a_field(fs, (#[trigger] rem[i])@) by {
            if i < pre.len() {
                assert(rem[i] == pre[i]);
            }
        }
    }
}

/// An accepted declaration never lists as removed a name it still publishes.
pub proof fn lemma_removed_names_are_gone(input: DeriveInput, m: StructModel)
    requires
        analysis_outcome(input) is Ok,
        models_declaration(m, input),
    ensures
        forall|i: int, k: int|
            0 <= i < m.removed@.len() && 0 <= k < m.fields@.len() ==> (#[trigger] m.removed@[i])@
                != member_name((#[trigger] m.fields@[k]).member),
{
    if let ItemData::Struct(fs) = input.data {
        let version = m.version;
        let rem = m.removed@;
        if !(rem.len() > 0 && m.migrate_from is None) {
            lemma_removed_check_each(rem, fs@);
        }
        assert forall|i: int, k: int|
            0 <= i < m.removed@.len() && 0 <= k < m.fields@.len() implies (#[trigger] m.removed@[i])@
                != member_name((#[trigger] m.fields@[k]).member) by {
            assert(!names_a_field(fs@, rem[i]@));
            assert(models_field(m.fields@[k], fs@[k], k, field_check(fs@[k], version)->Ok_0));
            assert(input_name(fs@, k) == member_name(m.fields@[k].member));
        }
    }
}

/// A field records no change in the evolution exactly when the migration
/// carries it over unchanged from the predecessor.
pub proof fn lemma_unrecorded_iff_carried(f: FieldModel)
    ensures
        change_of(f) is None <==> init_of(f) is Carried,
{
}


/// The last `#[repr(..)]` entry that is `C`, `transparent` or `packed`
/// decides the representation, and an explicit packing is kept: entries
/// after it that ix ignores change nothing.
pub proof fn lemma_last_recognised_repr_wins(hints: Seq<ReprHint>, k: int)
    requires
        0 <= k < hints.len(),
        !(hints[k] is Other),
        forall|j: int| k < j < hints.len() ==> (#[trigger] hints[j]) is Other,
    ensures
        hints[k] is C ==> repr_of(hints) == Repr::C,
        hints[k] is Transparent ==> repr_of(hints) == Repr::Transparent,
        hints[k] == ReprHint::Packed(None) ==> repr_of(hints) == Repr::Packed(1),
        forall|n: usize|
            hints[k] == ReprHint::Packed(Some(n)) ==> repr_of(hints) == Repr::Packed(n),
    decreases hints.len(),
{
    if k < hints.len() - 1 {
        let pre = hints.drop_last();
        assert(hints[hints.len() - 1] is Other);
        assert forall|j: int| k < j < pre.len() implies (#[trigger] pre[j]) is Other by {
            assert(pre[j] == hints[j]);
        }
        assert(pre[k] == hints[k]);
        lemma_last_recognised_repr_wins(pre, k);
    }
}

/// Without a `C`, `transparent` or `packed` entry the type keeps Rust's
/// own representation.
pub proof fn lemma_unrecognised_repr_is_rust(hints: Seq<ReprHint>)
    requires
        forall|j: int| 0 <= j < hints.len() ==> (#[trigger] hints[j]) is Other,
    ensures
        repr_of(hints) == Repr::Rust,
    decreases hints.len(),
{
    if hints.len() > 0 {
        let pre = hints.drop_last();
        assert(hints[hints.len() - 1] is Other);
        assert forall|j: int| 0 <= j < pre.len() implies (#[trigger] pre[j]) is Other by {
            assert(pre[j] == hints[j]);
        }
        lemma_unrecognised_repr_is_rust(pre);
    }
}

/// Each published field carries the compiler's figures for it unchanged:
/// its offset, its size and its alignment, each from its own layout entry.
pub proof fn lemma_published_field_layout(
    m: Manifest,
    model: StructModel,
    module: Seq<char>,
    lf: LayoutFacts,
    predecessor: Option<u32>,
)
    requires
        publishes(m, model, module, lf, predecessor),
    ensures
        m.fields@.len() == model.fields@.len(),
        forall|k: int|
            0 <= k < m.fields@.len() ==> {
                &&& (#[trigger] m.fields@[k]).offset == lf.fields@[k].offset
                &&& m.fields@[k].size == lf.fields@[k].size
                &&& m.fields@[k].align == lf.fields@[k].align
            },
{
    assert forall|k: int| 0 <= k < m.fields@.len() implies {
        &&& (#[trigger] m.fields@[k]).offset == lf.fields@[k].offset
        &&& m.fields@[k].size == lf.fields@[k].size
        &&& m.fields@[k].align == lf.fields@[k].align
    } by {
        assert(publishes_field(m.fields@[k], model.fields@[k], lf.fields@[k]));
    }
}

proof fn lemma_field_changes_are_not_removals(fs: Seq<FieldModel>)
    ensures
        forall|j: int| 0 <= j < changes_of(fs).len() ==> !((#[trigger] changes_of(fs)[j]) is Removed),
        changes_of(fs).len() <= fs.len(),
    decreases fs.len(),
{
    if fs.len() > 0 {
        let pre = fs.drop_last();
        lemma_field_changes_are_not_removals(pre);
        let tail = match change_of(fs.last()) {
            Some(c) => seq![c],
            None => Seq::<ChangeView>::empty(),
        };
        let all = changes_of(fs);
        assert(all == changes_of(pre) + tail);
        assert forall|j: int| 0 <= j < all.len() implies !((#[trigger] all[j]) is Removed) by {
            if j < changes_of(pre).len() {
                assert(all[j] == changes_of(pre)[j]);
            } else {
                assert(all[j] == tail[j - changes_of(pre).len()]);
            }
        }
    }
}

/// A migrating manifest records every name listed in `removed(..)`: its
/// evolution record ends with one `Removed` entry per name, in the order
/// listed, and holds no other `Removed` entry.
pub proof fn lemma_every_removal_recorded(
    m: Manifest,
    model: StructModel,
    module: Seq<char>,
    lf: LayoutFacts,
    predecessor: Option<u32>,
)
    requires
        publishes(m, model, module, lf, predecessor),
        model.migrate_from is Some,
    ensures
        model.removed@.len() <= m.evolution.changes@.len(),
        forall|i: int|
            0 <= i < model.removed@.len() ==> m.evolution.changes@[m.evolution.changes@.len()
                - model.removed@.len() + i]@ == ChangeView::Removed(
                (#[trigger] model.removed@[i])@,
            ),
        forall|j: int|
            0 <= j < m.evolution.changes@.len() ==> ((#[trigger] m.evolution.changes@[j])@ is Removed
                <==> j >= m.evolution.changes@.len() - model.removed@.len()),
{
    let cs = m.evolution.changes@;
    let fc = changes_of(model.fields@);
    let rem = model.removed@;
    lemma_field_changes_are_not_removals(model.fields@);
    assert(change_views(cs) == fc + removals_of(rem));
    assert(change_views(cs).len() == cs.len());
    assert forall|j: int| 0 <= j < cs.len() implies (#[trigger] cs[j])@ == (fc + removals_of(
        rem,
    ))[j] by {
        assert(change_views(cs)[j] == cs[j]@);
    }
    assert forall|i: int| 0 <= i < rem.len() implies cs[cs.len() - rem.len() + i]@
        == ChangeView::Removed((#[trigger] rem[i])@) by {
        assert(cs[cs.len() - rem.len() + i]@ == (fc + removals_of(rem))[fc.len() + i]);
    }
    assert forall|j: int| 0 <= j < cs.len() implies ((#[trigger] cs[j])@ is Removed <==> j >= cs.len()
        - rem.len()) by {
        if j < fc.len() {
            assert(cs[j]@ == fc[j]);
        } else {
            assert(cs[j]@ == removals_of(rem)[j - fc.len()]);
        }
    }
}

} // verus!
