//! The manifest: everything a type publishes about itself — its fields, its
//! variants, its memory layout and how its schema evolved.
use vstd::prelude::*;

verus! {

/// The `#[repr(..)]` a type was declared with.
#[derive(Clone, Copy, Debug, PartialEq, Eq, Structural)]
pub enum Repr {
    /// The default Rust representation (field order not guaranteed).
    Rust,
    /// `#[repr(C)]`.
    C,
    /// `#[repr(transparent)]`.
    Transparent,
    /// `#[repr(packed(n))]`; a bare `packed` is `Packed(1)`.
    Packed(usize),
}

/// Size, alignment and representation of a whole type.
#[derive(Clone, Copy, Debug, PartialEq, Eq, Structural)]
pub struct LayoutSpec {
    pub size: usize,
    pub align: usize,
    pub repr: Repr,
}

/// One field of a struct (tuple positions are named `"0"`, `"1"`, ...).
#[derive(Clone, Debug, PartialEq, Eq)]
pub struct FieldSpec {
    pub name: String,
    pub doc: String,
    pub ty_name: String,
    pub offset: usize,
    pub size: usize,
    pub align: usize,
    /// Schema version the field was introduced in.
    pub since: u32,
}

/// The shape of an enum variant's payload.
#[derive(Clone, Copy, Debug, PartialEq, Eq, Structural)]
pub enum VariantKind {
    Unit,
    Tuple,
    Struct,
}

/// One payload field of a data-carrying variant (no offset: Rust gives no
/// constant access to variant field offsets).
#[derive(Clone, Debug, PartialEq, Eq)]
pub struct VariantFieldSpec {
    /// `None` for a tuple position.
    pub name: Option<String>,
    pub ty_name: String,
    pub size: usize,
    pub align: usize,
}

/// One enum variant.
#[derive(Clone, Debug, PartialEq, Eq)]
pub struct VariantSpec {
    pub name: String,
    pub doc: String,
    /// The integer discriminant; known only when every variant is a unit.
    pub discriminant: Option<i64>,
    pub kind: VariantKind,
    pub fields: Vec<VariantFieldSpec>,
}

/// One recorded difference between a schema version and its predecessor.
#[derive(Clone, Debug, PartialEq, Eq)]
pub enum FieldChange {
    Added { name: String },
    Removed { name: String },
    Renamed { from: String, to: String },
    Transformed { name: String },
}

/// Where a schema version came from.
#[derive(Clone, Debug, PartialEq, Eq)]
pub struct EvolutionSpec {
    /// The predecessor's schema version, if this version migrates from one.
    pub migrates_from: Option<u32>,
    pub changes: Vec<FieldChange>,
}

impl EvolutionSpec {
    /// The evolution record of a first version: no predecessor, no changes.
    pub fn genesis() -> (e: EvolutionSpec)
        ensures
            e.migrates_from is None,
            e.changes@.len() == 0,
    {
        EvolutionSpec { migrates_from: None, changes: Vec::new() }
    }
}

/// Everything a type publishes about itself.
#[derive(Clone, Debug, PartialEq, Eq)]
pub struct Manifest {
    pub ty_name: String,
    pub doc: String,
    pub schema_version: u32,
    pub layout: LayoutSpec,
    /// Fields in declaration order (empty for an enum).
    pub fields: Vec<FieldSpec>,
    /// Variants in declaration order (empty for a struct).
    pub variants: Vec<VariantSpec>,
    pub evolution: EvolutionSpec,
}

/// Sum of the sizes of `fields`.
pub open spec fn sum_sizes(fields: Seq<FieldSpec>) -> nat
    decreases fields.len(),
{
    if fields.len() == 0 {
        0
    } else {
        sum_sizes(fields.drop_last()) + fields.last().size as nat
    }
}

/// `new` carries `old` unchanged: same name, offset, size and type.
pub open spec fn same_slot(new: FieldSpec, old: FieldSpec) -> bool {
    &&& new.name@ == old.name@
    &&& new.offset == old.offset
    &&& new.size == old.size
    &&& new.ty_name@ == old.ty_name@
}

/// Some field of `fields` carries `old` unchanged.
pub open spec fn carries(fields: Seq<FieldSpec>, old: FieldSpec) -> bool {
    exists|j: int| 0 <= j < fields.len() && same_slot(#[trigger] fields[j], old)
}

impl Manifest {
    /// Total bytes the fields occupy, padding excluded.
    pub open spec fn spec_packed_field_bytes(&self) -> nat {
        sum_sizes(self.fields@)
    }

    /// The fields fit in the type: true of every manifest a real type
    /// publishes, since fields occupy disjoint bytes of the value.
    pub open spec fn well_formed(&self) -> bool {
        self.spec_packed_field_bytes() <= self.layout.size
    }

    /// Bytes of the value that belong to no field.
    pub open spec fn spec_padding_bytes(&self) -> int {
        self.layout.size - self.spec_packed_field_bytes()
    }

    /// Every field of `older` is still here, at the same offset, with the same
    /// size and type: an append-only, layout-compatible extension.
    pub open spec fn spec_extends(&self, older: &Manifest) -> bool {
        forall|i: int|
            0 <= i < older.fields@.len() ==> carries(self.fields@, #[trigger] older.fields@[i])
    }


    /// Whether the fields fit in the type (see [`Manifest::well_formed`]):
    /// the test to make before asking about padding.
    pub fn fields_fit(&self) -> (b: bool)
        ensures
            b == self.well_formed(),
    {
        let mut total: usize = 0;
        let mut i: usize = 0;
        while i < self.fields.len()
            invariant
                i <= self.fields@.len(),
                total == sum_sizes(self.fields@.subrange(0, i as int)),
                total <= self.layout.size,
            decreases self.fields@.len() - i,
        {
            proof {
                lemma_sum_sizes_prefix(self.fields@, i as int + 1);
                assert(self.fields@.subrange(0, i as int + 1).drop_last() =~= self.fields@.subrange(
                    0,
                    i as int,
                ));
            }
            let size = self.fields[i].size;
            if size > self.layout.size - total {
                proof {
                    lemma_sum_sizes_monotone(self.fields@, i as int + 1, self.fields@.len() as int);
                    assert(self.fields@.subrange(0, self.fields@.len() as int) =~= self.fields@);
                }
                return false;
            }
            total = total + size;
            i = i + 1;
        }
        assert(self.fields@.subrange(0, i as int) =~= self.fields@);
        true
    }

    /// Sum of the field sizes (top level only).
    pub fn packed_field_bytes(&self) -> (n: usize)
        requires
            self.spec_packed_field_bytes() <= usize::MAX,
        ensures
            n == self.spec_packed_field_bytes(),
    {
        let mut total: usize = 0;
        let mut i: usize = 0;
        while i < self.fields.len()
            invariant
                i <= self.fields@.len(),
                total == sum_sizes(self.fields@.subrange(0, i as int)),
                sum_sizes(self.fields@) <= usize::MAX,
            decreases self.fields@.len() - i,
        {
            proof {
                lemma_sum_sizes_prefix(self.fields@, i as int + 1);
                lemma_sum_sizes_monotone(self.fields@, i as int + 1, self.fields@.len() as int);
                assert(self.fields@.subrange(0, i as int + 1).drop_last() =~= self.fields@.subrange(
                    0,
                    i as int,
                ));
                assert(self.fields@.subrange(0, self.fields@.len() as int) =~= self.fields@);
            }
            total = total + self.fields[i].size;
            i = i + 1;
        }
        assert(self.fields@.subrange(0, i as int) =~= self.fields@);
        total
    }

    /// Bytes of the value that belong to no field (top level only: padding
    /// nested inside a field's own type counts as that field's size).
    pub fn padding_bytes(&self) -> (n: usize)
        requires
            self.well_formed(),
        ensures
            n == self.spec_padding_bytes(),
            n + self.spec_packed_field_bytes() == self.layout.size,
    {
        self.layout.size - self.packed_field_bytes()
    }

    /// Whether the fields cover every byte of the value (top level only).
    pub fn is_gap_free(&self) -> (b: bool)
        requires
            self.well_formed(),
        ensures
            b == (self.spec_padding_bytes() == 0),
            b == (self.spec_packed_field_bytes() == self.layout.size),
    {
        self.padding_bytes() == 0
    }

    /// Whether `self` is an append-only, layout-compatible extension of
    /// `older`: each of `older`'s fields is still present under the same name,
    /// at the same offset, with the same size and type.
    pub fn extends(&self, older: &Manifest) -> (b: bool)
        ensures
            b == self.spec_extends(older),
    {
        let mut i: usize = 0;
        while i < older.fields.len()
            invariant
                i <= older.fields@.len(),
                forall|k: int| 0 <= k < i ==> carries(self.fields@, #[trigger] older.fields@[k]),
            decreases older.fields@.len() - i,
        {
            if !carries_field(&self.fields, &older.fields[i]) {
                return false;
            }
            i = i + 1;
        }
        true
    }
}

/// Whether some field of `fields` carries `old` unchanged.
fn carries_field(fields: &Vec<FieldSpec>, old: &FieldSpec) -> (b: bool)
    ensures
        b == carries(fields@, *old),
{
    let mut j: usize = 0;
    while j < fields.len()
        invariant
            j <= fields@.len(),
            forall|k: int| 0 <= k < j ==> !same_slot(#[trigger] fields@[k], *old),
        decreases fields@.len() - j,
    {
        let f = &fields[j];
        if f.name == old.name && f.offset == old.offset && f.size == old.size && f.ty_name
            == old.ty_name {
            return true;
        }
        j = j + 1;
    }
    false
}

proof fn lemma_sum_sizes_prefix(fields: Seq<FieldSpec>, k: int)
    requires
        0 < k <= fields.len(),
    ensures
        sum_sizes(fields.subrange(0, k)) == sum_sizes(fields.subrange(0, k - 1)) + fields[k
            - 1].size,
{
    assert(fields.subrange(0, k).drop_last() =~= fields.subrange(0, k - 1));
}

proof fn lemma_sum_sizes_monotone(fields: Seq<FieldSpec>, j: int, k: int)
    requires
        0 <= j <= k <= fields.len(),
    ensures
        sum_sizes(fields.subrange(0, j)) <= sum_sizes(fields.subrange(0, k)),
    decreases k - j,
{
    if j < k {
        lemma_sum_sizes_prefix(fields, k);
        lemma_sum_sizes_monotone(fields, j, k - 1);
    }
}

/// Every manifest extends itself.
pub proof fn lemma_extends_reflexive(m: &Manifest)
    ensures
        m.spec_extends(m),
{
    assert forall|i: int| 0 <= i < m.fields@.len() implies carries(
        m.fields@,
        #[trigger] m.fields@[i],
    ) by {
        assert(same_slot(m.fields@[i], m.fields@[i]));
    }
}

/// Compatibility composes along a chain of versions: if `c` extends `b` and
/// `b` extends `a`, then `c` extends `a`.
pub proof fn lemma_extends_transitive(a: &Manifest, b: &Manifest, c: &Manifest)
    requires
        b.spec_extends(a),
        c.spec_extends(b),
    ensures
        c.spec_extends(a),
{
    assert forall|i: int| 0 <= i < a.fields@.len() implies carries(
        c.fields@,
        #[trigger] a.fields@[i],
    ) by {
        let j = choose|j: int| 0 <= j < b.fields@.len() && same_slot(#[trigger] b.fields@[j], a.fields@[i]);
        assert(carries(c.fields@, b.fields@[j]));
        let k = choose|k: int| 0 <= k < c.fields@.len() && same_slot(#[trigger] c.fields@[k], b.fields@[j]);
        assert(same_slot(c.fields@[k], a.fields@[i]));
    }
}


/// A version that keeps every field of its predecessor in place and only
/// appends new ones after them extends the predecessor.
pub proof fn lemma_append_only_extends(older: &Manifest, newer: &Manifest)
    requires
        older.fields@.len() <= newer.fields@.len(),
        forall|i: int|
            0 <= i < older.fields@.len() ==> same_slot(
                #[trigger] newer.fields@[i],
                older.fields@[i],
            ),
    ensures
        newer.spec_extends(older),
{
    assert forall|i: int| 0 <= i < older.fields@.len() implies carries(
        newer.fields@,
        #[trigger] older.fields@[i],
    ) by {
        assert(same_slot(newer.fields@[i], older.fields@[i]));
    }
}

/// A version that no longer carries some field of its predecessor — dropped,
/// renamed, moved, resized or retyped — does not extend it.
pub proof fn lemma_lost_field_breaks_extension(older: &Manifest, newer: &Manifest, i: int)
    requires
        0 <= i < older.fields@.len(),
        forall|j: int|
            0 <= j < newer.fields@.len() ==> !same_slot(
                #[trigger] newer.fields@[j],
                older.fields@[i],
            ),
    ensures
        !newer.spec_extends(older),
{
    assert(!carries(newer.fields@, older.fields@[i]));
}

} // verus!
