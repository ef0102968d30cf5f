//! Type-safe schema migration: a version implements [`MigrateFrom`] its
//! predecessor field by field (see [`crate::model::field_init`] for how each
//! field is initialised), and [`Upgrade`] walks a whole chain of versions.
use vstd::prelude::*;

verus! {

/// A schema version that can be built from its predecessor `Prev`.
pub trait MigrateFrom<Prev>: Sized {
    /// Lift a value of the previous schema into this one.
    fn migrate_from(prev: Prev) -> Self;
}

/// A value of an older schema that can be brought up to `Target`, across one
/// or more migration edges.
pub trait Upgrade<Target> {
    /// Walk the migration chain from this version to `Target`.
    fn upgrade(self) -> Target;
}

/// One migration edge: `Next` built from `prev`.
pub fn upgrade_one<Prev, Next: MigrateFrom<Prev>>(prev: Prev) -> (r: Next)
    ensures
        call_ensures(Next::migrate_from, (prev,), r),
{
    Next::migrate_from(prev)
}

/// Two migration edges in order: `prev` lifted to `Mid`, then to `Next`, each
/// hop applying its own defaults.
pub fn upgrade_two<Prev, Mid: MigrateFrom<Prev>, Next: MigrateFrom<Mid>>(prev: Prev) -> (r: Next)
    ensures
        exists|mid: Mid|
            call_ensures(Mid::migrate_from, (prev,), mid) && call_ensures(
                Next::migrate_from,
                (mid,),
                r,
            ),
{
    let mid = Mid::migrate_from(prev);
    let r = Next::migrate_from(mid);
    assert(call_ensures(Mid::migrate_from, (prev,), mid));
    r
}

} // verus!
