//! Grammatical condition sets: bit masks over a fixed universe of category tags.
use vstd::prelude::*;

verus! {

/// A set of grammatical categories, one bit each; `UNCONSTRAINED` places no constraint.
pub type ConditionSet = u32;

/// The set that places no constraint on a word.
pub const UNCONSTRAINED: u32 = 0;

/// Two condition sets are compatible when they share a category, or when either is
/// unconstrained.
pub open spec fn compatible_spec(a: u32, b: u32) -> bool {
    a == 0 || b == 0 || a & b != 0
}

/// Whether the condition sets `a` and `b` are compatible.
pub fn conditions_compatible(a: u32, b: u32) -> (r: bool)
    ensures
        r == compatible_spec(a, b),
{
    a == 0 || b == 0 || a & b != 0
}

} // verus!
