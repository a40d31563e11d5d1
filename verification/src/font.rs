//! Font design units.
use vstd::prelude::*;

verus! {

/// A length measured in font design units.
pub type FontUnit = i32;

/// Design units per em of the math font.
pub const UNITS_PER_EM: i32 = 1000;

/// Whether a mathematical integer is representable as a `FontUnit`.
pub open spec fn fits(v: int) -> bool {
    i32::MIN <= v <= i32::MAX
}

} // verus!
