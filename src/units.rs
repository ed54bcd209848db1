use vstd::prelude::*;

verus! {

/// Fixed-point scale of ratios and fractions: `RATIO_SCALE` stands for 1.0.
pub const RATIO_SCALE: u64 = 1_000_000;

/// Fixed-point scale of traded quantities and volumes: `QTY_SCALE` stands for one unit
/// of the base asset.
pub const QTY_SCALE: u64 = 100_000_000;

} // verus!
