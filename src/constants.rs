use vstd::prelude::*;

verus! {

/// Denominator of a market's `fee_rate` and of the creator's fee share: both are percents.
pub const FEE_DENOMINATOR: u64 = 100;

/// Direction code of an Up bet in the bet arguments.
pub const DIRECTION_UP: u8 = 1;

/// Direction code of a Down bet in the bet arguments.
pub const DIRECTION_DOWN: u8 = 2;

} // verus!
