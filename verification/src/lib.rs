use vstd::prelude::*;

pub mod claim;
pub mod error;
pub mod fees;
pub mod governance;
pub mod key;
pub mod liquidity;
pub mod math;
pub mod orders;
pub mod position;
pub mod staking;
pub mod user_profile;
pub mod valuation;
pub mod views;

verus! {

} // verus!
