use vstd::prelude::*;

pub mod holding;
pub mod laws;
pub mod risk;
pub mod rounding;

verus! {

} // verus!
