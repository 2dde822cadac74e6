//! Strategies for the values of a map.

use vstd::prelude::*;

verus! {

/// The values of common keys are diffed by their own strategy.
#[derive(Eq, PartialEq, Clone, Debug)]
pub struct Arbitrarily;

/// The values of common keys are compared by equality.
#[derive(Eq, PartialEq, Clone, Debug)]
pub struct Simply;

} // verus!
