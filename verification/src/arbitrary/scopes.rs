//! Zero-data markers that select a comparison strategy at the call site.

use vstd::prelude::*;

pub mod map_value_diff;

verus! {

/// The default strategy of a collection.
#[derive(Eq, PartialEq, Clone, Debug)]
pub struct Base;

/// Leaf comparison by equality.
#[derive(Eq, PartialEq, Clone, Debug)]
pub struct Simple;

} // verus!
