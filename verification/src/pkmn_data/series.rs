//! A series of sets.

use crate::pkmn_data::set::CardSet;
use vstd::prelude::*;

verus! {

/// A series and the sets that belong to it.
#[derive(Debug)]
pub struct Series {
    pub name: String,
    pub sets: Vec<CardSet>,
}

impl Series {
    /// The series of the given name and sets.
    pub fn new(name: &str, sets: Vec<CardSet>) -> (res: Self)
        ensures
            res.name@ == name@,
            res.sets == sets,
    {
        Self { name: name.to_owned(), sets }
    }
}

} // verus!
