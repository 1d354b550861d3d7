use vstd::prelude::*;

verus! {

/// A named group of cards of a deck, with the number of cards that belong to it.
#[derive(Debug)]
pub struct Category {
    pub size: u64,
    pub name: String,
}

} // verus!
