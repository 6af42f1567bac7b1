use vstd::prelude::*;

verus! {

/// The identity of a divider between two parts of a grid.
///
/// A state hands out each number once.
#[derive(Clone, Copy, Debug, PartialEq, Eq, Structural, Hash, PartialOrd, Ord)]
pub struct Split(pub usize);

} // verus!
