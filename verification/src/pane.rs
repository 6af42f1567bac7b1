use vstd::prelude::*;

verus! {

/// The identity of a pane of a grid.
///
/// A state hands out each number once.
#[derive(Clone, Copy, Debug, PartialEq, Eq, Structural, Hash, PartialOrd, Ord)]
pub struct Pane(pub usize);

} // verus!
