//! What the pointer holds at the moment.

use crate::axis::Axis;
use crate::geometry::Offset;
use crate::pane::Pane;
use crate::split::Split;
use vstd::prelude::*;

verus! {

/// The gesture that is under way. It lasts from a press to the next release
/// and is no part of the layout.
#[derive(Clone, Copy, Debug, PartialEq, Eq, Structural)]
pub enum Interaction {
    /// Nothing is held.
    Idle,
    /// A pane is being dragged.
    PanePicked {
        /// The dragged pane.
        pane: Pane,
        /// Where in the pane it was picked, from the pane's top-left corner.
        origin_offset: Offset,
    },
    /// A split is being dragged.
    SplitPicked {
        /// The dragged split.
        split: Split,
        /// The direction of the split.
        axis: Axis,
    },
}

impl Interaction {
    /// The pane that is being dragged, and where it was picked.
    pub open spec fn picked_pane_spec(&self) -> Option<(Pane, Offset)> {
        match *self {
            Interaction::PanePicked { pane, origin_offset } => Some((pane, origin_offset)),
            _ => None,
        }
    }

    /// The split that is being dragged, and its direction.
    pub open spec fn picked_split_spec(&self) -> Option<(Split, Axis)> {
        match *self {
            Interaction::SplitPicked { split, axis } => Some((split, axis)),
            _ => None,
        }
    }

    #[verifier::when_used_as_spec(picked_pane_spec)]
    pub fn picked_pane(&self) -> (picked: Option<(Pane, Offset)>)
        ensures
            picked == self.picked_pane_spec(),
    {
        match *self {
            Interaction::PanePicked { pane, origin_offset } => Some((pane, origin_offset)),
            _ => None,
        }
    }

    #[verifier::when_used_as_spec(picked_split_spec)]
    pub fn picked_split(&self) -> (picked: Option<(Split, Axis)>)
        ensures
            picked == self.picked_split_spec(),
    {
        match *self {
            Interaction::SplitPicked { split, axis } => Some((split, axis)),
            _ => None,
        }
    }

    /// Starts dragging `pane`.
    pub fn pick_pane(&mut self, pane: Pane, origin_offset: Offset)
        ensures
            *final(self) == (Interaction::PanePicked { pane, origin_offset }),
    {
        *self = Interaction::PanePicked { pane, origin_offset };
    }

    /// Starts dragging `split`.
    pub fn pick_split(&mut self, split: Split, axis: Axis)
        ensures
            *final(self) == (Interaction::SplitPicked { split, axis }),
    {
        *self = Interaction::SplitPicked { split, axis };
    }

    /// Lets go of whatever is held.
    pub fn idle(&mut self)
        ensures
            *final(self) == Interaction::Idle,
    {
        *self = Interaction::Idle;
    }
}

} // verus!
