//! The input that a grid reads and the events that it hands to the
//! application.

use crate::axis::Ratio;
use crate::pane::Pane;
use crate::split::Split;
use vstd::prelude::*;

verus! {

/// A button of a mouse.
#[derive(Clone, Copy, Debug, PartialEq, Eq, Structural)]
pub enum Button {
    /// The primary button.
    Left,
    /// The secondary button.
    Right,
    /// The wheel button.
    Middle,
    /// Any other button.
    Other,
}

/// What a mouse did.
#[derive(Clone, Copy, Debug, PartialEq, Eq, Structural)]
pub enum MouseEvent {
    /// A button went down.
    ButtonPressed(Button),
    /// A button went up.
    ButtonReleased(Button),
    /// The cursor moved.
    CursorMoved,
    /// Anything else.
    Other,
}

/// What a finger did.
#[derive(Clone, Copy, Debug, PartialEq, Eq, Structural)]
pub enum TouchEvent {
    /// A finger touched the surface.
    FingerPressed,
    /// A finger moved on the surface.
    FingerMoved,
    /// A finger left the surface.
    FingerLifted,
    /// A finger was lost track of.
    FingerLost,
}

/// An input event, as far as a grid is concerned.
#[derive(Clone, Copy, Debug, PartialEq, Eq, Structural)]
pub enum Event {
    /// A mouse event.
    Mouse(MouseEvent),
    /// A touch event.
    Touch(TouchEvent),
    /// An event of another device.
    Other,
}

/// What kind of pointer gesture an event is.
#[derive(Clone, Copy, Debug, PartialEq, Eq, Structural)]
pub enum Gesture {
    /// The primary button or a finger went down.
    Press,
    /// The primary button or a finger went up.
    Release,
    /// The pointer moved.
    Move,
    /// Nothing that a grid reacts to.
    Nothing,
}

impl Event {
    /// The gesture that the event stands for.
    pub open spec fn gesture_spec(self) -> Gesture {
        match self {
            Event::Mouse(MouseEvent::ButtonPressed(Button::Left)) => Gesture::Press,
            Event::Touch(TouchEvent::FingerPressed) => Gesture::Press,
            Event::Mouse(MouseEvent::ButtonReleased(Button::Left)) => Gesture::Release,
            Event::Touch(TouchEvent::FingerLifted) => Gesture::Release,
            Event::Touch(TouchEvent::FingerLost) => Gesture::Release,
            Event::Mouse(MouseEvent::CursorMoved) => Gesture::Move,
            Event::Touch(TouchEvent::FingerMoved) => Gesture::Move,
            _ => Gesture::Nothing,
        }
    }

    #[verifier::when_used_as_spec(gesture_spec)]
    pub fn gesture(self) -> (gesture: Gesture)
        ensures
            gesture == self.gesture_spec(),
    {
        match self {
            Event::Mouse(MouseEvent::ButtonPressed(Button::Left)) => Gesture::Press,
            Event::Touch(TouchEvent::FingerPressed) => Gesture::Press,
            Event::Mouse(MouseEvent::ButtonReleased(Button::Left)) => Gesture::Release,
            Event::Touch(TouchEvent::FingerLifted) => Gesture::Release,
            Event::Touch(TouchEvent::FingerLost) => Gesture::Release,
            Event::Mouse(MouseEvent::CursorMoved) => Gesture::Move,
            Event::Touch(TouchEvent::FingerMoved) => Gesture::Move,
            _ => Gesture::Nothing,
        }
    }
}

/// Whether an event was used.
#[derive(Clone, Copy, Debug, PartialEq, Eq, Structural)]
pub enum Status {
    /// Nothing reacted to the event.
    Ignored,
    /// Something reacted to the event.
    Captured,
}

impl Status {
    /// Captured where either is.
    pub open spec fn merge_spec(self, other: Status) -> Status {
        if self == Status::Captured || other == Status::Captured {
            Status::Captured
        } else {
            Status::Ignored
        }
    }

    /// Combines the status of two parts that saw the same event.
    #[verifier::when_used_as_spec(merge_spec)]
    pub fn merge(self, other: Status) -> (merged: Status)
        ensures
            merged == self.merge_spec(other),
    {
        match self {
            Status::Captured => Status::Captured,
            Status::Ignored => other,
        }
    }
}

impl Status {
    /// Captured where `self` or one of `others` is.
    pub open spec fn merge_all_spec(self, others: Seq<Status>) -> Status {
        if self == Status::Captured || exists|i: int|
            0 <= i < others.len() && others[i] == Status::Captured {
            Status::Captured
        } else {
            Status::Ignored
        }
    }

    /// Combines the status of a grid with those of the contents of its
    /// panes, which saw the same event.
    pub fn merge_all(self, others: &Vec<Status>) -> (merged: Status)
        ensures
            merged == self.merge_all_spec(others@),
    {
        let mut merged = self;
        let mut i: usize = 0;
        while i < others.len()
            invariant
                0 <= i <= others.len(),
                merged == self.merge_all_spec(others@.take(i as int)),
            decreases others.len() - i,
        {
            proof {
                let before = others@.take(i as int);
                let after = others@.take(i + 1);
                assert(after[i as int] == others@[i as int]);
                assert forall|j: int| 0 <= j < before.len() implies before[j] == after[j] by {}
            }
            merged = merged.merge(others[i]);
            i += 1;
        }
        assert(others@.take(others.len() as int) =~= others@);
        merged
    }
}

/// How the pointer shows what it can do where it is.
#[derive(Clone, Copy, Debug, PartialEq, Eq, Structural)]
pub enum MouseInteraction {
    Idle,
    Pointer,
    Grab,
    Text,
    Crosshair,
    Working,
    Grabbing,
    ResizingHorizontally,
    ResizingVertically,
}

impl MouseInteraction {
    /// The rank of the interaction: of several, the one with the highest
    /// rank is shown.
    pub open spec fn rank_spec(self) -> u8 {
        match self {
            MouseInteraction::Idle => 0,
            MouseInteraction::Pointer => 1,
            MouseInteraction::Grab => 2,
            MouseInteraction::Text => 3,
            MouseInteraction::Crosshair => 4,
            MouseInteraction::Working => 5,
            MouseInteraction::Grabbing => 6,
            MouseInteraction::ResizingHorizontally => 7,
            MouseInteraction::ResizingVertically => 8,
        }
    }

    #[verifier::when_used_as_spec(rank_spec)]
    pub fn rank(self) -> (rank: u8)
        ensures
            rank == self.rank_spec(),
    {
        match self {
            MouseInteraction::Idle => 0,
            MouseInteraction::Pointer => 1,
            MouseInteraction::Grab => 2,
            MouseInteraction::Text => 3,
            MouseInteraction::Crosshair => 4,
            MouseInteraction::Working => 5,
            MouseInteraction::Grabbing => 6,
            MouseInteraction::ResizingHorizontally => 7,
            MouseInteraction::ResizingVertically => 8,
        }
    }

    /// The interaction of the highest rank among `interactions`; idle where
    /// there is none.
    pub open spec fn strongest_spec(interactions: Seq<MouseInteraction>) -> MouseInteraction
        decreases interactions.len(),
    {
        if interactions.len() == 0 {
            MouseInteraction::Idle
        } else {
            let before = MouseInteraction::strongest_spec(interactions.drop_last());
            if interactions.last().rank() >= before.rank() {
                interactions.last()
            } else {
                before
            }
        }
    }

    /// Picks the interaction of the highest rank.
    pub fn strongest(interactions: &Vec<MouseInteraction>) -> (strongest: MouseInteraction)
        ensures
            strongest == MouseInteraction::strongest_spec(interactions@),
    {
        let mut strongest = MouseInteraction::Idle;
        let mut i: usize = 0;
        assert(interactions@.take(0) =~= Seq::<MouseInteraction>::empty());
        while i < interactions.len()
            invariant
                0 <= i <= interactions.len(),
                strongest == MouseInteraction::strongest_spec(interactions@.take(i as int)),
            decreases interactions.len() - i,
        {
            proof {
                assert(interactions@.take(i + 1).drop_last() =~= interactions@.take(i as int));
                assert(interactions@.take(i + 1).last() == interactions@[i as int]);
            }
            if interactions[i].rank() >= strongest.rank() {
                strongest = interactions[i];
            }
            i += 1;
        }
        assert(interactions@.take(interactions.len() as int) =~= interactions@);
        strongest
    }
}

/// An event of a drag and drop of a pane.
#[derive(Clone, Copy, Debug, PartialEq, Eq, Structural)]
pub enum DragEvent {
    /// A pane was picked for dragging.
    Picked {
        /// The picked pane.
        pane: Pane,
    },
    /// A pane was dropped on top of another pane.
    Dropped {
        /// The picked pane.
        pane: Pane,
        /// The pane where the picked one was dropped on.
        target: Pane,
    },
    /// A pane was picked and then dropped outside of the other panes.
    Canceled {
        /// The picked pane.
        pane: Pane,
    },
}

/// An event of a split dragged for resizing.
#[derive(Clone, Copy, Debug, PartialEq, Eq, Structural)]
pub struct ResizeEvent {
    /// The split that is being dragged.
    pub split: Split,
    /// The new ratio of the split, between one tenth and nine tenths.
    pub ratio: Ratio,
}

/// What a grid tells the application.
#[derive(Clone, Copy, Debug, PartialEq, Eq, Structural)]
pub enum Message {
    /// A pane was pressed.
    PaneClicked(Pane),
    /// A pane was picked, dropped or let go.
    Dragged(DragEvent),
    /// A split was dragged.
    Resized(ResizeEvent),
}

} // verus!
