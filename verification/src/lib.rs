//! A tiling pane grid: a binary tree of splits and panes, the pixel regions
//! it occupies, and the pointer gestures that rearrange it.
//!
//! All geometry is in whole units relative to the top-left corner of the grid.

pub mod axis;
pub mod event;
pub mod geometry;
pub mod hit;
pub mod interaction;
pub mod node;
pub mod pane;
pub mod split;
pub mod state;
pub mod structure;
pub mod style;
pub mod tiling;
pub mod widget;

pub use axis::{Axis, Ratio, RATIO_MAX, RATIO_MIN, RATIO_SCALE};
pub use event::{
    Button, DragEvent, Event, Gesture, Message, MouseEvent, MouseInteraction, ResizeEvent, Status,
    TouchEvent,
};
pub use geometry::{Offset, Point, Rectangle, Size, Vector};
pub use hit::{hovered_split, pane_at};
pub use interaction::Interaction;
pub use node::{Node, SplitRegion};
pub use pane::Pane;
pub use split::Split;
pub use state::State;
pub use style::{Color, Length, Line, Style};
pub use widget::{
    Content, ContentTarget, Drawing, Highlight, Outcome, PaneDrawing, PaneGrid,
};
