//! How a grid looks.

use vstd::prelude::*;

verus! {

/// A color, by its red, green, blue and alpha parts.
#[derive(Clone, Copy, Debug, PartialEq, Eq, Structural)]
pub struct Color {
    pub r: u8,
    pub g: u8,
    pub b: u8,
    pub a: u8,
}

/// A line that highlights a split.
#[derive(Clone, Copy, Debug, PartialEq, Eq, Structural)]
pub struct Line {
    /// The color of the line.
    pub color: Color,
    /// The width of the line.
    pub width: u32,
}

/// The lines that highlight the splits of a grid.
#[derive(Clone, Copy, Debug, PartialEq, Eq, Structural)]
pub struct Style {
    /// The line to draw on a split that is being dragged; none to draw nothing.
    pub picked_split: Option<Line>,
    /// The line to draw on a split under the pointer; none to draw nothing.
    pub hovered_split: Option<Line>,
}

impl Style {
    /// The style that highlights nothing.
    pub open spec fn default_spec() -> Style {
        Style { picked_split: None, hovered_split: None }
    }
}

impl Default for Style {
    fn default() -> (style: Style)
        ensures
            style == Style::default_spec(),
    {
        Style { picked_split: None, hovered_split: None }
    }
}

/// How much room a grid asks for along one direction.
#[derive(Clone, Copy, Debug, PartialEq, Eq, Structural)]
pub enum Length {
    /// All the room that is left.
    Fill,
    /// A share of the room that is left.
    FillPortion(u16),
    /// As little as possible.
    Shrink,
    /// A fixed number of units.
    Units(u16),
}

} // verus!
