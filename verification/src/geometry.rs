use vstd::prelude::*;

verus! {

/// A pointer position, in whole units relative to the top-left corner of the grid.
#[derive(Clone, Copy, Debug, PartialEq, Eq, Structural)]
pub struct Point {
    pub x: i32,
    pub y: i32,
}

/// A displacement between two positions.
#[derive(Clone, Copy, Debug, PartialEq, Eq, Structural)]
pub struct Vector {
    pub x: i64,
    pub y: i64,
}

/// A position inside a rectangle, from the rectangle's top-left corner.
#[derive(Clone, Copy, Debug, PartialEq, Eq, Structural)]
pub struct Offset {
    pub x: u32,
    pub y: u32,
}

/// The extent of an area.
#[derive(Clone, Copy, Debug, PartialEq, Eq, Structural)]
pub struct Size {
    pub width: u32,
    pub height: u32,
}

/// An axis-aligned rectangle.
#[derive(Clone, Copy, Debug, PartialEq, Eq, Structural)]
pub struct Rectangle {
    pub x: i64,
    pub y: i64,
    pub width: u32,
    pub height: u32,
}

impl Rectangle {
    /// Whether `point` lies inside the rectangle, borders included.
    pub open spec fn contains_spec(&self, point: Point) -> bool {
        &&& self.x <= point.x <= self.x + self.width
        &&& self.y <= point.y <= self.y + self.height
    }

    /// Whether the unit cell whose top-left corner is `(cx, cy)` lies inside the rectangle.
    pub open spec fn covers(self, cx: int, cy: int) -> bool {
        &&& self.x <= cx < self.x + self.width
        &&& self.y <= cy < self.y + self.height
    }

    /// The number of unit cells inside the rectangle.
    pub open spec fn area(self) -> nat {
        (self.width * self.height) as nat
    }

    /// Whether some unit cell lies inside both rectangles.
    pub open spec fn overlaps(self, other: Rectangle) -> bool {
        &&& self.width > 0 && self.height > 0
        &&& other.width > 0 && other.height > 0
        &&& self.x < other.x + other.width
        &&& other.x < self.x + self.width
        &&& self.y < other.y + other.height
        &&& other.y < self.y + self.height
    }

    /// The far edges, and any band of up to `u32::MAX` units around the near
    /// ones, can be written as `i64`.
    pub open spec fn fits(self) -> bool {
        &&& i64::MIN + u32::MAX <= self.x
        &&& self.x + self.width <= i64::MAX
        &&& i64::MIN + u32::MAX <= self.y
        &&& self.y + self.height <= i64::MAX
    }

    /// Whether `self` lies inside `outer`.
    pub open spec fn within(self, outer: Rectangle) -> bool {
        &&& outer.x <= self.x
        &&& self.x + self.width <= outer.x + outer.width
        &&& outer.y <= self.y
        &&& self.y + self.height <= outer.y + outer.height
    }

    /// The rectangle of the given size whose top-left corner is the origin.
    pub open spec fn with_size_spec(size: Size) -> Rectangle {
        Rectangle { x: 0, y: 0, width: size.width, height: size.height }
    }

    #[verifier::when_used_as_spec(with_size_spec)]
    pub fn with_size(size: Size) -> (r: Rectangle)
        ensures
            r == Rectangle::with_size_spec(size),
    {
        Rectangle { x: 0, y: 0, width: size.width, height: size.height }
    }

    #[verifier::when_used_as_spec(contains_spec)]
    pub fn contains(&self, point: Point) -> (inside: bool)
        ensures
            inside == self.contains_spec(point),
    {
        let px: i128 = point.x as i128;
        let py: i128 = point.y as i128;
        let left: i128 = self.x as i128;
        let top: i128 = self.y as i128;
        left <= px && px <= left + self.width as i128 && top <= py && py <= top
            + self.height as i128
    }
}

} // verus!
