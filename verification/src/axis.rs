use crate::geometry::Rectangle;
use vstd::prelude::*;

verus! {

/// The number of parts a whole is divided into by a [`Ratio`].
pub const RATIO_SCALE: u32 = 1_000_000;

/// The smallest ratio a split of a well-formed tree has: one tenth.
pub const RATIO_MIN: u32 = 100_000;

/// The largest ratio a split of a well-formed tree has: nine tenths.
pub const RATIO_MAX: u32 = 900_000;

/// A fraction of an extent, in millionths.
///
/// Values above one million stand for the whole extent.
#[derive(Clone, Copy, Debug, PartialEq, Eq, Structural)]
pub struct Ratio {
    pub millionths: u32,
}

impl Ratio {
    /// The ratio of a fresh split: one half.
    pub open spec fn half_spec() -> Ratio {
        Ratio { millionths: 500_000 }
    }

    /// The nearest ratio between one tenth and nine tenths.
    pub open spec fn clamped_spec(self) -> Ratio {
        if self.millionths < RATIO_MIN {
            Ratio { millionths: RATIO_MIN }
        } else if self.millionths > RATIO_MAX {
            Ratio { millionths: RATIO_MAX }
        } else {
            self
        }
    }

    /// Whether the ratio lies between one tenth and nine tenths.
    pub open spec fn is_clamped(self) -> bool {
        RATIO_MIN <= self.millionths <= RATIO_MAX
    }

    /// The millionths that geometry works with: never more than the whole.
    pub open spec fn part(self) -> int {
        if self.millionths > RATIO_SCALE {
            RATIO_SCALE as int
        } else {
            self.millionths as int
        }
    }

    #[verifier::when_used_as_spec(half_spec)]
    pub fn half() -> (r: Ratio)
        ensures
            r == Ratio::half_spec(),
    {
        Ratio { millionths: 500_000 }
    }

    #[verifier::when_used_as_spec(clamped_spec)]
    pub fn clamped(self) -> (r: Ratio)
        ensures
            r == self.clamped_spec(),
    {
        if self.millionths < RATIO_MIN {
            Ratio { millionths: RATIO_MIN }
        } else if self.millionths > RATIO_MAX {
            Ratio { millionths: RATIO_MAX }
        } else {
            self
        }
    }
}

/// Where a line of the given thickness starts when it is centered at `ratio`
/// of `extent`: `extent * ratio - thickness / 2`, rounded to the nearest whole
/// unit, halves away from zero. Negative when the line sticks out in front.
pub open spec fn line_offset(extent: int, ratio: Ratio, thickness: int) -> int {
    let doubled = 2 * (extent * ratio.part()) - thickness * RATIO_SCALE;
    if doubled >= 0 {
        (doubled + RATIO_SCALE) / (2 * RATIO_SCALE)
    } else {
        -((RATIO_SCALE - doubled) / (2 * RATIO_SCALE))
    }
}

/// Where the first part of an extent ends when it is split at `ratio` with
/// `spacing` units left free around the split line.
pub open spec fn cut_start(extent: int, ratio: Ratio, spacing: int) -> int {
    let line = line_offset(extent, ratio, spacing);
    if line < 0 {
        0
    } else {
        line
    }
}

/// Where the second part of an extent starts when it is split at `ratio` with
/// `spacing` units left free around the split line.
pub open spec fn cut_end(extent: int, ratio: Ratio, spacing: int) -> int {
    let line = line_offset(extent, ratio, spacing);
    if line + spacing > extent {
        extent
    } else {
        line + spacing
    }
}

/// The line starts no further than half its thickness in front of the extent
/// and no later than the extent's end, so the cuts are ordered:
/// `0 <= cut_start <= cut_end <= extent`.
pub proof fn lemma_line_offset_bounds(extent: int, ratio: Ratio, thickness: int)
    requires
        0 <= extent,
        0 <= thickness,
    ensures
        -thickness <= line_offset(extent, ratio, thickness) <= extent,
        0 <= cut_start(extent, ratio, thickness) <= cut_end(extent, ratio, thickness) <= extent,
{
    let part = ratio.part();
    let scaled = extent * part;
    assert(0 <= scaled <= extent * RATIO_SCALE) by (nonlinear_arith)
        requires
            0 <= extent,
            0 <= part <= RATIO_SCALE,
            scaled == extent * part,
    ;
    let doubled = 2 * scaled - thickness * 1_000_000;
    assert(doubled == 2 * (extent * ratio.part()) - thickness * RATIO_SCALE);
    if doubled >= 0 {
        assert((doubled + 1_000_000) / 2_000_000 <= extent);
    } else {
        assert(thickness >= 1);
        assert((1_000_000 - doubled) / 2_000_000 <= thickness);
    }
}

/// A thicker line around the same center starts no later and ends no earlier.
pub proof fn lemma_line_offset_widens(extent: int, ratio: Ratio, thickness: int, extra: int)
    requires
        0 <= extent,
        0 <= thickness,
        0 <= extra,
    ensures
        line_offset(extent, ratio, thickness + extra) <= line_offset(extent, ratio, thickness),
        line_offset(extent, ratio, thickness + extra) + thickness + extra >= line_offset(
            extent,
            ratio,
            thickness,
        ) + thickness,
{
    let scaled = extent * ratio.part();
    assert((thickness + extra) * RATIO_SCALE == thickness * RATIO_SCALE + extra * RATIO_SCALE);
}

impl Default for Axis {
    fn default() -> (axis: Axis)
        ensures
            axis == Axis::default_spec(),
    {
        Axis::Horizontal
    }
}

/// The direction of a split.
#[derive(Clone, Copy, Debug, PartialEq, Eq, Structural, Hash)]
pub enum Axis {
    /// The split line is horizontal: it divides top from bottom.
    Horizontal,
    /// The split line is vertical: it divides left from right.
    Vertical,
}

impl Axis {
    /// The axis where none is asked for: horizontal.
    pub open spec fn default_spec() -> Axis {
        Axis::Horizontal
    }

    /// The two parts of `rectangle` on either side of a split.
    ///
    /// The split line is centered at `ratio` of the rectangle's extent along
    /// the axis, and each part stops `spacing / 2` short of it. Where the
    /// spacing does not fit, the free strip is cut off at the rectangle's
    /// border. The parts and the strip between them fill the rectangle.
    pub open spec fn split_spec(self, rectangle: Rectangle, ratio: Ratio, spacing: u32) -> (
        Rectangle,
        Rectangle,
    ) {
        match self {
            Axis::Horizontal => {
                let start = cut_start(rectangle.height as int, ratio, spacing as int);
                let end = cut_end(rectangle.height as int, ratio, spacing as int);
                (
                    Rectangle { height: start as u32, ..rectangle },
                    Rectangle {
                        y: (rectangle.y + end) as i64,
                        height: (rectangle.height - end) as u32,
                        ..rectangle
                    },
                )
            },
            Axis::Vertical => {
                let start = cut_start(rectangle.width as int, ratio, spacing as int);
                let end = cut_end(rectangle.width as int, ratio, spacing as int);
                (
                    Rectangle { width: start as u32, ..rectangle },
                    Rectangle {
                        x: (rectangle.x + end) as i64,
                        width: (rectangle.width - end) as u32,
                        ..rectangle
                    },
                )
            },
        }
    }

    /// The strip that a split leaves free between the two parts.
    pub open spec fn gap_spec(self, rectangle: Rectangle, ratio: Ratio, spacing: u32) -> Rectangle {
        match self {
            Axis::Horizontal => {
                let start = cut_start(rectangle.height as int, ratio, spacing as int);
                let end = cut_end(rectangle.height as int, ratio, spacing as int);
                Rectangle {
                    y: (rectangle.y + start) as i64,
                    height: (end - start) as u32,
                    ..rectangle
                }
            },
            Axis::Vertical => {
                let start = cut_start(rectangle.width as int, ratio, spacing as int);
                let end = cut_end(rectangle.width as int, ratio, spacing as int);
                Rectangle { x: (rectangle.x + start) as i64, width: (end - start) as u32, ..rectangle }
            },
        }
    }

    /// The band of the given thickness centered on the split line. It is not
    /// cut off at the rectangle's border.
    pub open spec fn split_line_bounds_spec(
        self,
        rectangle: Rectangle,
        ratio: Ratio,
        thickness: u32,
    ) -> Rectangle {
        match self {
            Axis::Horizontal => Rectangle {
                x: rectangle.x,
                y: (rectangle.y + line_offset(rectangle.height as int, ratio, thickness as int)) as i64,
                width: rectangle.width,
                height: thickness,
            },
            Axis::Vertical => Rectangle {
                x: (rectangle.x + line_offset(rectangle.width as int, ratio, thickness as int)) as i64,
                y: rectangle.y,
                width: thickness,
                height: rectangle.height,
            },
        }
    }

    /// Computes [`line_offset`].
    pub fn line_position(extent: u32, ratio: Ratio, thickness: u32) -> (offset: i64)
        ensures
            offset == line_offset(extent as int, ratio, thickness as int),
            -thickness <= offset <= extent,
    {
        let scale: u64 = RATIO_SCALE as u64;
        let part: u64 = if ratio.millionths > RATIO_SCALE {
            scale
        } else {
            ratio.millionths as u64
        };
        proof {
            lemma_line_offset_bounds(extent as int, ratio, thickness as int);
            assert(0 <= extent * part <= extent * 1_000_000) by (nonlinear_arith)
                requires
                    0 <= extent,
                    0 <= part <= 1_000_000,
            ;
        }
        let scaled: u64 = extent as u64 * part;
        let centre: u64 = 2 * scaled;
        let half: u64 = thickness as u64 * scale;
        if centre >= half {
            ((centre - half + scale) / (2 * scale)) as i64
        } else {
            -(((half - centre + scale) / (2 * scale)) as i64)
        }
    }

    /// Splits `rectangle` in two along the axis.
    pub fn split(&self, rectangle: &Rectangle, ratio: Ratio, spacing: u32) -> (parts: (
        Rectangle,
        Rectangle,
    ))
        requires
            rectangle.fits(),
        ensures
            parts == self.split_spec(*rectangle, ratio, spacing),
            parts.0.within(*rectangle),
            parts.1.within(*rectangle),
    {
        match self {
            Axis::Horizontal => {
                let line: i64 = Axis::line_position(rectangle.height, ratio, spacing);
                let start: u32 = if line < 0 {
                    0
                } else {
                    line as u32
                };
                let end: u32 = if line + spacing as i64 > rectangle.height as i64 {
                    rectangle.height
                } else {
                    (line + spacing as i64) as u32
                };
                (
                    Rectangle {
                        x: rectangle.x,
                        y: rectangle.y,
                        width: rectangle.width,
                        height: start,
                    },
                    Rectangle {
                        x: rectangle.x,
                        y: rectangle.y + end as i64,
                        width: rectangle.width,
                        height: rectangle.height - end,
                    },
                )
            },
            Axis::Vertical => {
                let line: i64 = Axis::line_position(rectangle.width, ratio, spacing);
                let start: u32 = if line < 0 {
                    0
                } else {
                    line as u32
                };
                let end: u32 = if line + spacing as i64 > rectangle.width as i64 {
                    rectangle.width
                } else {
                    (line + spacing as i64) as u32
                };
                (
                    Rectangle {
                        x: rectangle.x,
                        y: rectangle.y,
                        width: start,
                        height: rectangle.height,
                    },
                    Rectangle {
                        x: rectangle.x + end as i64,
                        y: rectangle.y,
                        width: rectangle.width - end,
                        height: rectangle.height,
                    },
                )
            },
        }
    }

    /// The band around the split line of `rectangle` in which the split can be
    /// grabbed or is highlighted.
    pub fn split_line_bounds(&self, rectangle: Rectangle, ratio: Ratio, thickness: u32) -> (bounds:
        Rectangle)
        requires
            rectangle.fits(),
        ensures
            bounds == self.split_line_bounds_spec(rectangle, ratio, thickness),
    {
        match self {
            Axis::Horizontal => Rectangle {
                x: rectangle.x,
                y: rectangle.y + Axis::line_position(rectangle.height, ratio, thickness),
                width: rectangle.width,
                height: thickness,
            },
            Axis::Vertical => Rectangle {
                x: rectangle.x + Axis::line_position(rectangle.width, ratio, thickness),
                y: rectangle.y,
                width: thickness,
                height: rectangle.height,
            },
        }
    }
}

} // verus!
