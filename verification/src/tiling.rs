//! The regions of a laid out tree fill its area: every unit cell of the area
//! lies in the rectangle of exactly one pane or in the free strip of exactly
//! one split.

use crate::axis::{cut_end, cut_start, lemma_line_offset_bounds, Axis, Ratio};
use crate::geometry::{Rectangle, Size};
use crate::node::Node;
use crate::pane::Pane;
use vstd::prelude::*;

verus! {

/// How many of the rectangles hold the unit cell at `(cx, cy)`.
pub open spec fn count_covering(rectangles: Seq<Rectangle>, cx: int, cy: int) -> nat
    decreases rectangles.len(),
{
    if rectangles.len() == 0 {
        0
    } else {
        count_covering(rectangles.drop_last(), cx, cy) + if rectangles.last().covers(cx, cy) {
            1nat
        } else {
            0nat
        }
    }
}

/// The rectangles of the regions, in their order.
pub open spec fn rectangles_of(regions: Seq<(Pane, Rectangle)>) -> Seq<Rectangle> {
    Seq::new(regions.len(), |i: int| regions[i].1)
}

/// The sum of the areas of the rectangles.
pub open spec fn total_area(rectangles: Seq<Rectangle>) -> nat
    decreases rectangles.len(),
{
    if rectangles.len() == 0 {
        0
    } else {
        total_area(rectangles.drop_last()) + rectangles.last().area()
    }
}

/// A cell is counted in a concatenation as often as in both parts together.
pub proof fn lemma_count_concat(left: Seq<Rectangle>, right: Seq<Rectangle>, cx: int, cy: int)
    ensures
        count_covering(left + right, cx, cy) == count_covering(left, cx, cy) + count_covering(
            right,
            cx,
            cy,
        ),
    decreases right.len(),
{
    if right.len() == 0 {
        assert(left + right =~= left);
    } else {
        assert((left + right).drop_last() =~= left + right.drop_last());
        assert((left + right).last() == right.last());
        lemma_count_concat(left, right.drop_last(), cx, cy);
    }
}

/// The area of a concatenation is the area of both parts together.
pub proof fn lemma_area_concat(left: Seq<Rectangle>, right: Seq<Rectangle>)
    ensures
        total_area(left + right) == total_area(left) + total_area(right),
    decreases right.len(),
{
    if right.len() == 0 {
        assert(left + right =~= left);
    } else {
        assert((left + right).drop_last() =~= left + right.drop_last());
        assert((left + right).last() == right.last());
        lemma_area_concat(left, right.drop_last());
    }
}

/// One rectangle alone counts a cell once where it holds it, and has its own
/// area.
pub proof fn lemma_count_single(rectangle: Rectangle, cx: int, cy: int)
    ensures
        count_covering(seq![rectangle], cx, cy) == if rectangle.covers(cx, cy) {
            1nat
        } else {
            0nat
        },
        total_area(seq![rectangle]) == rectangle.area(),
{
    let single = seq![rectangle];
    assert(single.drop_last() =~= Seq::<Rectangle>::empty());
    assert(single.last() == rectangle);
    assert(count_covering(single.drop_last(), cx, cy) == 0);
    assert(total_area(single.drop_last()) == 0);
}

/// A cell that two of the rectangles hold is counted at least twice, and one
/// that one of them holds at least once.
pub proof fn lemma_count_at_least(rectangles: Seq<Rectangle>, i: int, j: int, cx: int, cy: int)
    requires
        0 <= i <= j < rectangles.len(),
        rectangles[i].covers(cx, cy),
        rectangles[j].covers(cx, cy),
    ensures
        count_covering(rectangles, cx, cy) >= 1,
        i < j ==> count_covering(rectangles, cx, cy) >= 2,
    decreases rectangles.len(),
{
    let rest = rectangles.drop_last();
    if j == rectangles.len() - 1 {
        if i < j {
            assert(rest[i] == rectangles[i]);
            lemma_count_at_least(rest, i, i, cx, cy);
        }
    } else {
        assert(rest[i] == rectangles[i] && rest[j] == rectangles[j]);
        lemma_count_at_least(rest, i, j, cx, cy);
    }
}

/// The rectangles of a concatenation are those of both parts.
pub proof fn lemma_rectangles_of_concat(left: Seq<(Pane, Rectangle)>, right: Seq<(Pane, Rectangle)>)
    ensures
        rectangles_of(left + right) == rectangles_of(left) + rectangles_of(right),
{
    assert(rectangles_of(left + right) =~= rectangles_of(left) + rectangles_of(right));
}

impl Axis {
    /// The two parts of a split and the strip between them lie inside the
    /// rectangle, each cell of the rectangle lies in exactly one of the
    /// three, and their areas add up to the rectangle's.
    pub proof fn lemma_split_partitions(self, rectangle: Rectangle, ratio: Ratio, spacing: u32)
        requires
            rectangle.fits(),
        ensures
            self.split_spec(rectangle, ratio, spacing).0.within(rectangle),
            self.split_spec(rectangle, ratio, spacing).1.within(rectangle),
            self.gap_spec(rectangle, ratio, spacing).within(rectangle),
            self.split_spec(rectangle, ratio, spacing).0.fits(),
            self.split_spec(rectangle, ratio, spacing).1.fits(),
            forall|cx: int, cy: int|
                #![trigger self.gap_spec(rectangle, ratio, spacing).covers(cx, cy)]
                {
                    let first = self.split_spec(rectangle, ratio, spacing).0.covers(cx, cy);
                    let second = self.split_spec(rectangle, ratio, spacing).1.covers(cx, cy);
                    let gap = self.gap_spec(rectangle, ratio, spacing).covers(cx, cy);
                    &&& rectangle.covers(cx, cy) <==> first || second || gap
                    &&& !(first && second)
                    &&& !(first && gap)
                    &&& !(second && gap)
                },
            self.split_spec(rectangle, ratio, spacing).0.area() + self.split_spec(
                rectangle,
                ratio,
                spacing,
            ).1.area() + self.gap_spec(rectangle, ratio, spacing).area() == rectangle.area(),
    {
        let extent: int = match self {
            Axis::Horizontal => rectangle.height as int,
            Axis::Vertical => rectangle.width as int,
        };
        let across: int = match self {
            Axis::Horizontal => rectangle.width as int,
            Axis::Vertical => rectangle.height as int,
        };
        lemma_line_offset_bounds(extent, ratio, spacing as int);
        let start = cut_start(extent, ratio, spacing as int);
        let end = cut_end(extent, ratio, spacing as int);
        assert(start * across + (extent - end) * across + (end - start) * across == extent * across)
            by (nonlinear_arith);
        assert(across * start + across * (extent - end) + across * (end - start) == across * extent)
            by (nonlinear_arith);
    }
}

impl Node {
    /// The regions name the panes of the tree, in their order, and the free
    /// strips belong to its splits, in their order.
    pub proof fn lemma_regions_follow_tree(self, spacing: u32, current: Rectangle)
        ensures
            self.pane_regions_in(spacing, current).len() == self.panes().len(),
            forall|i: int|
                0 <= i < self.panes().len() ==> (#[trigger] self.pane_regions_in(
                    spacing,
                    current,
                )[i]).0 == self.panes()[i],
            self.split_regions_in(spacing, current).len() == self.splits().len(),
            self.gaps_in(spacing, current).len() == self.splits().len(),
            forall|i: int|
                0 <= i < self.splits().len() ==> (#[trigger] self.split_regions_in(
                    spacing,
                    current,
                )[i]).split == self.splits()[i],
        decreases self,
    {
        match self {
            Node::Pane(_) => {},
            Node::Split { axis, ratio, first, second, .. } => {
                let parts = axis.split_spec(current, ratio, spacing);
                first.lemma_regions_follow_tree(spacing, parts.0);
                second.lemma_regions_follow_tree(spacing, parts.1);
            },
        }
    }

    /// Every pane's rectangle and every split's rectangle lies inside the
    /// area that the tree fills.
    pub proof fn lemma_regions_within(self, spacing: u32, current: Rectangle)
        requires
            current.fits(),
        ensures
            forall|i: int|
                0 <= i < self.pane_regions_in(spacing, current).len() ==> (
                #[trigger] self.pane_regions_in(spacing, current)[i]).1.within(current),
            forall|i: int|
                0 <= i < self.split_regions_in(spacing, current).len() ==> (
                #[trigger] self.split_regions_in(spacing, current)[i]).rectangle.within(current),
        decreases self,
    {
        match self {
            Node::Pane(_) => {},
            Node::Split { axis, ratio, first, second, .. } => {
                let parts = axis.split_spec(current, ratio, spacing);
                axis.lemma_split_partitions(current, ratio, spacing);
                first.lemma_regions_within(spacing, parts.0);
                second.lemma_regions_within(spacing, parts.1);
                let first_panes = first.pane_regions_in(spacing, parts.0);
                let second_panes = second.pane_regions_in(spacing, parts.1);
                assert forall|i: int|
                    0 <= i < self.pane_regions_in(spacing, current).len() implies (
                #[trigger] self.pane_regions_in(spacing, current)[i]).1.within(current) by {
                    if i < first_panes.len() {
                        assert(first_panes[i].1.within(parts.0));
                    } else {
                        assert(second_panes[i - first_panes.len()].1.within(parts.1));
                    }
                }
                let first_splits = first.split_regions_in(spacing, parts.0);
                let second_splits = second.split_regions_in(spacing, parts.1);
                assert forall|i: int|
                    0 <= i < self.split_regions_in(spacing, current).len() implies (
                #[trigger] self.split_regions_in(spacing, current)[i]).rectangle.within(current) by {
                    if i == 0 {
                    } else if i - 1 < first_splits.len() {
                        assert(first_splits[i - 1].rectangle.within(parts.0));
                    } else {
                        assert(second_splits[i - 1 - first_splits.len()].rectangle.within(parts.1));
                    }
                }
            },
        }
    }

    /// Among the rectangles of the panes and the free strips of the splits, a
    /// cell of the area lies in exactly one, and a cell outside in none. The
    /// areas of all of them add up to the area that the tree fills.
    pub proof fn lemma_tiles_in(self, spacing: u32, current: Rectangle, cx: int, cy: int)
        requires
            current.fits(),
        ensures
            count_covering(rectangles_of(self.pane_regions_in(spacing, current)), cx, cy)
                + count_covering(self.gaps_in(spacing, current), cx, cy) == if current.covers(
                cx,
                cy,
            ) {
                1nat
            } else {
                0nat
            },
            total_area(rectangles_of(self.pane_regions_in(spacing, current))) + total_area(
                self.gaps_in(spacing, current),
            ) == current.area(),
        decreases self,
    {
        match self {
            Node::Pane(pane) => {
                assert(rectangles_of(self.pane_regions_in(spacing, current)) =~= seq![current]);
                lemma_count_single(current, cx, cy);
            },
            Node::Split { axis, ratio, first, second, .. } => {
                let parts = axis.split_spec(current, ratio, spacing);
                let gap = axis.gap_spec(current, ratio, spacing);
                axis.lemma_split_partitions(current, ratio, spacing);
                assert(gap.covers(cx, cy) || !gap.covers(cx, cy));
                first.lemma_tiles_in(spacing, parts.0, cx, cy);
                second.lemma_tiles_in(spacing, parts.1, cx, cy);
                let first_panes = first.pane_regions_in(spacing, parts.0);
                let second_panes = second.pane_regions_in(spacing, parts.1);
                lemma_rectangles_of_concat(first_panes, second_panes);
                lemma_count_concat(rectangles_of(first_panes), rectangles_of(second_panes), cx, cy);
                lemma_area_concat(rectangles_of(first_panes), rectangles_of(second_panes));
                let first_gaps = first.gaps_in(spacing, parts.0);
                let second_gaps = second.gaps_in(spacing, parts.1);
                lemma_count_concat(seq![gap], first_gaps, cx, cy);
                lemma_count_concat(seq![gap] + first_gaps, second_gaps, cx, cy);
                lemma_area_concat(seq![gap], first_gaps);
                lemma_area_concat(seq![gap] + first_gaps, second_gaps);
                lemma_count_single(gap, cx, cy);
            },
        }
    }

    /// Laid out in an area of any size, the rectangles of the panes and the
    /// free strips of the splits tile the area: each unit cell of it lies in
    /// exactly one of them, no cell outside it lies in any, and their areas
    /// add up to the area's.
    pub proof fn lemma_regions_tile(self, spacing: u32, size: Size, cx: int, cy: int)
        ensures
            count_covering(
                rectangles_of(self.pane_regions_in(spacing, Rectangle::with_size(size))),
                cx,
                cy,
            ) + count_covering(self.gaps_in(spacing, Rectangle::with_size(size)), cx, cy)
                == if 0 <= cx < size.width && 0 <= cy < size.height {
                1nat
            } else {
                0nat
            },
            total_area(rectangles_of(self.pane_regions_in(spacing, Rectangle::with_size(size))))
                + total_area(self.gaps_in(spacing, Rectangle::with_size(size))) == size.width
                * size.height,
    {
        self.lemma_tiles_in(spacing, Rectangle::with_size(size), cx, cy);
    }

    /// Laid out in an area of any size, no two panes' rectangles overlap, and
    /// each lies inside the area.
    pub proof fn lemma_regions_disjoint(self, spacing: u32, size: Size, i: int, j: int)
        requires
            0 <= i < j < self.pane_regions_in(spacing, Rectangle::with_size(size)).len(),
        ensures
            !self.pane_regions_in(spacing, Rectangle::with_size(size))[i].1.overlaps(
                self.pane_regions_in(spacing, Rectangle::with_size(size))[j].1,
            ),
            self.pane_regions_in(spacing, Rectangle::with_size(size))[i].1.within(
                Rectangle::with_size(size),
            ),
            self.pane_regions_in(spacing, Rectangle::with_size(size))[j].1.within(
                Rectangle::with_size(size),
            ),
    {
        let area = Rectangle::with_size(size);
        let regions = self.pane_regions_in(spacing, area);
        let rectangles = rectangles_of(regions);
        self.lemma_regions_within(spacing, area);
        let a = regions[i].1;
        let b = regions[j].1;
        if a.overlaps(b) {
            let cx = if a.x >= b.x {
                a.x as int
            } else {
                b.x as int
            };
            let cy = if a.y >= b.y {
                a.y as int
            } else {
                b.y as int
            };
            assert(rectangles[i] == a && rectangles[j] == b);
            assert(a.covers(cx, cy) && b.covers(cx, cy));
            lemma_count_at_least(rectangles, i, j, cx, cy);
            self.lemma_tiles_in(spacing, area, cx, cy);
        }
    }
}

} // verus!
