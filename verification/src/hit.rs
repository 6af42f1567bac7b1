//! Which split and which pane lie under the pointer.

use crate::axis::{lemma_line_offset_bounds, lemma_line_offset_widens, Axis};
use crate::geometry::{Point, Rectangle, Size};
use crate::node::{Node, SplitRegion};
use crate::pane::Pane;
use crate::split::Split;
use vstd::prelude::*;

verus! {

/// The band of the given thickness in which the split of `region` is grabbed.
pub open spec fn grab_band(region: SplitRegion, thickness: u32) -> Rectangle {
    region.axis.split_line_bounds_spec(region.rectangle, region.ratio, thickness)
}

/// The first split whose grab band holds `cursor`, with its axis and the band.
pub open spec fn first_hovered(splits: Seq<SplitRegion>, thickness: u32, cursor: Point) -> Option<
    (Split, Axis, Rectangle),
>
    decreases splits.len(),
{
    if splits.len() == 0 {
        None
    } else if grab_band(splits[0], thickness).contains(cursor) {
        Some((splits[0].split, splits[0].axis, grab_band(splits[0], thickness)))
    } else {
        first_hovered(splits.drop_first(), thickness, cursor)
    }
}

/// The first pane whose rectangle holds `cursor`, with the rectangle.
pub open spec fn first_containing(regions: Seq<(Pane, Rectangle)>, cursor: Point) -> Option<
    (Pane, Rectangle),
>
    decreases regions.len(),
{
    if regions.len() == 0 {
        None
    } else if regions[0].1.contains(cursor) {
        Some(regions[0])
    } else {
        first_containing(regions.drop_first(), cursor)
    }
}

/// Finds the first split whose grab band, `spacing` units thick and centered
/// on the split line, holds the pointer.
pub fn hovered_split(splits: &Vec<SplitRegion>, spacing: u32, cursor_position: Point) -> (hit:
    Option<(Split, Axis, Rectangle)>)
    requires
        forall|i: int| 0 <= i < splits.len() ==> (#[trigger] splits[i]).rectangle.fits(),
    ensures
        hit == first_hovered(splits@, spacing, cursor_position),
{
    let mut i: usize = 0;
    assert(splits@.skip(0) =~= splits@);
    while i < splits.len()
        invariant
            0 <= i <= splits.len(),
            forall|i: int| 0 <= i < splits.len() ==> (#[trigger] splits[i]).rectangle.fits(),
            first_hovered(splits@, spacing, cursor_position) == first_hovered(
                splits@.skip(i as int),
                spacing,
                cursor_position,
            ),
        decreases splits.len() - i,
    {
        let region = splits[i];
        let bounds = region.axis.split_line_bounds(region.rectangle, region.ratio, spacing);
        proof {
            assert(splits@.skip(i as int)[0] == splits@[i as int]);
            assert(splits@.skip(i as int).drop_first() =~= splits@.skip(i + 1));
        }
        if bounds.contains(cursor_position) {
            return Some((region.split, region.axis, bounds));
        }
        i += 1;
    }
    None
}

/// Finds the first pane whose rectangle holds the pointer.
pub fn pane_at(regions: &Vec<(Pane, Rectangle)>, cursor_position: Point) -> (hit: Option<
    (Pane, Rectangle),
>)
    ensures
        hit == first_containing(regions@, cursor_position),
{
    let mut i: usize = 0;
    assert(regions@.skip(0) =~= regions@);
    while i < regions.len()
        invariant
            0 <= i <= regions.len(),
            first_containing(regions@, cursor_position) == first_containing(
                regions@.skip(i as int),
                cursor_position,
            ),
        decreases regions.len() - i,
    {
        let region = regions[i];
        proof {
            assert(regions@.skip(i as int)[0] == regions@[i as int]);
            assert(regions@.skip(i as int).drop_first() =~= regions@.skip(i + 1));
        }
        if region.1.contains(cursor_position) {
            return Some(region);
        }
        i += 1;
    }
    None
}

/// The split that [`first_hovered`] selects is the earliest one whose grab
/// band holds the pointer, and it selects none only where no band holds it.
pub proof fn lemma_first_hovered(splits: Seq<SplitRegion>, thickness: u32, cursor: Point)
    ensures
        match first_hovered(splits, thickness, cursor) {
            Some((split, axis, bounds)) => exists|i: int|
                {
                    &&& 0 <= i < splits.len()
                    &&& (#[trigger] splits[i]).split == split
                    &&& splits[i].axis == axis
                    &&& grab_band(splits[i], thickness) == bounds
                    &&& bounds.contains(cursor)
                    &&& forall|j: int|
                        0 <= j < i ==> !grab_band(#[trigger] splits[j], thickness).contains(cursor)
                },
            None => forall|i: int|
                0 <= i < splits.len() ==> !grab_band(#[trigger] splits[i], thickness).contains(
                    cursor,
                ),
        },
    decreases splits.len(),
{
    if splits.len() == 0 {
    } else if grab_band(splits[0], thickness).contains(cursor) {
        assert(first_hovered(splits, thickness, cursor) == Some(
            (splits[0].split, splits[0].axis, grab_band(splits[0], thickness)),
        ));
    } else {
        let rest = splits.drop_first();
        lemma_first_hovered(rest, thickness, cursor);
        match first_hovered(rest, thickness, cursor) {
            Some((split, axis, bounds)) => {
                let i = choose|i: int|
                    {
                        &&& 0 <= i < rest.len()
                        &&& (#[trigger] rest[i]).split == split
                        &&& rest[i].axis == axis
                        &&& grab_band(rest[i], thickness) == bounds
                        &&& bounds.contains(cursor)
                        &&& forall|j: int|
                            0 <= j < i ==> !grab_band(#[trigger] rest[j], thickness).contains(cursor)
                    };
                assert(splits[i + 1] == rest[i]);
                assert forall|j: int| 0 <= j < i + 1 implies !grab_band(
                    #[trigger] splits[j],
                    thickness,
                ).contains(cursor) by {
                    if j > 0 {
                        assert(splits[j] == rest[j - 1]);
                    }
                }
            },
            None => {
                assert forall|i: int| 0 <= i < splits.len() implies !grab_band(
                    #[trigger] splits[i],
                    thickness,
                ).contains(cursor) by {
                    if i > 0 {
                        assert(splits[i] == rest[i - 1]);
                    }
                }
            },
        }
    }
}

/// The pane that [`first_containing`] selects is the earliest one whose
/// rectangle holds the pointer, and it selects none only where no rectangle
/// holds it.
pub proof fn lemma_first_containing(regions: Seq<(Pane, Rectangle)>, cursor: Point)
    ensures
        match first_containing(regions, cursor) {
            Some(hit) => exists|i: int|
                {
                    &&& 0 <= i < regions.len()
                    &&& #[trigger] regions[i] == hit
                    &&& hit.1.contains(cursor)
                    &&& forall|j: int| 0 <= j < i ==> !(#[trigger] regions[j]).1.contains(cursor)
                },
            None => forall|i: int|
                0 <= i < regions.len() ==> !(#[trigger] regions[i]).1.contains(cursor),
        },
    decreases regions.len(),
{
    if regions.len() == 0 {
    } else if regions[0].1.contains(cursor) {
        assert(regions[0] == first_containing(regions, cursor)->0);
    } else {
        let rest = regions.drop_first();
        lemma_first_containing(rest, cursor);
        match first_containing(rest, cursor) {
            Some(hit) => {
                let i = choose|i: int|
                    {
                        &&& 0 <= i < rest.len()
                        &&& #[trigger] rest[i] == hit
                        &&& hit.1.contains(cursor)
                        &&& forall|j: int| 0 <= j < i ==> !(#[trigger] rest[j]).1.contains(cursor)
                    };
                assert(regions[i + 1] == rest[i]);
                assert forall|j: int| 0 <= j < i + 1 implies !(#[trigger] regions[j]).1.contains(
                    cursor,
                ) by {
                    if j > 0 {
                        assert(regions[j] == rest[j - 1]);
                    }
                }
            },
            None => {
                assert forall|i: int| 0 <= i < regions.len() implies !(
                #[trigger] regions[i]).1.contains(cursor) by {
                    if i > 0 {
                        assert(regions[i] == rest[i - 1]);
                    }
                }
            },
        }
    }
}

/// Whether the grab band of some split holds `cursor`.
pub open spec fn some_band_holds(splits: Seq<SplitRegion>, thickness: u32, cursor: Point) -> bool {
    exists|i: int|
        0 <= i < splits.len() && grab_band(#[trigger] splits[i], thickness).contains(cursor)
}

/// Whether the rectangle of some pane holds `cursor`.
pub open spec fn some_region_holds(regions: Seq<(Pane, Rectangle)>, cursor: Point) -> bool {
    exists|i: int| 0 <= i < regions.len() && (#[trigger] regions[i]).1.contains(cursor)
}

impl Node {
    /// A point of the area that the tree fills lies in the rectangle of a
    /// pane or in the grab band of a split, whatever the leeway.
    pub proof fn lemma_covered_in(
        self,
        spacing: u32,
        leeway: u32,
        current: Rectangle,
        cursor: Point,
    )
        requires
            current.fits(),
            current.contains(cursor),
            spacing + leeway <= u32::MAX,
        ensures
            some_band_holds(
                self.split_regions_in(spacing, current),
                (spacing + leeway) as u32,
                cursor,
            ) || some_region_holds(self.pane_regions_in(spacing, current), cursor),
        decreases self,
    {
        let thickness = (spacing + leeway) as u32;
        let panes = self.pane_regions_in(spacing, current);
        let splits = self.split_regions_in(spacing, current);
        match self {
            Node::Pane(pane) => {
                assert(panes[0].1.contains(cursor));
            },
            Node::Split { id, axis, ratio, first, second } => {
                let parts = axis.split_spec(current, ratio, spacing);
                let extent: int = match axis {
                    Axis::Horizontal => current.height as int,
                    Axis::Vertical => current.width as int,
                };
                lemma_line_offset_bounds(extent, ratio, spacing as int);
                lemma_line_offset_bounds(extent, ratio, thickness as int);
                lemma_line_offset_widens(extent, ratio, spacing as int, leeway as int);
                let first_panes = first.pane_regions_in(spacing, parts.0);
                let second_panes = second.pane_regions_in(spacing, parts.1);
                let first_splits = first.split_regions_in(spacing, parts.0);
                let second_splits = second.split_regions_in(spacing, parts.1);
                if parts.0.contains(cursor) {
                    first.lemma_covered_in(spacing, leeway, parts.0, cursor);
                    if some_region_holds(first_panes, cursor) {
                        let i = choose|i: int|
                            0 <= i < first_panes.len() && (#[trigger] first_panes[i]).1.contains(
                                cursor,
                            );
                        assert(panes[i] == first_panes[i]);
                    } else {
                        let i = choose|i: int|
                            0 <= i < first_splits.len() && grab_band(
                                #[trigger] first_splits[i],
                                thickness,
                            ).contains(cursor);
                        assert(splits[i + 1] == first_splits[i]);
                    }
                } else if parts.1.contains(cursor) {
                    second.lemma_covered_in(spacing, leeway, parts.1, cursor);
                    if some_region_holds(second_panes, cursor) {
                        let i = choose|i: int|
                            0 <= i < second_panes.len() && (#[trigger] second_panes[i]).1.contains(
                                cursor,
                            );
                        assert(panes[first_panes.len() + i] == second_panes[i]);
                    } else {
                        let i = choose|i: int|
                            0 <= i < second_splits.len() && grab_band(
                                #[trigger] second_splits[i],
                                thickness,
                            ).contains(cursor);
                        assert(splits[1 + first_splits.len() + i] == second_splits[i]);
                    }
                } else {
                    assert(splits[0] == SplitRegion { split: id, axis, rectangle: current, ratio });
                    assert(grab_band(splits[0], thickness).contains(cursor));
                }
            },
        }
    }
}

impl Node {
    /// Laid out without spacing, the rectangles of the panes leave no point of
    /// the area out.
    pub proof fn lemma_covered_without_spacing(self, current: Rectangle, cursor: Point)
        requires
            current.fits(),
            current.contains(cursor),
        ensures
            some_region_holds(self.pane_regions_in(0, current), cursor),
        decreases self,
    {
        let panes = self.pane_regions_in(0, current);
        match self {
            Node::Pane(pane) => {
                assert(panes[0].1.contains(cursor));
            },
            Node::Split { axis, ratio, first, second, .. } => {
                let parts = axis.split_spec(current, ratio, 0);
                let extent: int = match axis {
                    Axis::Horizontal => current.height as int,
                    Axis::Vertical => current.width as int,
                };
                lemma_line_offset_bounds(extent, ratio, 0);
                let first_panes = first.pane_regions_in(0, parts.0);
                let second_panes = second.pane_regions_in(0, parts.1);
                if parts.0.contains(cursor) {
                    first.lemma_covered_without_spacing(parts.0, cursor);
                    let i = choose|i: int|
                        0 <= i < first_panes.len() && (#[trigger] first_panes[i]).1.contains(cursor);
                    assert(panes[i] == first_panes[i]);
                } else {
                    assert(parts.1.contains(cursor));
                    second.lemma_covered_without_spacing(parts.1, cursor);
                    let i = choose|i: int|
                        0 <= i < second_panes.len() && (#[trigger] second_panes[i]).1.contains(
                            cursor,
                        );
                    assert(panes[first_panes.len() + i] == second_panes[i]);
                }
            },
        }
    }
}

/// Without spacing, every point of the grid lies on a pane: hit testing
/// among the panes alone selects one, whether or not splits can be grabbed.
pub proof fn lemma_pane_hit_without_spacing(tree: Node, size: Size, cursor: Point)
    requires
        Rectangle::with_size(size).contains(cursor),
    ensures
        first_containing(tree.pane_regions_in(0, Rectangle::with_size(size)), cursor) is Some,
{
    let area = Rectangle::with_size(size);
    tree.lemma_covered_without_spacing(area, cursor);
    lemma_first_containing(tree.pane_regions_in(0, area), cursor);
}

/// [`first_hovered`] selects a split exactly where some grab band holds the
/// pointer, and [`first_containing`] a pane exactly where some rectangle does.
pub proof fn lemma_selects_where_held(
    splits: Seq<SplitRegion>,
    regions: Seq<(Pane, Rectangle)>,
    thickness: u32,
    cursor: Point,
)
    ensures
        first_hovered(splits, thickness, cursor) is Some <==> some_band_holds(
            splits,
            thickness,
            cursor,
        ),
        first_containing(regions, cursor) is Some <==> some_region_holds(regions, cursor),
{
    lemma_first_hovered(splits, thickness, cursor);
    lemma_first_containing(regions, cursor);
}

/// Hit testing leaves no point of the grid out: with resizing by the pointer
/// enabled, a press inside the grid selects a split or, where no grab band
/// holds it, a pane.
pub proof fn lemma_hit_exhaustive(tree: Node, spacing: u16, leeway: u16, size: Size, cursor: Point)
    requires
        Rectangle::with_size(size).contains(cursor),
    ensures
        first_hovered(
            tree.split_regions_in(spacing as u32, Rectangle::with_size(size)),
            (spacing + leeway) as u32,
            cursor,
        ) is Some || first_containing(
            tree.pane_regions_in(spacing as u32, Rectangle::with_size(size)),
            cursor,
        ) is Some,
{
    let area = Rectangle::with_size(size);
    tree.lemma_covered_in(spacing as u32, leeway as u32, area, cursor);
    lemma_selects_where_held(
        tree.split_regions_in(spacing as u32, area),
        tree.pane_regions_in(spacing as u32, area),
        (spacing + leeway) as u32,
        cursor,
    );
}

} // verus!
