//! The grid as the application sets it up: what it shows in each pane, how it
//! is spaced, which gestures it reacts to, and what it does on each event.

use crate::axis::{Axis, Ratio, RATIO_MAX, RATIO_MIN, RATIO_SCALE};
use crate::event::{DragEvent, Event, Gesture, Message, MouseInteraction, ResizeEvent, Status};
use crate::geometry::{Offset, Point, Rectangle, Size, Vector};
use crate::hit::{first_containing, first_hovered, hovered_split, pane_at};
use crate::interaction::Interaction;
use crate::node::{Node, SplitRegion};
use crate::pane::Pane;
use crate::split::Split;
use crate::state::State;
use crate::style::{Color, Length, Style};
use vstd::prelude::*;

verus! {

/// What a grid needs to know of the content of a pane.
#[derive(Clone, Copy, Debug, PartialEq, Eq, Structural)]
pub struct Content {
    /// The area by which the pane can be picked up, from the pane's top-left
    /// corner; none where the pane cannot be dragged. Only the part of it
    /// inside the pane counts.
    pub pick_area: Option<Rectangle>,
}

impl Content {
    /// Whether a press at `cursor` picks up the pane, which lies at `bounds`.
    pub open spec fn can_be_picked_at_spec(&self, bounds: Rectangle, cursor: Point) -> bool {
        match self.pick_area {
            Some(area) => {
                &&& bounds.x + area.x <= cursor.x <= bounds.x + area.x + area.width
                &&& bounds.y + area.y <= cursor.y <= bounds.y + area.y + area.height
            },
            None => false,
        }
    }

    /// A content that cannot be picked up.
    pub fn new() -> (content: Content)
        ensures
            content.pick_area is None,
    {
        Content { pick_area: None }
    }

    /// Sets the area by which the pane can be picked up.
    pub fn pick_area(self, area: Rectangle) -> (content: Content)
        ensures
            content.pick_area == Some(area),
    {
        Content { pick_area: Some(area) }
    }

    #[verifier::when_used_as_spec(can_be_picked_at_spec)]
    pub fn can_be_picked_at(&self, bounds: Rectangle, cursor: Point) -> (yes: bool)
        ensures
            yes == self.can_be_picked_at_spec(bounds, cursor),
    {
        match self.pick_area {
            Some(area) => {
                let left: i128 = bounds.x as i128 + area.x as i128;
                let top: i128 = bounds.y as i128 + area.y as i128;
                let x: i128 = cursor.x as i128;
                let y: i128 = cursor.y as i128;
                left <= x && x <= left + area.width as i128 && top <= y && y <= top
                    + area.height as i128
            },
            None => false,
        }
    }
}

/// The content of the first element for `pane`.
pub open spec fn content_of(elements: Seq<(Pane, Content)>, pane: Pane) -> Option<Content>
    decreases elements.len(),
{
    if elements.len() == 0 {
        None
    } else if elements[0].0 == pane {
        Some(elements[0].1)
    } else {
        content_of(elements.drop_first(), pane)
    }
}

/// The rectangle of the first region of `pane`.
pub open spec fn region_of(regions: Seq<(Pane, Rectangle)>, pane: Pane) -> Option<Rectangle>
    decreases regions.len(),
{
    if regions.len() == 0 {
        None
    } else if regions[0].0 == pane {
        Some(regions[0].1)
    } else {
        region_of(regions.drop_first(), pane)
    }
}

/// The first region of `split`.
pub open spec fn split_region_of(splits: Seq<SplitRegion>, split: Split) -> Option<SplitRegion>
    decreases splits.len(),
{
    if splits.len() == 0 {
        None
    } else if splits[0].split == split {
        Some(splits[0])
    } else {
        split_region_of(splits.drop_first(), split)
    }
}

/// For each element that has a region, in the order of the elements, its
/// pane and the rectangle of that region.
pub open spec fn element_regions(
    elements: Seq<(Pane, Content)>,
    regions: Seq<(Pane, Rectangle)>,
) -> Seq<(Pane, Rectangle)>
    decreases elements.len(),
{
    if elements.len() == 0 {
        Seq::empty()
    } else {
        let before = element_regions(elements.drop_last(), regions);
        match region_of(regions, elements.last().0) {
            Some(rectangle) => before.push((elements.last().0, rectangle)),
            None => before,
        }
    }
}

/// The ratio at which a split line lies that is `position` units into an
/// extent: `position / extent`, rounded to the nearest millionth and clamped
/// between one tenth and nine tenths.
pub open spec fn ratio_at(position: int, extent: int) -> Ratio {
    if position <= 0 {
        Ratio { millionths: RATIO_MIN }
    } else if position >= extent {
        Ratio { millionths: RATIO_MAX }
    } else {
        let nearest = (2 * position * RATIO_SCALE + extent) / (2 * extent);
        if nearest < RATIO_MIN {
            Ratio { millionths: RATIO_MIN }
        } else if nearest > RATIO_MAX {
            Ratio { millionths: RATIO_MAX }
        } else {
            Ratio { millionths: nearest as u32 }
        }
    }
}

/// Computes [`ratio_at`] for a pointer at `cursor` along an extent that
/// starts at `origin`.
pub fn ratio_under(cursor: i32, origin: i64, extent: u32) -> (ratio: Ratio)
    ensures
        ratio == ratio_at(cursor - origin, extent as int),
        ratio.is_clamped(),
{
    let position: i128 = cursor as i128 - origin as i128;
    if position <= 0 {
        Ratio { millionths: RATIO_MIN }
    } else if position >= extent as i128 {
        Ratio { millionths: RATIO_MAX }
    } else {
        let position: u64 = position as u64;
        let extent: u64 = extent as u64;
        let nearest: u64 = (2 * position * 1_000_000 + extent) / (2 * extent);
        if nearest < RATIO_MIN as u64 {
            Ratio { millionths: RATIO_MIN }
        } else if nearest > RATIO_MAX as u64 {
            Ratio { millionths: RATIO_MAX }
        } else {
            Ratio { millionths: nearest as u32 }
        }
    }
}

fn find_region(regions: &Vec<(Pane, Rectangle)>, pane: Pane) -> (found: Option<Rectangle>)
    ensures
        found == region_of(regions@, pane),
{
    let mut i: usize = 0;
    assert(regions@.skip(0) =~= regions@);
    while i < regions.len()
        invariant
            0 <= i <= regions.len(),
            region_of(regions@, pane) == region_of(regions@.skip(i as int), pane),
        decreases regions.len() - i,
    {
        proof {
            assert(regions@.skip(i as int)[0] == regions@[i as int]);
            assert(regions@.skip(i as int).drop_first() =~= regions@.skip(i + 1));
        }
        if regions[i].0 == pane {
            return Some(regions[i].1);
        }
        i += 1;
    }
    None
}

fn find_split_region(splits: &Vec<SplitRegion>, split: Split) -> (found: Option<SplitRegion>)
    ensures
        found == split_region_of(splits@, split),
        found matches Some(region) ==> exists|i: int|
            0 <= i < splits.len() && #[trigger] splits[i] == region,
{
    let mut i: usize = 0;
    assert(splits@.skip(0) =~= splits@);
    while i < splits.len()
        invariant
            0 <= i <= splits.len(),
            split_region_of(splits@, split) == split_region_of(splits@.skip(i as int), split),
        decreases splits.len() - i,
    {
        proof {
            assert(splits@.skip(i as int)[0] == splits@[i as int]);
            assert(splits@.skip(i as int).drop_first() =~= splits@.skip(i + 1));
        }
        if splits[i].split == split {
            return Some(splits[i]);
        }
        i += 1;
    }
    None
}

/// What a grid did with an event.
#[derive(Debug)]
pub struct Outcome {
    /// Whether the grid used the event.
    pub status: Status,
    /// What the grid tells the application, in the order in which it
    /// happened.
    pub messages: Vec<Message>,
}

/// A pane whose content is to be handed an event.
#[derive(Clone, Copy, Debug, PartialEq, Eq, Structural)]
pub struct ContentTarget {
    /// The pane.
    pub pane: Pane,
    /// Where the pane lies in the grid.
    pub bounds: Rectangle,
    /// Whether the pane is being dragged.
    pub is_picked: bool,
}

/// How to draw one pane.
#[derive(Clone, Copy, Debug, PartialEq, Eq, Structural)]
pub struct PaneDrawing {
    /// The pane to draw.
    pub pane: Pane,
    /// Where the pane lies in the grid.
    pub bounds: Rectangle,
    /// Where the content shall take the pointer to be; nowhere while a pane
    /// is being dragged.
    pub cursor: Option<Point>,
    /// For the pane that is being dragged, by how much to move it so that it
    /// follows the pointer; it is drawn in a layer of its own, above the others.
    pub translation: Option<Vector>,
}

/// The bar to draw on a highlighted split.
#[derive(Clone, Copy, Debug, PartialEq, Eq, Structural)]
pub struct Highlight {
    /// Where the bar lies in the grid.
    pub bounds: Rectangle,
    /// The color of the bar.
    pub color: Color,
}

/// What to draw for a grid.
#[derive(Debug)]
pub struct Drawing {
    /// The panes, in the order in which to draw them.
    pub panes: Vec<PaneDrawing>,
    /// The bar on the split that is dragged or under the pointer, if the
    /// style has a line for it.
    pub highlight: Option<Highlight>,
}

/// Where a bar of the given width starts that is centered in an extent which
/// starts at `origin`: `origin + (extent - width) / 2`, the sum rounded to the
/// nearest whole number, halves away from zero.
pub open spec fn centered(origin: int, extent: int, width: int) -> int {
    let doubled = 2 * origin + extent - width;
    if doubled >= 0 {
        (doubled + 1) / 2
    } else {
        -((1 - doubled) / 2)
    }
}

/// The bar of the given width centered in the band `region` of a split, and
/// as long as the band.
pub open spec fn highlight_bounds_spec(axis: Axis, region: Rectangle, width: u32) -> Rectangle {
    match axis {
        Axis::Horizontal => Rectangle {
            x: region.x,
            y: centered(region.y as int, region.height as int, width as int) as i64,
            width: region.width,
            height: width,
        },
        Axis::Vertical => Rectangle {
            x: centered(region.x as int, region.width as int, width as int) as i64,
            y: region.y,
            width: width,
            height: region.height,
        },
    }
}

/// The target that `child` makes while `interaction` is under way.
pub open spec fn content_target(interaction: Interaction, child: (Pane, Rectangle)) -> ContentTarget {
    ContentTarget {
        pane: child.0,
        bounds: child.1,
        is_picked: match interaction.picked_pane() {
            Some((dragging, _)) => child.0 == dragging,
            None => false,
        },
    }
}

/// Whether a pane is dropped on another pane or let go: dropped where the
/// first pane under the pointer is another one.
pub open spec fn drop_event(
    children: Seq<(Pane, Rectangle)>,
    pane: Pane,
    cursor: Point,
) -> DragEvent {
    match first_containing(children, cursor) {
        Some((target, _)) => if target != pane {
            DragEvent::Dropped { pane, target }
        } else {
            DragEvent::Canceled { pane }
        },
        None => DragEvent::Canceled { pane },
    }
}

/// How to draw the pane of `child` while `interaction` is under way.
pub open spec fn pane_drawing(
    interaction: Interaction,
    cursor: Point,
    child: (Pane, Rectangle),
) -> PaneDrawing {
    PaneDrawing {
        pane: child.0,
        bounds: child.1,
        cursor: if interaction.picked_pane() is Some {
            None
        } else {
            Some(cursor)
        },
        translation: match interaction.picked_pane() {
            Some((dragging, origin)) => if child.0 == dragging {
                Some(
                    Vector {
                        x: (cursor.x - (child.1.x + origin.x)) as i64,
                        y: (cursor.y - (child.1.y + origin.y)) as i64,
                    },
                )
            } else {
                None
            },
            None => None,
        },
    }
}

/// Computes [`highlight_bounds_spec`].
pub fn highlight_bounds(axis: Axis, region: Rectangle, width: u32) -> (bounds: Rectangle)
    requires
        region.fits(),
    ensures
        bounds == highlight_bounds_spec(axis, region, width),
{
    match axis {
        Axis::Horizontal => Rectangle {
            x: region.x,
            y: center(region.y, region.height, width),
            width: region.width,
            height: width,
        },
        Axis::Vertical => Rectangle {
            x: center(region.x, region.width, width),
            y: region.y,
            width: width,
            height: region.height,
        },
    }
}

fn center(origin: i64, extent: u32, width: u32) -> (start: i64)
    requires
        i64::MIN + u32::MAX <= origin,
        origin + extent <= i64::MAX,
    ensures
        start == centered(origin as int, extent as int, width as int),
{
    let doubled: i128 = 2 * (origin as i128) + extent as i128 - width as i128;
    if doubled >= 0 {
        ((doubled + 1) / 2) as i64
    } else {
        -(((1 - doubled) / 2) as i64)
    }
}

/// A grid of panes: what it shows and how it reacts. The tree that it lays
/// out and the gesture under way are handed to each call.
#[derive(Debug)]
pub struct PaneGrid {
    /// The panes that the grid shows, each with its content.
    pub elements: Vec<(Pane, Content)>,
    /// The width that the grid asks for.
    pub width: Length,
    /// The height that the grid asks for.
    pub height: Length,
    /// The room left free between panes.
    pub spacing: u16,
    /// Whether the application is told of presses on panes.
    pub on_click: bool,
    /// Whether panes can be dragged and dropped.
    pub on_drag: bool,
    /// Whether splits can be dragged, and if so, by how much the band in
    /// which a split is grabbed is wider than the spacing.
    pub on_resize: Option<u16>,
    /// The lines that highlight the splits.
    pub style: Style,
}

/// The panes of the elements, in their order.
pub open spec fn element_panes(elements: Seq<(Pane, Content)>) -> Seq<Pane> {
    Seq::new(elements.len(), |i: int| elements[i].0)
}

impl PaneGrid {
    /// Creates a grid that shows every pane of `state`, in the order of the
    /// tree, with the content that `view` makes of the pane and of what the
    /// application keeps for it.
    ///
    /// The grid fills the room it is given, leaves no room between panes,
    /// reacts to no gesture and highlights nothing.
    pub fn new<T, F: Fn(Pane, &T) -> Content>(state: &State<T>, view: F) -> (grid: PaneGrid)
        requires
            state.wf(),
            forall|pane: Pane|
                state@.panes.contains_key(pane) ==> #[trigger] view.requires(
                    (pane, &state@.panes[pane]),
                ),
        ensures
            element_panes(grid.elements@) == state@.layout.panes(),
            forall|i: int|
                0 <= i < grid.elements@.len() ==> view.ensures(
                    (grid.elements@[i].0, &state@.panes[grid.elements@[i].0]),
                    (#[trigger] grid.elements@[i]).1,
                ),
            grid.width == Length::Fill,
            grid.height == Length::Fill,
            grid.spacing == 0,
            !grid.on_click,
            !grid.on_drag,
            grid.on_resize is None,
            grid.style == Style::default_spec(),
    {
        let panes = state.layout().pane_list();
        let mut elements: Vec<(Pane, Content)> = Vec::new();
        let mut i: usize = 0;
        while i < panes.len()
            invariant
                0 <= i <= panes.len(),
                state.wf(),
                panes@ == state@.layout.panes(),
                forall|pane: Pane|
                    state@.panes.contains_key(pane) ==> #[trigger] view.requires(
                        (pane, &state@.panes[pane]),
                    ),
                elements.len() == i,
                forall|j: int| 0 <= j < i ==> (#[trigger] elements@[j]).0 == panes@[j],
                forall|j: int|
                    0 <= j < i ==> view.ensures(
                        (elements@[j].0, &state@.panes[elements@[j].0]),
                        (#[trigger] elements@[j]).1,
                    ),
            decreases panes.len() - i,
        {
            let pane = panes[i];
            assert(state@.layout.panes().contains(panes@[i as int]));
            assert(state@.panes.contains_key(pane));
            if let Some(kept) = state.get(pane) {
                let content = view(pane, kept);
                elements.push((pane, content));
            }
            i += 1;
        }
        assert(element_panes(elements@) =~= state@.layout.panes());
        PaneGrid {
            elements,
            width: Length::Fill,
            height: Length::Fill,
            spacing: 0,
            on_click: false,
            on_drag: false,
            on_resize: None,
            style: Style::default(),
        }
    }

    /// Sets the width that the grid asks for.
    pub fn width(self, width: Length) -> (grid: PaneGrid)
        ensures
            grid == (PaneGrid { width, ..self }),
    {
        let mut grid = self;
        grid.width = width;
        grid
    }

    /// Sets the height that the grid asks for.
    pub fn height(self, height: Length) -> (grid: PaneGrid)
        ensures
            grid == (PaneGrid { height, ..self }),
    {
        let mut grid = self;
        grid.height = height;
        grid
    }

    /// Sets the room left free between the panes.
    pub fn spacing(self, units: u16) -> (grid: PaneGrid)
        ensures
            grid == (PaneGrid { spacing: units, ..self }),
    {
        let mut grid = self;
        grid.spacing = units;
        grid
    }

    /// Has the grid tell the application of presses on panes.
    pub fn on_click(self) -> (grid: PaneGrid)
        ensures
            grid == (PaneGrid { on_click: true, ..self }),
    {
        let mut grid = self;
        grid.on_click = true;
        grid
    }

    /// Lets panes be dragged and dropped.
    pub fn on_drag(self) -> (grid: PaneGrid)
        ensures
            grid == (PaneGrid { on_drag: true, ..self }),
    {
        let mut grid = self;
        grid.on_drag = true;
        grid
    }

    /// Lets splits be dragged.
    ///
    /// A split is grabbed in a band around its line that is as thick as the
    /// spacing and `leeway` together: half of that on either side.
    pub fn on_resize(self, leeway: u16) -> (grid: PaneGrid)
        ensures
            grid == (PaneGrid { on_resize: Some(leeway), ..self }),
    {
        let mut grid = self;
        grid.on_resize = Some(leeway);
        grid
    }

    /// Sets the lines that highlight the splits.
    pub fn style(self, style: Style) -> (grid: PaneGrid)
        ensures
            grid == (PaneGrid { style, ..self }),
    {
        let mut grid = self;
        grid.style = style;
        grid
    }

    /// The content of `pane`.
    pub fn content(&self, pane: Pane) -> (found: Option<Content>)
        ensures
            found == content_of(self.elements@, pane),
    {
        let mut i: usize = 0;
        assert(self.elements@.skip(0) =~= self.elements@);
        while i < self.elements.len()
            invariant
                0 <= i <= self.elements.len(),
                content_of(self.elements@, pane) == content_of(self.elements@.skip(i as int), pane),
            decreases self.elements.len() - i,
        {
            proof {
                assert(self.elements@.skip(i as int)[0] == self.elements@[i as int]);
                assert(self.elements@.skip(i as int).drop_first() =~= self.elements@.skip(i + 1));
            }
            if self.elements[i].0 == pane {
                return Some(self.elements[i].1);
            }
            i += 1;
        }
        None
    }

    /// Lays out the panes in an area of the given size: for each element
    /// whose pane is in the tree, in the order of the elements, the pane and
    /// its rectangle.
    pub fn layout(&self, tree: &Node, size: Size) -> (children: Vec<(Pane, Rectangle)>)
        ensures
            children@ == element_regions(
                self.elements@,
                tree.pane_regions_in(self.spacing as u32, Rectangle::with_size(size)),
            ),
            forall|i: int|
                0 <= i < children.len() ==> (#[trigger] children[i]).1.within(
                    Rectangle::with_size(size),
                ),
    {
        let regions = tree.pane_regions(self.spacing as u32, size);
        let mut children: Vec<(Pane, Rectangle)> = Vec::new();
        let mut i: usize = 0;
        assert(self.elements@.take(0) =~= Seq::<(Pane, Content)>::empty());
        while i < self.elements.len()
            invariant
                0 <= i <= self.elements.len(),
                regions@ == tree.pane_regions_in(self.spacing as u32, Rectangle::with_size(size)),
                children@ == element_regions(self.elements@.take(i as int), regions@),
                forall|i: int|
                    0 <= i < children.len() ==> (#[trigger] children[i]).1.within(
                        Rectangle::with_size(size),
                    ),
            decreases self.elements.len() - i,
        {
            let pane = self.elements[i].0;
            proof {
                assert(self.elements@.take(i + 1).drop_last() =~= self.elements@.take(i as int));
                assert(self.elements@.take(i + 1).last() == self.elements@[i as int]);
                lemma_region_of_member(regions@, pane);
                tree.lemma_regions_within(self.spacing as u32, Rectangle::with_size(size));
            }
            match find_region(&regions, pane) {
                Some(rectangle) => {
                    children.push((pane, rectangle));
                },
                None => {},
            }
            i += 1;
        }
        assert(self.elements@.take(self.elements.len() as int) =~= self.elements@);
        children
    }

    /// The rectangles of the panes that the grid shows.
    pub open spec fn children(&self, tree: Node, size: Size) -> Seq<(Pane, Rectangle)> {
        element_regions(
            self.elements@,
            tree.pane_regions_in(self.spacing as u32, Rectangle::with_size(size)),
        )
    }

    /// The split that a press at `cursor` grabs: with resizing enabled, the
    /// first split whose band, as thick as the spacing and the leeway
    /// together, holds the pointer.
    pub open spec fn grabbed_split(&self, tree: Node, size: Size, cursor: Point) -> Option<
        (Split, Axis, Rectangle),
    > {
        match self.on_resize {
            Some(leeway) => first_hovered(
                tree.split_regions_in(self.spacing as u32, Rectangle::with_size(size)),
                (self.spacing + leeway) as u32,
                cursor,
            ),
            None => None,
        }
    }

    /// The pane that a press at `cursor` picks up, and where: with dragging
    /// enabled, the first pane under the pointer, where the pointer is in
    /// the pick area of its content.
    pub open spec fn picks(&self, children: Seq<(Pane, Rectangle)>, cursor: Point) -> Option<
        (Pane, Offset),
    > {
        match first_containing(children, cursor) {
            Some((pane, bounds)) => match content_of(self.elements@, pane) {
                Some(content) => if self.on_drag && content.can_be_picked_at(bounds, cursor) {
                    Some(
                        (
                            pane,
                            Offset {
                                x: (cursor.x - bounds.x) as u32,
                                y: (cursor.y - bounds.y) as u32,
                            },
                        ),
                    )
                } else {
                    None
                },
                None => None,
            },
            None => None,
        }
    }

    /// What a press on the panes tells the application: that the first pane
    /// under the pointer was clicked, where clicks are reported, and then
    /// that it was picked, where it was.
    pub open spec fn click_messages(&self, children: Seq<(Pane, Rectangle)>, cursor: Point) -> Seq<
        Message,
    > {
        match first_containing(children, cursor) {
            Some((pane, _)) => {
                let clicked = if self.on_click {
                    seq![Message::PaneClicked(pane)]
                } else {
                    Seq::empty()
                };
                if self.picks(children, cursor) is Some {
                    clicked.push(Message::Dragged(DragEvent::Picked { pane }))
                } else {
                    clicked
                }
            },
            None => Seq::empty(),
        }
    }

    /// The gesture under way after a press on the panes.
    pub open spec fn click_interaction(
        &self,
        children: Seq<(Pane, Rectangle)>,
        before: Interaction,
        cursor: Point,
    ) -> Interaction {
        match self.picks(children, cursor) {
            Some((pane, origin_offset)) => Interaction::PanePicked { pane, origin_offset },
            None => before,
        }
    }

    /// The resize that a pointer move asks for: with resizing enabled and a
    /// split picked that the tree has, the ratio at which the pointer lies in
    /// the rectangle that the split divides.
    pub open spec fn resize_event(
        &self,
        tree: Node,
        interaction: Interaction,
        size: Size,
        cursor: Point,
    ) -> Option<ResizeEvent> {
        match (self.on_resize, interaction.picked_split()) {
            (Some(_), Some((split, _))) => match split_region_of(
                tree.split_regions_in(self.spacing as u32, Rectangle::with_size(size)),
                split,
            ) {
                Some(region) => Some(
                    ResizeEvent {
                        split,
                        ratio: match region.axis {
                            Axis::Horizontal => ratio_at(
                                cursor.y - region.rectangle.y,
                                region.rectangle.height as int,
                            ),
                            Axis::Vertical => ratio_at(
                                cursor.x - region.rectangle.x,
                                region.rectangle.width as int,
                            ),
                        },
                    },
                ),
                None => None,
            },
            _ => None,
        }
    }

    /// The gesture under way after an event.
    ///
    /// A press inside the grid picks the split that it grabs; else it picks
    /// the pane that it hits, if that can be picked. A release lets go.
    pub open spec fn next_interaction(
        &self,
        tree: Node,
        before: Interaction,
        event: Event,
        size: Size,
        cursor: Point,
    ) -> Interaction {
        match event.gesture() {
            Gesture::Press => if Rectangle::with_size(size).contains(cursor) {
                match self.grabbed_split(tree, size, cursor) {
                    Some((split, axis, _)) => Interaction::SplitPicked { split, axis },
                    None => self.click_interaction(self.children(tree, size), before, cursor),
                }
            } else {
                before
            },
            Gesture::Release => Interaction::Idle,
            _ => before,
        }
    }

    /// What an event tells the application.
    ///
    /// A press inside the grid that grabs no split reports the click and the
    /// pick of a pane. A release of a dragged pane reports, with dragging
    /// enabled, where it was dropped. A move with a split picked reports the
    /// resize.
    pub open spec fn event_messages(
        &self,
        tree: Node,
        before: Interaction,
        event: Event,
        size: Size,
        cursor: Point,
    ) -> Seq<Message> {
        match event.gesture() {
            Gesture::Press => if Rectangle::with_size(size).contains(cursor)
                && self.grabbed_split(tree, size, cursor) is None {
                self.click_messages(self.children(tree, size), cursor)
            } else {
                Seq::empty()
            },
            Gesture::Release => match before.picked_pane() {
                Some((pane, _)) => if self.on_drag {
                    seq![Message::Dragged(drop_event(self.children(tree, size), pane, cursor))]
                } else {
                    Seq::empty()
                },
                None => Seq::empty(),
            },
            Gesture::Move => match self.resize_event(tree, before, size, cursor) {
                Some(resized) => seq![Message::Resized(resized)],
                None => Seq::empty(),
            },
            Gesture::Nothing => Seq::empty(),
        }
    }

    /// Whether the grid uses an event: a press inside it, a release of what
    /// was picked, and a move that resizes.
    pub open spec fn event_status(
        &self,
        tree: Node,
        before: Interaction,
        event: Event,
        size: Size,
        cursor: Point,
    ) -> Status {
        match event.gesture() {
            Gesture::Press => if Rectangle::with_size(size).contains(cursor) {
                Status::Captured
            } else {
                Status::Ignored
            },
            Gesture::Release => if before is Idle {
                Status::Ignored
            } else {
                Status::Captured
            },
            Gesture::Move => if self.resize_event(tree, before, size, cursor) is Some {
                Status::Captured
            } else {
                Status::Ignored
            },
            Gesture::Nothing => Status::Ignored,
        }
    }

    /// The split to highlight, with its direction, its band, and whether it
    /// is picked: the picked split, if the tree has it, in a band as thick
    /// as the spacing; else the split that a press would grab, in its grab
    /// band.
    pub open spec fn highlighted_split(
        &self,
        tree: Node,
        interaction: Interaction,
        size: Size,
        cursor: Point,
    ) -> Option<(Axis, Rectangle, bool)> {
        let splits = tree.split_regions_in(self.spacing as u32, Rectangle::with_size(size));
        let picked = match interaction.picked_split() {
            Some((split, axis)) => match split_region_of(splits, split) {
                Some(region) => Some(
                    (
                        axis,
                        axis.split_line_bounds_spec(
                            region.rectangle,
                            region.ratio,
                            self.spacing as u32,
                        ),
                        true,
                    ),
                ),
                None => None,
            },
            None => None,
        };
        match picked {
            Some(found) => Some(found),
            None => match self.grabbed_split(tree, size, cursor) {
                Some((_, axis, bounds)) => Some((axis, bounds, false)),
                None => None,
            },
        }
    }

    /// The bar to draw on the highlighted split, where the style has a line
    /// for it.
    pub open spec fn highlight(
        &self,
        tree: Node,
        interaction: Interaction,
        size: Size,
        cursor: Point,
    ) -> Option<Highlight> {
        match self.highlighted_split(tree, interaction, size, cursor) {
            Some((axis, region, is_picked)) => {
                let line = if is_picked {
                    self.style.picked_split
                } else {
                    self.style.hovered_split
                };
                match line {
                    Some(line) => Some(
                        Highlight {
                            bounds: highlight_bounds_spec(axis, region, line.width),
                            color: line.color,
                        },
                    ),
                    None => None,
                }
            },
            None => None,
        }
    }

    /// What the pointer shows: a grab while a pane is dragged; a resize
    /// across the split that is dragged or that a press would grab; else the
    /// strongest of what the contents show.
    pub open spec fn mouse_interaction_spec(
        &self,
        tree: Node,
        interaction: Interaction,
        size: Size,
        cursor: Point,
        contents: Seq<MouseInteraction>,
    ) -> MouseInteraction {
        if interaction.picked_pane() is Some {
            MouseInteraction::Grab
        } else {
            let resize_axis = match interaction.picked_split() {
                Some((_, axis)) => Some(axis),
                None => match self.grabbed_split(tree, size, cursor) {
                    Some((_, axis, _)) => Some(axis),
                    None => None,
                },
            };
            match resize_axis {
                Some(Axis::Horizontal) => MouseInteraction::ResizingVertically,
                Some(Axis::Vertical) => MouseInteraction::ResizingHorizontally,
                None => MouseInteraction::strongest_spec(contents),
            }
        }
    }

    /// Finds the split that a press at the pointer would grab.
    pub fn grab_split(&self, tree: &Node, size: Size, cursor_position: Point) -> (grabbed: Option<
        (Split, Axis, Rectangle),
    >)
        ensures
            grabbed == self.grabbed_split(*tree, size, cursor_position),
            grabbed matches Some((_, _, bounds)) ==> bounds.fits(),
    {
        match self.on_resize {
            Some(leeway) => {
                let splits = tree.split_regions(self.spacing as u32, size);
                let thickness: u32 = self.spacing as u32 + leeway as u32;
                proof {
                    tree.lemma_regions_within(self.spacing as u32, Rectangle::with_size(size));
                    crate::hit::lemma_first_hovered(splits@, thickness, cursor_position);
                    assert forall|i: int| 0 <= i < splits.len() implies crate::hit::grab_band(
                        #[trigger] splits[i],
                        thickness,
                    ).fits() by {
                        lemma_band_fits(splits[i], Rectangle::with_size(size), thickness);
                    }
                }
                hovered_split(&splits, thickness, cursor_position)
            },
            None => None,
        }
    }

    /// Handles a press on the panes: reports the click on the first pane
    /// under the pointer and picks the pane up where that is possible.
    pub fn click_pane(
        &self,
        children: &Vec<(Pane, Rectangle)>,
        interaction: &mut Interaction,
        cursor_position: Point,
        messages: &mut Vec<Message>,
    )
        ensures
            final(messages)@ == old(messages)@ + self.click_messages(children@, cursor_position),
            *final(interaction) == self.click_interaction(
                children@,
                *old(interaction),
                cursor_position,
            ),
    {
        proof {
            crate::hit::lemma_first_containing(children@, cursor_position);
        }
        match pane_at(children, cursor_position) {
            Some((pane, bounds)) => {
                if self.on_click {
                    messages.push(Message::PaneClicked(pane));
                }
                let picked = match self.content(pane) {
                    Some(content) => self.on_drag && content.can_be_picked_at(
                        bounds,
                        cursor_position,
                    ),
                    None => false,
                };
                if picked {
                    let origin = Offset {
                        x: (cursor_position.x as i64 - bounds.x) as u32,
                        y: (cursor_position.y as i64 - bounds.y) as u32,
                    };
                    interaction.pick_pane(pane, origin);
                    messages.push(Message::Dragged(DragEvent::Picked { pane }));
                }
                assert(messages@ =~= old(messages)@ + self.click_messages(
                    children@,
                    cursor_position,
                ));
            },
            None => {
                assert(messages@ =~= old(messages)@ + self.click_messages(
                    children@,
                    cursor_position,
                ));
            },
        }
    }

    /// Handles a pointer move: with resizing enabled and a split picked,
    /// works out the ratio that the pointer asks for.
    pub fn trigger_resize(
        &self,
        tree: &Node,
        interaction: &Interaction,
        size: Size,
        cursor_position: Point,
    ) -> (outcome: (Status, Option<ResizeEvent>))
        ensures
            outcome.1 == self.resize_event(*tree, *interaction, size, cursor_position),
            outcome.0 == if outcome.1 is Some {
                Status::Captured
            } else {
                Status::Ignored
            },
            outcome.1 matches Some(resized) ==> resized.ratio.is_clamped(),
    {
        if self.on_resize.is_some() {
            if let Some((split, _)) = interaction.picked_split() {
                let splits = tree.split_regions(self.spacing as u32, size);
                if let Some(region) = find_split_region(&splits, split) {
                    let ratio = match region.axis {
                        Axis::Horizontal => ratio_under(
                            cursor_position.y,
                            region.rectangle.y,
                            region.rectangle.height,
                        ),
                        Axis::Vertical => ratio_under(
                            cursor_position.x,
                            region.rectangle.x,
                            region.rectangle.width,
                        ),
                    };
                    return (Status::Captured, Some(ResizeEvent { split, ratio }));
                }
            }
        }
        (Status::Ignored, None)
    }

    /// Reacts to an input event with the pointer at `cursor_position`, for
    /// a grid of the given size that lays out `tree`.
    ///
    /// The grid changes the gesture under way and tells the application what
    /// happened. It leaves the tree as it is: to resize, swap or move panes
    /// is up to the application.
    pub fn on_event(
        &self,
        tree: &Node,
        interaction: &mut Interaction,
        event: Event,
        size: Size,
        cursor_position: Point,
    ) -> (outcome: Outcome)
        ensures
            *final(interaction) == self.next_interaction(
                *tree,
                *old(interaction),
                event,
                size,
                cursor_position,
            ),
            outcome.messages@ == self.event_messages(
                *tree,
                *old(interaction),
                event,
                size,
                cursor_position,
            ),
            outcome.status == self.event_status(
                *tree,
                *old(interaction),
                event,
                size,
                cursor_position,
            ),
    {
        let mut messages: Vec<Message> = Vec::new();
        let mut status = Status::Ignored;
        match event.gesture() {
            Gesture::Press => {
                if Rectangle::with_size(size).contains(cursor_position) {
                    status = Status::Captured;
                    match self.grab_split(tree, size, cursor_position) {
                        Some((split, axis, _)) => {
                            interaction.pick_split(split, axis);
                        },
                        None => {
                            let children = self.layout(tree, size);
                            self.click_pane(&children, interaction, cursor_position, &mut messages);
                        },
                    }
                }
            },
            Gesture::Release => {
                if let Some((pane, _)) = interaction.picked_pane() {
                    if self.on_drag {
                        let children = self.layout(tree, size);
                        let dropped = match pane_at(&children, cursor_position) {
                            Some((target, _)) => if target != pane {
                                DragEvent::Dropped { pane, target }
                            } else {
                                DragEvent::Canceled { pane }
                            },
                            None => DragEvent::Canceled { pane },
                        };
                        messages.push(Message::Dragged(dropped));
                    }
                    interaction.idle();
                    status = Status::Captured;
                } else if interaction.picked_split().is_some() {
                    interaction.idle();
                    status = Status::Captured;
                }
            },
            Gesture::Move => {
                let (moved, resized) = self.trigger_resize(
                    tree,
                    interaction,
                    size,
                    cursor_position,
                );
                status = moved;
                if let Some(resized) = resized {
                    messages.push(Message::Resized(resized));
                }
            },
            Gesture::Nothing => {},
        }
        assert(messages@ =~= self.event_messages(
            *tree,
            *old(interaction),
            event,
            size,
            cursor_position,
        ));
        Outcome { status, messages }
    }

    /// The panes whose contents are to be handed an event after the grid has
    /// seen it, in the order of the elements, each with its place and with
    /// whether it is the pane being dragged by then. The status of the event
    /// is that of the grid merged with theirs, see [`Status::merge_all`].
    pub fn content_targets(&self, tree: &Node, interaction: &Interaction, size: Size) -> (targets:
        Vec<ContentTarget>)
        ensures
            targets@.len() == self.children(*tree, size).len(),
            forall|i: int|
                0 <= i < targets@.len() ==> #[trigger] targets@[i] == content_target(
                    *interaction,
                    self.children(*tree, size)[i],
                ),
    {
        let picked_pane = interaction.picked_pane();
        let children = self.layout(tree, size);
        let mut targets: Vec<ContentTarget> = Vec::new();
        let mut i: usize = 0;
        while i < children.len()
            invariant
                0 <= i <= children.len(),
                targets.len() == i,
                picked_pane == interaction.picked_pane(),
                forall|j: int|
                    0 <= j < i ==> #[trigger] targets@[j] == content_target(
                        *interaction,
                        children@[j],
                    ),
            decreases children.len() - i,
        {
            let (pane, bounds) = children[i];
            let is_picked = match picked_pane {
                Some((dragging, _)) => pane == dragging,
                None => false,
            };
            targets.push(ContentTarget { pane, bounds, is_picked });
            i += 1;
        }
        targets
    }

    /// What the pointer shows over the grid, given what the contents of the
    /// panes show.
    pub fn mouse_interaction(
        &self,
        tree: &Node,
        interaction: &Interaction,
        size: Size,
        cursor_position: Point,
        contents: &Vec<MouseInteraction>,
    ) -> (shown: MouseInteraction)
        ensures
            shown == self.mouse_interaction_spec(
                *tree,
                *interaction,
                size,
                cursor_position,
                contents@,
            ),
    {
        if interaction.picked_pane().is_some() {
            return MouseInteraction::Grab;
        }
        let resize_axis = match interaction.picked_split() {
            Some((_, axis)) => Some(axis),
            None => match self.grab_split(tree, size, cursor_position) {
                Some((_, axis, _)) => Some(axis),
                None => None,
            },
        };
        match resize_axis {
            Some(Axis::Horizontal) => MouseInteraction::ResizingVertically,
            Some(Axis::Vertical) => MouseInteraction::ResizingHorizontally,
            None => MouseInteraction::strongest(contents),
        }
    }

    /// Says what to draw: every pane at its place, the dragged pane moved
    /// with the pointer, and the bar on the split that is dragged or under
    /// the pointer.
    pub fn draw(
        &self,
        tree: &Node,
        interaction: &Interaction,
        size: Size,
        cursor_position: Point,
    ) -> (drawing: Drawing)
        ensures
            drawing.panes@.len() == self.children(*tree, size).len(),
            forall|i: int|
                0 <= i < drawing.panes@.len() ==> #[trigger] drawing.panes@[i] == pane_drawing(
                    *interaction,
                    cursor_position,
                    self.children(*tree, size)[i],
                ),
            drawing.highlight == self.highlight(*tree, *interaction, size, cursor_position),
    {
        let picked_pane = interaction.picked_pane();
        let mut highlighted: Option<(Axis, Rectangle, bool)> = None;
        if let Some((split, axis)) = interaction.picked_split() {
            let splits = tree.split_regions(self.spacing as u32, size);
            if let Some(region) = find_split_region(&splits, split) {
                proof {
                    tree.lemma_regions_within(self.spacing as u32, Rectangle::with_size(size));
                    lemma_band_fits(
                        SplitRegion { axis, ..region },
                        Rectangle::with_size(size),
                        self.spacing as u32,
                    );
                }
                let bounds = axis.split_line_bounds(
                    region.rectangle,
                    region.ratio,
                    self.spacing as u32,
                );
                highlighted = Some((axis, bounds, true));
            }
        }
        if highlighted.is_none() {
            if let Some((_, axis, bounds)) = self.grab_split(tree, size, cursor_position) {
                highlighted = Some((axis, bounds, false));
            }
        }
        assert(highlighted == self.highlighted_split(*tree, *interaction, size, cursor_position));
        let pane_cursor_position = if picked_pane.is_some() {
            None
        } else {
            Some(cursor_position)
        };
        let children = self.layout(tree, size);
        let mut panes: Vec<PaneDrawing> = Vec::new();
        let mut i: usize = 0;
        while i < children.len()
            invariant
                0 <= i <= children.len(),
                panes.len() == i,
                picked_pane == interaction.picked_pane(),
                pane_cursor_position == if picked_pane is Some {
                    None
                } else {
                    Some(cursor_position)
                },
                forall|j: int|
                    0 <= j < children.len() ==> (#[trigger] children[j]).1.within(
                        Rectangle::with_size(size),
                    ),
                forall|j: int|
                    0 <= j < i ==> #[trigger] panes@[j] == pane_drawing(
                        *interaction,
                        cursor_position,
                        children@[j],
                    ),
            decreases children.len() - i,
        {
            let (pane, bounds) = children[i];
            assert(children[i as int].1.within(Rectangle::with_size(size)));
            let translation = match picked_pane {
                Some((dragging, origin)) => if pane == dragging {
                    Some(
                        Vector {
                            x: cursor_position.x as i64 - (bounds.x + origin.x as i64),
                            y: cursor_position.y as i64 - (bounds.y + origin.y as i64),
                        },
                    )
                } else {
                    None
                },
                None => None,
            };
            panes.push(PaneDrawing { pane, bounds, cursor: pane_cursor_position, translation });
            i += 1;
        }
        let highlight = match highlighted {
            Some((axis, region, is_picked)) => {
                let line = if is_picked {
                    self.style.picked_split
                } else {
                    self.style.hovered_split
                };
                match line {
                    Some(line) => Some(
                        Highlight {
                            bounds: highlight_bounds(axis, region, line.width),
                            color: line.color,
                        },
                    ),
                    None => None,
                }
            },
            None => None,
        };
        Drawing { panes, highlight }
    }
}

/// The band around the split line of a region inside `area`, itself near the
/// origin, can be written down.
pub proof fn lemma_band_fits(region: SplitRegion, area: Rectangle, thickness: u32)
    requires
        region.rectangle.within(area),
        0 <= area.x,
        0 <= area.y,
        area.x + area.width <= u32::MAX,
        area.y + area.height <= u32::MAX,
    ensures
        crate::hit::grab_band(region, thickness).fits(),
        region.rectangle.fits(),
{
    crate::axis::lemma_line_offset_bounds(
        region.rectangle.height as int,
        region.ratio,
        thickness as int,
    );
    crate::axis::lemma_line_offset_bounds(
        region.rectangle.width as int,
        region.ratio,
        thickness as int,
    );
}

/// The rectangle that [`region_of`] finds is that of one of the regions.
pub proof fn lemma_region_of_member(regions: Seq<(Pane, Rectangle)>, pane: Pane)
    ensures
        region_of(regions, pane) matches Some(rectangle) ==> exists|i: int|
            0 <= i < regions.len() && #[trigger] regions[i] == (pane, rectangle),
    decreases regions.len(),
{
    if regions.len() > 0 && regions[0].0 != pane {
        let rest = regions.drop_first();
        lemma_region_of_member(rest, pane);
        if let Some(rectangle) = region_of(rest, pane) {
            let i = choose|i: int| 0 <= i < rest.len() && #[trigger] rest[i] == (pane, rectangle);
            assert(regions[i + 1] == rest[i]);
        }
    } else if regions.len() > 0 {
        assert(regions[0] == (pane, regions[0].1));
    }
}

/// Among regions that name each pane once, the region of a pane is found by
/// its name.
pub proof fn lemma_region_of_unique(regions: Seq<(Pane, Rectangle)>, i: int)
    requires
        0 <= i < regions.len(),
        forall|j: int, k: int|
            0 <= j < k < regions.len() ==> (#[trigger] regions[j]).0 != (#[trigger] regions[k]).0,
    ensures
        region_of(regions, regions[i].0) == Some(regions[i].1),
    decreases regions.len(),
{
    if i > 0 {
        let rest = regions.drop_first();
        assert(regions[0].0 != regions[i].0);
        assert forall|j: int, k: int| 0 <= j < k < rest.len() implies (#[trigger] rest[j]).0 != (
        #[trigger] rest[k]).0 by {
            assert(rest[j] == regions[j + 1] && rest[k] == regions[k + 1]);
        }
        assert(rest[i - 1] == regions[i]);
        lemma_region_of_unique(rest, i - 1);
    }
}

/// A grid that shows the panes of a tree in which every pane occurs once, in
/// the order of the tree, lays out every pane of the tree: its children are
/// the regions of the tree.
pub proof fn lemma_shows_every_pane(grid: PaneGrid, tree: Node, size: Size)
    requires
        element_panes(grid.elements@) == tree.panes(),
        tree.panes().no_duplicates(),
    ensures
        grid.children(tree, size) == tree.pane_regions_in(
            grid.spacing as u32,
            Rectangle::with_size(size),
        ),
{
    let regions = tree.pane_regions_in(grid.spacing as u32, Rectangle::with_size(size));
    tree.lemma_regions_follow_tree(grid.spacing as u32, Rectangle::with_size(size));
    lemma_element_regions_prefix(grid.elements@, regions, grid.elements@.len() as int);
    assert(grid.elements@.take(grid.elements@.len() as int) =~= grid.elements@);
    assert(regions.take(regions.len() as int) =~= regions);
}

proof fn lemma_element_regions_prefix(
    elements: Seq<(Pane, Content)>,
    regions: Seq<(Pane, Rectangle)>,
    count: int,
)
    requires
        0 <= count <= elements.len(),
        elements.len() == regions.len(),
        forall|i: int| 0 <= i < regions.len() ==> (#[trigger] regions[i]).0 == elements[i].0,
        forall|j: int, k: int|
            0 <= j < k < regions.len() ==> (#[trigger] regions[j]).0 != (#[trigger] regions[k]).0,
    ensures
        element_regions(elements.take(count), regions) == regions.take(count),
    decreases count,
{
    if count == 0 {
        assert(elements.take(0) =~= Seq::<(Pane, Content)>::empty());
        assert(regions.take(0) =~= Seq::<(Pane, Rectangle)>::empty());
    } else {
        lemma_element_regions_prefix(elements, regions, count - 1);
        assert(elements.take(count).drop_last() =~= elements.take(count - 1));
        assert(elements.take(count).last() == elements[count - 1]);
        lemma_region_of_unique(regions, count - 1);
        assert(regions.take(count - 1).push(regions[count - 1]) =~= regions.take(count));
    }
}

/// Without spacing, a press inside a grid that shows every pane of its tree
/// lands on a pane, whatever the grid reacts to: where the press grabs no
/// split, that pane is clicked.
pub proof fn lemma_press_lands_without_spacing(
    grid: PaneGrid,
    tree: Node,
    size: Size,
    cursor: Point,
)
    requires
        element_panes(grid.elements@) == tree.panes(),
        tree.panes().no_duplicates(),
        grid.spacing == 0,
        Rectangle::with_size(size).contains(cursor),
    ensures
        first_containing(grid.children(tree, size), cursor) is Some,
{
    lemma_shows_every_pane(grid, tree, size);
    crate::hit::lemma_pane_hit_without_spacing(tree, size, cursor);
}

/// With resizing enabled, a press inside a grid that shows every pane of its
/// tree selects one thing. Where the press grabs a split, that split is
/// picked and no pane is told of; splits go before panes. Else the press
/// lands on a pane, the first in the order of the tree whose rectangle holds
/// it, and no split is picked.
pub proof fn lemma_press_selects_one(
    grid: PaneGrid,
    tree: Node,
    before: Interaction,
    event: Event,
    size: Size,
    cursor: Point,
)
    requires
        element_panes(grid.elements@) == tree.panes(),
        tree.panes().no_duplicates(),
        grid.on_resize is Some,
        event.gesture() == Gesture::Press,
        Rectangle::with_size(size).contains(cursor),
    ensures
        grid.event_status(tree, before, event, size, cursor) == Status::Captured,
        match grid.grabbed_split(tree, size, cursor) {
            Some((split, axis, _)) => {
                &&& grid.next_interaction(tree, before, event, size, cursor)
                    == (Interaction::SplitPicked { split, axis })
                &&& grid.event_messages(tree, before, event, size, cursor) == Seq::<Message>::empty()
            },
            None => {
                &&& first_containing(
                    tree.pane_regions_in(grid.spacing as u32, Rectangle::with_size(size)),
                    cursor,
                ) matches Some((pane, _))
                &&& grid.event_messages(tree, before, event, size, cursor) == grid.click_messages(
                    tree.pane_regions_in(grid.spacing as u32, Rectangle::with_size(size)),
                    cursor,
                )
                &&& grid.on_click ==> grid.event_messages(tree, before, event, size, cursor)[0]
                    == Message::PaneClicked(pane)
                &&& grid.next_interaction(tree, before, event, size, cursor) is SplitPicked
                    ==> before is SplitPicked
            },
        },
{
    lemma_shows_every_pane(grid, tree, size);
    crate::hit::lemma_hit_exhaustive(tree, grid.spacing, grid.on_resize->0, size, cursor);
}

} // verus!
