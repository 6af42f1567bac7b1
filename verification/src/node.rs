use crate::axis::{Axis, Ratio};
use crate::geometry::{Rectangle, Size};
use crate::pane::Pane;
use crate::split::Split;
use vstd::prelude::*;

verus! {

/// A split of a laid out tree, with the rectangle that it divides.
#[derive(Clone, Copy, Debug, PartialEq, Eq, Structural)]
pub struct SplitRegion {
    /// The identity of the split.
    pub split: Split,
    /// The direction of the split.
    pub axis: Axis,
    /// The rectangle that the split divides.
    pub rectangle: Rectangle,
    /// The share of the rectangle that lies in front of the split line.
    pub ratio: Ratio,
}

/// A layout node of a grid: a pane, or a split with a node on either side.
#[derive(Debug, PartialEq, Eq)]
pub enum Node {
    /// The region of this node is split in two.
    Split {
        /// The identity of the split.
        id: Split,
        /// The direction of the split.
        axis: Axis,
        /// The share of the region that lies in front of the split line.
        ratio: Ratio,
        /// The top or left part.
        first: Box<Node>,
        /// The bottom or right part.
        second: Box<Node>,
    },
    /// The region of this node holds a pane.
    Pane(Pane),
}

impl Node {
    /// The panes of the tree, first child before second child.
    pub open spec fn panes(self) -> Seq<Pane>
        decreases self,
    {
        match self {
            Node::Pane(pane) => seq![pane],
            Node::Split { first, second, .. } => first.panes() + second.panes(),
        }
    }

    /// The splits of the tree, each before the splits below it, first child
    /// before second child.
    pub open spec fn splits(self) -> Seq<Split>
        decreases self,
    {
        match self {
            Node::Pane(_) => Seq::empty(),
            Node::Split { id, first, second, .. } => seq![id] + first.splits() + second.splits(),
        }
    }

    /// The first pane of the tree.
    pub open spec fn first_pane_spec(self) -> Pane
        decreases self,
    {
        match self {
            Node::Pane(pane) => pane,
            Node::Split { first, .. } => first.first_pane_spec(),
        }
    }

    /// Whether every ratio of the tree lies between one tenth and nine tenths.
    pub open spec fn ratios_clamped(self) -> bool
        decreases self,
    {
        match self {
            Node::Pane(_) => true,
            Node::Split { ratio, first, second, .. } => {
                &&& ratio.is_clamped()
                &&& first.ratios_clamped()
                &&& second.ratios_clamped()
            },
        }
    }

    /// Every pane and every split occurs once, and every ratio is clamped.
    pub open spec fn well_formed(self) -> bool {
        &&& self.panes().no_duplicates()
        &&& self.splits().no_duplicates()
        &&& self.ratios_clamped()
    }

    /// The tree in which the first leaf `at` has become a split, at one half,
    /// with the leaf `new_pane` in front and the leaf `at` behind. The tree
    /// itself where it has no leaf `at`.
    pub open spec fn with_split(self, at: Pane, id: Split, axis: Axis, new_pane: Pane) -> Node
        decreases self,
    {
        match self {
            Node::Pane(pane) => if pane == at {
                Node::Split {
                    id,
                    axis,
                    ratio: Ratio::half(),
                    first: Box::new(Node::Pane(new_pane)),
                    second: Box::new(Node::Pane(at)),
                }
            } else {
                self
            },
            Node::Split { id: here, axis: along, ratio, first, second } => if first.panes().contains(
                at,
            ) {
                Node::Split {
                    id: here,
                    axis: along,
                    ratio,
                    first: Box::new(first.with_split(at, id, axis, new_pane)),
                    second,
                }
            } else {
                Node::Split {
                    id: here,
                    axis: along,
                    ratio,
                    first,
                    second: Box::new(second.with_split(at, id, axis, new_pane)),
                }
            },
        }
    }

    /// The first pane of the subtree beside the leaf `pane`; `None` where the
    /// tree is that leaf alone or has no such leaf.
    pub open spec fn sibling_of(self, pane: Pane) -> Option<Pane>
        decreases self,
    {
        match self {
            Node::Pane(_) => None,
            Node::Split { first, second, .. } => if *first == Node::Pane(pane) {
                Some(second.first_pane_spec())
            } else if *second == Node::Pane(pane) {
                Some(first.first_pane_spec())
            } else if first.sibling_of(pane) is Some {
                first.sibling_of(pane)
            } else {
                second.sibling_of(pane)
            },
        }
    }

    /// The tree without the leaf `pane` and the split above it: the subtree
    /// beside the leaf takes the split's place. The tree itself where
    /// [`Node::sibling_of`] is `None`.
    pub open spec fn without(self, pane: Pane) -> Node
        decreases self,
    {
        match self {
            Node::Pane(_) => self,
            Node::Split { id, axis, ratio, first, second } => if *first == Node::Pane(pane) {
                *second
            } else if *second == Node::Pane(pane) {
                *first
            } else if first.sibling_of(pane) is Some {
                Node::Split { id, axis, ratio, first: Box::new(first.without(pane)), second }
            } else {
                Node::Split { id, axis, ratio, first, second: Box::new(second.without(pane)) }
            },
        }
    }

    /// The tree in which every leaf `a` has become `b` and every leaf `b` has
    /// become `a`.
    pub open spec fn swapped(self, a: Pane, b: Pane) -> Node
        decreases self,
    {
        match self {
            Node::Pane(pane) => if pane == a {
                Node::Pane(b)
            } else if pane == b {
                Node::Pane(a)
            } else {
                self
            },
            Node::Split { id, axis, ratio, first, second } => Node::Split {
                id,
                axis,
                ratio,
                first: Box::new(first.swapped(a, b)),
                second: Box::new(second.swapped(a, b)),
            },
        }
    }

    /// The tree in which the first split `split` has the ratio `ratio`,
    /// clamped between one tenth and nine tenths. The tree itself where it
    /// has no such split.
    pub open spec fn with_ratio(self, split: Split, ratio: Ratio) -> Node
        decreases self,
    {
        match self {
            Node::Pane(_) => self,
            Node::Split { id, axis, ratio: current, first, second } => if id == split {
                Node::Split { id, axis, ratio: ratio.clamped(), first, second }
            } else if first.splits().contains(split) {
                Node::Split {
                    id,
                    axis,
                    ratio: current,
                    first: Box::new(first.with_ratio(split, ratio)),
                    second,
                }
            } else {
                Node::Split {
                    id,
                    axis,
                    ratio: current,
                    first,
                    second: Box::new(second.with_ratio(split, ratio)),
                }
            },
        }
    }

    /// The rectangle of every pane when the tree fills `current`, first child
    /// before second child.
    pub open spec fn pane_regions_in(self, spacing: u32, current: Rectangle) -> Seq<
        (Pane, Rectangle),
    >
        decreases self,
    {
        match self {
            Node::Pane(pane) => seq![(pane, current)],
            Node::Split { axis, ratio, first, second, .. } => {
                let parts = axis.split_spec(current, ratio, spacing);
                first.pane_regions_in(spacing, parts.0) + second.pane_regions_in(spacing, parts.1)
            },
        }
    }

    /// Every split with the rectangle that it divides when the tree fills
    /// `current`, each split before the splits below it.
    pub open spec fn split_regions_in(self, spacing: u32, current: Rectangle) -> Seq<SplitRegion>
        decreases self,
    {
        match self {
            Node::Pane(_) => Seq::empty(),
            Node::Split { id, axis, ratio, first, second } => {
                let parts = axis.split_spec(current, ratio, spacing);
                seq![SplitRegion { split: id, axis, rectangle: current, ratio }]
                    + first.split_regions_in(spacing, parts.0) + second.split_regions_in(
                    spacing,
                    parts.1,
                )
            },
        }
    }

    /// The strip that every split leaves free when the tree fills `current`,
    /// in the order of [`Node::split_regions_in`].
    pub open spec fn gaps_in(self, spacing: u32, current: Rectangle) -> Seq<Rectangle>
        decreases self,
    {
        match self {
            Node::Pane(_) => Seq::empty(),
            Node::Split { axis, ratio, first, second, .. } => {
                let parts = axis.split_spec(current, ratio, spacing);
                seq![axis.gap_spec(current, ratio, spacing)] + first.gaps_in(spacing, parts.0)
                    + second.gaps_in(spacing, parts.1)
            },
        }
    }

    /// The rectangle of every pane when the tree fills an area of the given
    /// size, first child before second child.
    pub fn pane_regions(&self, spacing: u32, size: Size) -> (regions: Vec<(Pane, Rectangle)>)
        ensures
            regions@ == self.pane_regions_in(spacing, Rectangle::with_size(size)),
    {
        let mut regions: Vec<(Pane, Rectangle)> = Vec::new();
        self.compute_regions(spacing, &Rectangle::with_size(size), &mut regions);
        regions
    }

    /// Every split with the rectangle that it divides when the tree fills an
    /// area of the given size, each split before the splits below it.
    pub fn split_regions(&self, spacing: u32, size: Size) -> (splits: Vec<SplitRegion>)
        ensures
            splits@ == self.split_regions_in(spacing, Rectangle::with_size(size)),
    {
        let mut splits: Vec<SplitRegion> = Vec::new();
        self.compute_split_regions(spacing, &Rectangle::with_size(size), &mut splits);
        splits
    }

    fn compute_regions(
        &self,
        spacing: u32,
        current: &Rectangle,
        regions: &mut Vec<(Pane, Rectangle)>,
    )
        requires
            current.fits(),
        ensures
            final(regions)@ == old(regions)@ + self.pane_regions_in(spacing, *current),
        decreases self,
    {
        match self {
            Node::Pane(pane) => {
                regions.push((*pane, *current));
                assert(regions@ == old(regions)@ + seq![(*pane, *current)]);
            },
            Node::Split { axis, ratio, first, second, .. } => {
                let (region_a, region_b) = axis.split(current, *ratio, spacing);
                first.compute_regions(spacing, &region_a, regions);
                second.compute_regions(spacing, &region_b, regions);
                assert(regions@ == old(regions)@ + (first.pane_regions_in(spacing, region_a)
                    + second.pane_regions_in(spacing, region_b)));
            },
        }
    }

    fn compute_split_regions(&self, spacing: u32, current: &Rectangle, splits: &mut Vec<SplitRegion>)
        requires
            current.fits(),
        ensures
            final(splits)@ == old(splits)@ + self.split_regions_in(spacing, *current),
        decreases self,
    {
        match self {
            Node::Pane(_) => {
                assert(splits@ == old(splits)@ + Seq::<SplitRegion>::empty());
            },
            Node::Split { id, axis, ratio, first, second } => {
                let (region_a, region_b) = axis.split(current, *ratio, spacing);
                let here = SplitRegion { split: *id, axis: *axis, rectangle: *current, ratio: *ratio };
                splits.push(here);
                first.compute_split_regions(spacing, &region_a, splits);
                second.compute_split_regions(spacing, &region_b, splits);
                assert(splits@ == old(splits)@ + (seq![here] + first.split_regions_in(
                    spacing,
                    region_a,
                ) + second.split_regions_in(spacing, region_b)));
            },
        }
    }

    /// The panes of the tree, first child before second child.
    pub fn pane_list(&self) -> (panes: Vec<Pane>)
        ensures
            panes@ == self.panes(),
    {
        let mut panes: Vec<Pane> = Vec::new();
        self.collect_panes(&mut panes);
        panes
    }

    fn collect_panes(&self, panes: &mut Vec<Pane>)
        ensures
            final(panes)@ == old(panes)@ + self.panes(),
        decreases self,
    {
        match self {
            Node::Pane(pane) => {
                panes.push(*pane);
                assert(panes@ == old(panes)@ + seq![*pane]);
            },
            Node::Split { first, second, .. } => {
                first.collect_panes(panes);
                second.collect_panes(panes);
                assert(panes@ == old(panes)@ + (first.panes() + second.panes()));
            },
        }
    }

    /// Whether the node is the leaf `pane`.
    pub fn is_pane(&self, pane: Pane) -> (yes: bool)
        ensures
            yes == (*self == Node::Pane(pane)),
    {
        match self {
            Node::Pane(here) => *here == pane,
            Node::Split { .. } => false,
        }
    }

    /// Whether the tree has a leaf `pane`.
    pub fn contains(&self, pane: Pane) -> (found: bool)
        ensures
            found == self.panes().contains(pane),
        decreases self,
    {
        match self {
            Node::Pane(here) => {
                assert(self.panes()[0] == *here);
                *here == pane
            },
            Node::Split { first, second, .. } => {
                proof {
                    lemma_contains_concat(first.panes(), second.panes(), pane);
                }
                first.contains(pane) || second.contains(pane)
            },
        }
    }

    /// The first pane of the tree.
    pub fn first_pane(&self) -> (pane: Pane)
        ensures
            pane == self.first_pane_spec(),
        decreases self,
    {
        match self {
            Node::Pane(pane) => *pane,
            Node::Split { first, .. } => first.first_pane(),
        }
    }

    /// Turns the first leaf `at` into a split with the new pane in front of
    /// it, and says whether there was such a leaf.
    pub fn split(&mut self, at: Pane, id: Split, axis: Axis, new_pane: Pane) -> (found: bool)
        ensures
            found == old(self).panes().contains(at),
            *final(self) == old(self).with_split(at, id, axis, new_pane),
        decreases *old(self),
    {
        match self {
            Node::Pane(pane) => {
                assert(old(self).panes()[0] == *pane);
                if *pane == at {
                    *self = Node::Split {
                        id,
                        axis,
                        ratio: Ratio::half(),
                        first: Box::new(Node::Pane(new_pane)),
                        second: Box::new(Node::Pane(at)),
                    };
                    true
                } else {
                    false
                }
            },
            Node::Split { first, second, .. } => {
                proof {
                    lemma_contains_concat(first.panes(), second.panes(), at);
                    first.lemma_with_split_absent(at, id, axis, new_pane);
                }
                if first.split(at, id, axis, new_pane) {
                    true
                } else {
                    second.split(at, id, axis, new_pane)
                }
            },
        }
    }

    /// Exchanges the leaves `a` and `b`.
    pub fn swap(&mut self, a: Pane, b: Pane)
        ensures
            *final(self) == old(self).swapped(a, b),
        decreases *old(self),
    {
        match self {
            Node::Pane(pane) => {
                if *pane == a {
                    *pane = b;
                } else if *pane == b {
                    *pane = a;
                }
            },
            Node::Split { first, second, .. } => {
                first.swap(a, b);
                second.swap(a, b);
            },
        }
    }

    /// Sets the ratio of the first split `split`, clamped between one tenth
    /// and nine tenths, and says whether there was such a split.
    pub fn resize(&mut self, split: Split, ratio: Ratio) -> (found: bool)
        ensures
            found == old(self).splits().contains(split),
            *final(self) == old(self).with_ratio(split, ratio),
        decreases *old(self),
    {
        match self {
            Node::Pane(_) => false,
            Node::Split { id, ratio: current, first, second, .. } => {
                proof {
                    let head = seq![*id];
                    assert(head[0] == *id);
                    lemma_contains_concat(head, first.splits(), split);
                    lemma_contains_concat(head + first.splits(), second.splits(), split);
                    first.lemma_with_ratio_absent(split, ratio);
                }
                if *id == split {
                    *current = ratio.clamped();
                    true
                } else if first.resize(split, ratio) {
                    true
                } else {
                    second.resize(split, ratio)
                }
            },
        }
    }

    /// Takes the leaf `pane` and the split above it out of the tree, and
    /// returns the first pane of the subtree that took the split's place.
    /// Leaves the tree as it is, and returns `None`, where the tree is a single
    /// leaf or has no leaf `pane`.
    pub fn remove(&mut self, pane: Pane) -> (sibling: Option<Pane>)
        ensures
            sibling == old(self).sibling_of(pane),
            *final(self) == old(self).without(pane),
        decreases *old(self),
    {
        match self {
            Node::Pane(_) => None,
            Node::Split { first, second, .. } => {
                if first.is_pane(pane) {
                    let mut promoted: Box<Node> = Box::new(Node::Pane(pane));
                    std::mem::swap(&mut promoted, second);
                    *self = *promoted;
                    Some(self.first_pane())
                } else if second.is_pane(pane) {
                    let mut promoted: Box<Node> = Box::new(Node::Pane(pane));
                    std::mem::swap(&mut promoted, first);
                    *self = *promoted;
                    Some(self.first_pane())
                } else {
                    proof {
                        first.lemma_without_absent(pane);
                    }
                    let found = first.remove(pane);
                    if found.is_some() {
                        found
                    } else {
                        second.remove(pane)
                    }
                }
            },
        }
    }

    /// A leaf has a sibling exactly where the tree is a split and has the leaf.
    pub proof fn lemma_sibling_of(self, pane: Pane)
        ensures
            self.sibling_of(pane) is Some <==> self is Split && self.panes().contains(pane),
        decreases self,
    {
        match self {
            Node::Pane(_) => {},
            Node::Split { first, second, .. } => {
                lemma_contains_concat(first.panes(), second.panes(), pane);
                first.lemma_sibling_of(pane);
                second.lemma_sibling_of(pane);
                if *first == Node::Pane(pane) {
                    assert(first.panes()[0] == pane);
                }
                if *second == Node::Pane(pane) {
                    assert(second.panes()[0] == pane);
                }
                if let Node::Pane(only) = *first {
                    assert(first.panes()[0] == only);
                }
                if let Node::Pane(only) = *second {
                    assert(second.panes()[0] == only);
                }
            },
        }
    }

    /// A tree in which the leaf `pane` has no sibling is left as it is by
    /// [`Node::without`].
    pub proof fn lemma_without_absent(self, pane: Pane)
        ensures
            self.sibling_of(pane) is None ==> self.without(pane) == self,
        decreases self,
    {
        match self {
            Node::Pane(_) => {},
            Node::Split { first, second, .. } => {
                first.lemma_without_absent(pane);
                second.lemma_without_absent(pane);
            },
        }
    }

    /// A tree without a leaf `at` is left as it is by [`Node::with_split`].
    pub proof fn lemma_with_split_absent(self, at: Pane, id: Split, axis: Axis, new_pane: Pane)
        ensures
            !self.panes().contains(at) ==> self.with_split(at, id, axis, new_pane) == self,
        decreases self,
    {
        match self {
            Node::Pane(pane) => {
                assert(self.panes()[0] == pane);
            },
            Node::Split { first, second, .. } => {
                lemma_contains_concat(first.panes(), second.panes(), at);
                first.lemma_with_split_absent(at, id, axis, new_pane);
                second.lemma_with_split_absent(at, id, axis, new_pane);
            },
        }
    }

    /// A tree without a split `split` is left as it is by [`Node::with_ratio`].
    pub proof fn lemma_with_ratio_absent(self, split: Split, ratio: Ratio)
        ensures
            !self.splits().contains(split) ==> self.with_ratio(split, ratio) == self,
        decreases self,
    {
        match self {
            Node::Pane(_) => {},
            Node::Split { id, first, second, .. } => {
                let head = seq![id];
                assert(head[0] == id);
                lemma_contains_concat(head, first.splits(), split);
                lemma_contains_concat(head + first.splits(), second.splits(), split);
                first.lemma_with_ratio_absent(split, ratio);
                second.lemma_with_ratio_absent(split, ratio);
            },
        }
    }
}

/// A value occurs in a concatenation where it occurs in one of the parts.
pub proof fn lemma_contains_concat<A>(left: Seq<A>, right: Seq<A>, value: A)
    ensures
        (left + right).contains(value) <==> left.contains(value) || right.contains(value),
{
    if left.contains(value) {
        let i = choose|i: int| 0 <= i < left.len() && left[i] == value;
        assert((left + right)[i] == value);
    }
    if right.contains(value) {
        let i = choose|i: int| 0 <= i < right.len() && right[i] == value;
        assert((left + right)[left.len() + i] == value);
    }
    if (left + right).contains(value) {
        let i = choose|i: int| 0 <= i < (left + right).len() && (left + right)[i] == value;
        if i < left.len() {
            assert(left[i] == value);
        } else {
            assert(right[i - left.len()] == value);
        }
    }
}

} // verus!
