//! What the operations on a tree keep and change: which panes and splits the
//! result has, and that it stays well formed.

use crate::axis::{Axis, Ratio, RATIO_MAX, RATIO_MIN};
use crate::geometry::Rectangle;
use crate::node::{lemma_contains_concat, Node};
use crate::pane::Pane;
use crate::split::Split;
use vstd::prelude::*;

verus! {

/// A concatenation has no duplicates exactly where neither part has any and
/// the parts share no value.
pub proof fn lemma_no_duplicates_concat<A>(left: Seq<A>, right: Seq<A>)
    ensures
        (left + right).no_duplicates() <==> {
            &&& left.no_duplicates()
            &&& right.no_duplicates()
            &&& forall|value: A| !(left.contains(value) && right.contains(value))
        },
{
    let both = left + right;
    if both.no_duplicates() {
        assert forall|i: int, j: int| 0 <= i < j < left.len() implies left[i] != left[j] by {
            assert(both[i] == left[i] && both[j] == left[j]);
        }
        assert forall|i: int, j: int| 0 <= i < j < right.len() implies right[i] != right[j] by {
            assert(both[left.len() + i] == right[i] && both[left.len() + j] == right[j]);
        }
        assert forall|value: A| !(left.contains(value) && right.contains(value)) by {
            if left.contains(value) && right.contains(value) {
                let i = choose|i: int| 0 <= i < left.len() && left[i] == value;
                let j = choose|j: int| 0 <= j < right.len() && right[j] == value;
                assert(both[i] == value && both[left.len() + j] == value);
            }
        }
    }
    if left.no_duplicates() && right.no_duplicates() && forall|value: A|
        !(left.contains(value) && right.contains(value)) {
        assert forall|i: int, j: int| 0 <= i < j < both.len() implies both[i] != both[j] by {
            if j < left.len() {
                assert(both[i] == left[i] && both[j] == left[j]);
            } else if i >= left.len() {
                assert(both[i] == right[i - left.len()] && both[j] == right[j - left.len()]);
            } else {
                assert(left.contains(both[i]));
                assert(both[j] == right[j - left.len()]);
                assert(right.contains(both[j]));
            }
        }
    }
}

/// The one value of a sequence of length one is its only member.
pub proof fn lemma_contains_single<A>(value: A, other: A)
    ensures
        seq![value].contains(other) <==> other == value,
        seq![value].no_duplicates(),
{
    assert(seq![value][0] == value);
}

/// The pane that takes the place of `pane` when `a` and `b` are exchanged.
pub open spec fn exchanged(a: Pane, b: Pane, pane: Pane) -> Pane {
    if pane == a {
        b
    } else if pane == b {
        a
    } else {
        pane
    }
}

impl Node {
    /// The first pane of a tree is one of its panes.
    pub proof fn lemma_first_pane(self)
        ensures
            self.panes().contains(self.first_pane_spec()),
        decreases self,
    {
        match self {
            Node::Pane(pane) => {
                lemma_contains_single(pane, pane);
            },
            Node::Split { first, second, .. } => {
                first.lemma_first_pane();
                lemma_contains_concat(first.panes(), second.panes(), self.first_pane_spec());
            },
        }
    }

    /// Splitting at a leaf of the tree adds the new pane and the new split,
    /// and nothing else. With a pane and a split that the tree does not have
    /// yet, a well-formed tree stays well formed.
    pub proof fn lemma_with_split(self, at: Pane, id: Split, axis: Axis, new_pane: Pane)
        requires
            self.panes().contains(at),
        ensures
            self.with_split(at, id, axis, new_pane) is Split,
            forall|pane: Pane| #[trigger]
                self.with_split(at, id, axis, new_pane).panes().contains(pane) <==> pane == new_pane
                    || self.panes().contains(pane),
            forall|split: Split| #[trigger]
                self.with_split(at, id, axis, new_pane).splits().contains(split) <==> split == id
                    || self.splits().contains(split),
            self.well_formed() && !self.panes().contains(new_pane) && !self.splits().contains(id)
                ==> self.with_split(at, id, axis, new_pane).well_formed(),
        decreases self,
    {
        let after = self.with_split(at, id, axis, new_pane);
        match self {
            Node::Pane(pane) => {
                reveal_with_fuel(Node::panes, 2);
                reveal_with_fuel(Node::splits, 2);
                reveal_with_fuel(Node::ratios_clamped, 2);
                lemma_contains_single(pane, at);
                let front = seq![new_pane];
                let back = seq![at];
                assert(after.panes() =~= front + back);
                assert(after.splits() =~= seq![id]);
                assert forall|other: Pane| #[trigger] after.panes().contains(other) <==> other
                    == new_pane || self.panes().contains(other) by {
                    lemma_contains_concat(front, back, other);
                    lemma_contains_single(new_pane, other);
                    lemma_contains_single(at, other);
                }
                assert forall|split: Split| #[trigger] after.splits().contains(split) <==> split
                    == id || self.splits().contains(split) by {
                    lemma_contains_single(id, split);
                }
                if !self.panes().contains(new_pane) {
                    lemma_no_duplicates_concat(front, back);
                    lemma_contains_single(new_pane, new_pane);
                    lemma_contains_single(at, at);
                    assert forall|value: Pane| !(front.contains(value) && back.contains(value)) by {
                        lemma_contains_single(new_pane, value);
                        lemma_contains_single(at, value);
                    }
                    lemma_contains_single(id, id);
                }
            },
            Node::Split { id: here, first, second, .. } => {
                let head = seq![here];
                lemma_contains_concat(first.panes(), second.panes(), at);
                lemma_no_duplicates_concat(first.panes(), second.panes());
                lemma_no_duplicates_concat(head, first.splits());
                lemma_no_duplicates_concat(head + first.splits(), second.splits());
                let (new_first, new_second) = if first.panes().contains(at) {
                    first.lemma_with_split(at, id, axis, new_pane);
                    (first.with_split(at, id, axis, new_pane), *second)
                } else {
                    second.lemma_with_split(at, id, axis, new_pane);
                    (*first, second.with_split(at, id, axis, new_pane))
                };
                assert(after.panes() == new_first.panes() + new_second.panes());
                assert(after.splits() == head + new_first.splits() + new_second.splits());
                assert forall|pane: Pane| #[trigger] after.panes().contains(pane) <==> pane
                    == new_pane || self.panes().contains(pane) by {
                    lemma_contains_concat(first.panes(), second.panes(), pane);
                    lemma_contains_concat(new_first.panes(), new_second.panes(), pane);
                }
                assert forall|split: Split| #[trigger] after.splits().contains(split) <==> split
                    == id || self.splits().contains(split) by {
                    lemma_contains_concat(head, first.splits(), split);
                    lemma_contains_concat(head + first.splits(), second.splits(), split);
                    lemma_contains_concat(head, new_first.splits(), split);
                    lemma_contains_concat(head + new_first.splits(), new_second.splits(), split);
                }
                if self.well_formed() && !self.panes().contains(new_pane) && !self.splits().contains(
                    id,
                ) {
                    lemma_contains_concat(first.panes(), second.panes(), new_pane);
                    lemma_contains_concat(head, first.splits(), id);
                    lemma_contains_concat(head + first.splits(), second.splits(), id);
                    lemma_contains_single(here, id);
                    lemma_no_duplicates_concat(new_first.panes(), new_second.panes());
                    lemma_no_duplicates_concat(head, new_first.splits());
                    lemma_no_duplicates_concat(head + new_first.splits(), new_second.splits());
                    assert forall|value: Split|
                        !((head + new_first.splits()).contains(value) && new_second.splits().contains(
                            value,
                        )) by {
                        lemma_contains_concat(head, first.splits(), value);
                        lemma_contains_concat(head, new_first.splits(), value);
                        lemma_contains_single(here, value);
                    }
                    assert forall|value: Split|
                        !(head.contains(value) && new_first.splits().contains(value)) by {
                        lemma_contains_single(here, value);
                    }
                }
            },
        }
    }

    /// Taking a leaf out of a tree in which it has a sibling leaves the other
    /// panes, among them the sibling, and no split that was not there. A
    /// well-formed tree stays well formed.
    pub proof fn lemma_without(self, pane: Pane)
        requires
            self.sibling_of(pane) is Some,
        ensures
            self.without(pane).panes().contains(self.sibling_of(pane)->0),
            forall|other: Pane| #[trigger]
                self.without(pane).panes().contains(other) ==> self.panes().contains(other),
            self.panes().no_duplicates() ==> forall|other: Pane| #[trigger]
                self.without(pane).panes().contains(other) <==> self.panes().contains(other)
                    && other != pane,
            forall|split: Split| #[trigger]
                self.without(pane).splits().contains(split) ==> self.splits().contains(split),
            self.well_formed() ==> self.without(pane).well_formed(),
        decreases self,
    {
        let after = self.without(pane);
        match self {
            Node::Pane(_) => {},
            Node::Split { id, first, second, .. } => {
                let head = seq![id];
                lemma_no_duplicates_concat(first.panes(), second.panes());
                lemma_no_duplicates_concat(head, first.splits());
                lemma_no_duplicates_concat(head + first.splits(), second.splits());
                first.lemma_sibling_of(pane);
                second.lemma_sibling_of(pane);
                first.lemma_first_pane();
                second.lemma_first_pane();
                if let Node::Pane(only) = *first {
                    assert(first.panes()[0] == only);
                    lemma_contains_single(only, pane);
                }
                if let Node::Pane(only) = *second {
                    assert(second.panes()[0] == only);
                    lemma_contains_single(only, pane);
                }
                let (new_first, new_second) = if *first == Node::Pane(pane) || *second == Node::Pane(
                    pane,
                ) {
                    (*first, *second)
                } else if first.sibling_of(pane) is Some {
                    first.lemma_without(pane);
                    (first.without(pane), *second)
                } else {
                    second.lemma_without(pane);
                    (*first, second.without(pane))
                };
                if !(*first == Node::Pane(pane) || *second == Node::Pane(pane)) {
                    assert(after.panes() == new_first.panes() + new_second.panes());
                    assert(after.splits() == head + new_first.splits() + new_second.splits());
                    lemma_no_duplicates_concat(new_first.panes(), new_second.panes());
                    lemma_no_duplicates_concat(head, new_first.splits());
                    lemma_no_duplicates_concat(head + new_first.splits(), new_second.splits());
                    lemma_contains_concat(
                        new_first.panes(),
                        new_second.panes(),
                        self.sibling_of(pane)->0,
                    );
                }
                assert forall|other: Pane| #[trigger] after.panes().contains(other) implies (
                self.panes().contains(other)) && (self.panes().no_duplicates() ==> other != pane) by {
                    lemma_contains_concat(first.panes(), second.panes(), other);
                    lemma_contains_concat(new_first.panes(), new_second.panes(), other);
                    lemma_contains_concat(first.panes(), second.panes(), pane);
                }
                assert forall|other: Pane|
                    self.panes().no_duplicates() && self.panes().contains(other) && other
                        != pane implies #[trigger] after.panes().contains(other) by {
                    lemma_contains_concat(first.panes(), second.panes(), other);
                    lemma_contains_concat(new_first.panes(), new_second.panes(), other);
                    lemma_contains_concat(first.panes(), second.panes(), pane);
                }
                assert forall|split: Split| #[trigger]
                    after.splits().contains(split) implies self.splits().contains(split) by {
                    lemma_contains_concat(head, first.splits(), split);
                    lemma_contains_concat(head + first.splits(), second.splits(), split);
                    lemma_contains_concat(head, new_first.splits(), split);
                    lemma_contains_concat(head + new_first.splits(), new_second.splits(), split);
                }
                if self.well_formed() && !(*first == Node::Pane(pane) || *second == Node::Pane(
                    pane,
                )) {
                    assert forall|value: Split|
                        !((head + new_first.splits()).contains(value) && new_second.splits().contains(
                            value,
                        )) by {
                        lemma_contains_concat(head, first.splits(), value);
                        lemma_contains_concat(head, new_first.splits(), value);
                    }
                    assert forall|value: Split|
                        !(head.contains(value) && new_first.splits().contains(value)) by {}
                    assert forall|value: Pane|
                        !(new_first.panes().contains(value) && new_second.panes().contains(
                            value,
                        )) by {}
                }
            },
        }
    }

    /// Setting a ratio changes no pane and no split, and a well-formed tree
    /// stays well formed.
    pub proof fn lemma_with_ratio(self, split: Split, ratio: Ratio)
        ensures
            self.with_ratio(split, ratio).panes() == self.panes(),
            self.with_ratio(split, ratio).splits() == self.splits(),
            self.ratios_clamped() ==> self.with_ratio(split, ratio).ratios_clamped(),
        decreases self,
    {
        match self {
            Node::Pane(_) => {},
            Node::Split { first, second, .. } => {
                first.lemma_with_ratio(split, ratio);
                second.lemma_with_ratio(split, ratio);
            },
        }
    }

    /// Two ratios that clamp to the same ratio resize a tree to the same tree.
    pub proof fn lemma_with_ratio_clamps(self, split: Split, ratio: Ratio, other: Ratio)
        requires
            ratio.clamped() == other.clamped(),
        ensures
            self.with_ratio(split, ratio) == self.with_ratio(split, other),
        decreases self,
    {
        match self {
            Node::Pane(_) => {},
            Node::Split { first, second, .. } => {
                first.lemma_with_ratio_clamps(split, ratio, other);
                second.lemma_with_ratio_clamps(split, ratio, other);
            },
        }
    }

    /// A ratio of one tenth or less resizes a split as one tenth does, and a
    /// ratio of nine tenths or more as nine tenths does.
    pub proof fn lemma_resize_outside_range(self, split: Split, ratio: Ratio)
        ensures
            ratio.millionths <= RATIO_MIN ==> self.with_ratio(split, ratio) == self.with_ratio(
                split,
                Ratio { millionths: RATIO_MIN },
            ),
            ratio.millionths >= RATIO_MAX ==> self.with_ratio(split, ratio) == self.with_ratio(
                split,
                Ratio { millionths: RATIO_MAX },
            ),
    {
        if ratio.millionths <= RATIO_MIN {
            self.lemma_with_ratio_clamps(split, ratio, Ratio { millionths: RATIO_MIN });
        }
        if ratio.millionths >= RATIO_MAX {
            self.lemma_with_ratio_clamps(split, ratio, Ratio { millionths: RATIO_MAX });
        }
    }

    /// Splitting at a leaf and then closing the new pane gives back the tree,
    /// and with it the rectangle of every pane. The pane beside the closed
    /// one is the leaf that was split.
    pub proof fn lemma_split_then_close(
        self,
        at: Pane,
        id: Split,
        axis: Axis,
        new_pane: Pane,
        spacing: u32,
        area: Rectangle,
    )
        requires
            self.panes().contains(at),
            !self.panes().contains(new_pane),
        ensures
            self.with_split(at, id, axis, new_pane).sibling_of(new_pane) == Some(at),
            self.with_split(at, id, axis, new_pane).without(new_pane) == self,
            self.with_split(at, id, axis, new_pane).without(new_pane).pane_regions_in(
                spacing,
                area,
            ) == self.pane_regions_in(spacing, area),
        decreases self,
    {
        let grown = self.with_split(at, id, axis, new_pane);
        match self {
            Node::Pane(pane) => {
                lemma_contains_single(pane, at);
                reveal_with_fuel(Node::first_pane_spec, 2);
            },
            Node::Split { first, second, .. } => {
                lemma_contains_concat(first.panes(), second.panes(), at);
                lemma_contains_concat(first.panes(), second.panes(), new_pane);
                first.lemma_sibling_of(new_pane);
                second.lemma_sibling_of(new_pane);
                if let Node::Pane(only) = *first {
                    lemma_contains_single(only, new_pane);
                }
                if let Node::Pane(only) = *second {
                    lemma_contains_single(only, new_pane);
                }
                if first.panes().contains(at) {
                    first.lemma_with_split(at, id, axis, new_pane);
                    first.lemma_split_then_close(at, id, axis, new_pane, spacing, area);
                } else {
                    second.lemma_with_split(at, id, axis, new_pane);
                    second.lemma_split_then_close(at, id, axis, new_pane, spacing, area);
                }
            },
        }
    }

    /// Exchanging two panes exchanges them leaf by leaf and changes no split.
    /// Where the tree has both, it has the same panes afterwards, and a
    /// well-formed tree stays well formed.
    pub proof fn lemma_swapped(self, a: Pane, b: Pane)
        ensures
            self.swapped(a, b).panes().len() == self.panes().len(),
            forall|i: int|
                0 <= i < self.panes().len() ==> #[trigger] self.swapped(a, b).panes()[i]
                    == exchanged(a, b, self.panes()[i]),
            self.swapped(a, b).splits() == self.splits(),
            self.swapped(a, b).ratios_clamped() == self.ratios_clamped(),
            self.panes().contains(a) && self.panes().contains(b) ==> forall|pane: Pane| #[trigger]
                self.swapped(a, b).panes().contains(pane) <==> self.panes().contains(pane),
            self.well_formed() ==> self.swapped(a, b).well_formed(),
        decreases self,
    {
        let after = self.swapped(a, b);
        match self {
            Node::Pane(_) => {},
            Node::Split { first, second, .. } => {
                first.lemma_swapped(a, b);
                second.lemma_swapped(a, b);
                assert(after.panes() == first.swapped(a, b).panes() + second.swapped(a, b).panes());
            },
        }
        assert forall|i: int| 0 <= i < self.panes().len() implies #[trigger] after.panes()[i]
            == exchanged(a, b, self.panes()[i]) by {}
        if self.panes().contains(a) && self.panes().contains(b) {
            let at_a = choose|i: int| 0 <= i < self.panes().len() && self.panes()[i] == a;
            let at_b = choose|i: int| 0 <= i < self.panes().len() && self.panes()[i] == b;
            assert forall|pane: Pane| #[trigger]
                after.panes().contains(pane) <==> self.panes().contains(pane) by {
                if after.panes().contains(pane) {
                    let i = choose|i: int| 0 <= i < after.panes().len() && after.panes()[i] == pane;
                    assert(after.panes()[i] == exchanged(a, b, self.panes()[i]));
                }
                if self.panes().contains(pane) {
                    let i = choose|i: int| 0 <= i < self.panes().len() && self.panes()[i] == pane;
                    assert(after.panes()[i] == exchanged(a, b, self.panes()[i]));
                    assert(after.panes()[at_a] == b);
                    assert(after.panes()[at_b] == a);
                }
            }
        }
        if self.well_formed() {
            assert forall|i: int, j: int| 0 <= i < j < after.panes().len() implies after.panes()[i]
                != after.panes()[j] by {
                assert(after.panes()[i] == exchanged(a, b, self.panes()[i]));
                assert(after.panes()[j] == exchanged(a, b, self.panes()[j]));
            }
        }
    }
}

} // verus!
