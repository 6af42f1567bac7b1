use crate::axis::{Axis, Ratio};
use crate::node::Node;
use crate::pane::Pane;
use crate::split::Split;
use std::collections::HashMap;
use vstd::prelude::*;

verus! {

/// What a [`State`] stands for.
pub struct StateView<T> {
    /// The tree of splits and panes.
    pub layout: Node,
    /// What the application keeps for each pane.
    pub panes: Map<Pane, T>,
    /// The last number handed out to a pane or a split.
    pub last_id: usize,
    /// The pane that was touched last, if it is still there.
    pub active: Option<Pane>,
}

/// The layout of a grid together with what the application keeps for each
/// of its panes.
pub struct State<T> {
    panes: HashMap<usize, T>,
    layout: Node,
    last_id: usize,
    active: Option<Pane>,
}

impl<T> View for State<T> {
    type V = StateView<T>;

    closed spec fn view(&self) -> StateView<T> {
        StateView {
            layout: self.layout,
            panes: Map::new(
                |pane: Pane| self.panes@.contains_key(pane.0),
                |pane: Pane| self.panes@[pane.0],
            ),
            last_id: self.last_id,
            active: self.active,
        }
    }
}

impl<T> State<T> {
    /// The tree is well formed, the panes that have a state are the panes of
    /// the tree, no number above the last one handed out is in use, and the
    /// active pane is a pane of the tree.
    pub open spec fn wf(&self) -> bool {
        &&& self@.layout.well_formed()
        &&& forall|pane: Pane| #[trigger]
            self@.panes.contains_key(pane) <==> self@.layout.panes().contains(pane)
        &&& forall|pane: Pane| #[trigger]
            self@.layout.panes().contains(pane) ==> pane.0 <= self@.last_id
        &&& forall|split: Split| #[trigger]
            self@.layout.splits().contains(split) ==> split.0 <= self@.last_id
        &&& self@.active matches Some(pane) ==> self@.layout.panes().contains(pane)
    }

    /// Creates a state with one pane, which keeps `first_pane_state`.
    pub fn new(first_pane_state: T) -> (created: (State<T>, Pane))
        ensures
            created.0.wf(),
            created.1 == Pane(0),
            created.0@ == (StateView {
                layout: Node::Pane(Pane(0)),
                panes: Map::<Pane, T>::empty().insert(Pane(0), first_pane_state),
                last_id: 0,
                active: None,
            }),
    {
        broadcast use vstd::std_specs::hash::group_hash_axioms;

        let mut panes: HashMap<usize, T> = HashMap::new();
        panes.insert(0, first_pane_state);
        let state = State { panes, layout: Node::Pane(Pane(0)), last_id: 0, active: None };
        proof {
            assert(state@.panes =~= Map::<Pane, T>::empty().insert(Pane(0), first_pane_state));
            assert forall|pane: Pane| #[trigger]
                state@.panes.contains_key(pane) <==> state@.layout.panes().contains(pane) by {
                crate::structure::lemma_contains_single(Pane(0), pane);
            }
            crate::structure::lemma_contains_single(Pane(0), Pane(0));
            assert forall|pane: Pane| #[trigger]
                state@.layout.panes().contains(pane) implies pane.0 <= state@.last_id by {
                crate::structure::lemma_contains_single(Pane(0), pane);
            }
        }
        (state, Pane(0))
    }

    /// The tree of splits and panes.
    pub fn layout(&self) -> (layout: &Node)
        ensures
            *layout == self@.layout,
    {
        &self.layout
    }

    /// The pane that was touched last: the pane that the last split created,
    /// the pane that was dropped last, or the pane beside the last closed one.
    pub fn active(&self) -> (active: Option<Pane>)
        ensures
            active == self@.active,
    {
        self.active
    }

    /// What the application keeps for `pane`, if the grid has that pane.
    pub fn get(&self, pane: Pane) -> (kept: Option<&T>)
        ensures
            kept is Some <==> self@.panes.contains_key(pane),
            kept matches Some(state) ==> *state == self@.panes[pane],
    {
        broadcast use vstd::std_specs::hash::group_hash_axioms;

        self.panes.get(&pane.0)
    }

    /// The number of panes.
    pub fn len(&self) -> (count: usize)
        requires
            self.wf(),
        ensures
            count == self@.layout.panes().len(),
    {
        broadcast use vstd::std_specs::hash::group_hash_axioms;

        proof {
            let panes = self.layout.panes();
            let numbers = Seq::new(panes.len(), |i: int| panes[i].0);
            assert forall|i: int, j: int| 0 <= i < j < numbers.len() implies numbers[i]
                != numbers[j] by {
                assert(panes[i] != panes[j]);
            }
            assert forall|number: usize| #[trigger]
                numbers.to_set().contains(number) <==> self.panes@.dom().contains(number) by {
                if numbers.contains(number) {
                    let i = choose|i: int| 0 <= i < numbers.len() && numbers[i] == number;
                    assert(panes.contains(panes[i]));
                    assert(self@.panes.contains_key(panes[i]));
                }
                if self.panes@.dom().contains(number) {
                    assert(self@.panes.contains_key(Pane(number)));
                    let i = choose|i: int| 0 <= i < panes.len() && panes[i] == Pane(number);
                    assert(numbers[i] == number);
                }
            }
            assert(numbers.to_set() =~= self.panes@.dom());
            numbers.unique_seq_to_set();
        }
        self.panes.len()
    }

    /// Splits the pane `at` along `axis`: a new pane, which keeps `state`,
    /// takes the first half of its region, and becomes the active pane.
    ///
    /// Returns the new pane, or `None`, and changes nothing, where the grid
    /// has no pane `at` or has run out of numbers.
    pub fn split(&mut self, at: Pane, axis: Axis, state: T) -> (created: Option<Pane>)
        requires
            old(self).wf(),
        ensures
            final(self).wf(),
            created is Some <==> old(self)@.layout.panes().contains(at) && old(self)@.last_id + 2
                <= usize::MAX,
            created matches Some(new_pane) ==> new_pane == Pane((old(self)@.last_id + 1) as usize)
                && final(self)@ == (StateView {
                layout: old(self)@.layout.with_split(
                    at,
                    Split((old(self)@.last_id + 2) as usize),
                    axis,
                    new_pane,
                ),
                panes: old(self)@.panes.insert(new_pane, state),
                last_id: (old(self)@.last_id + 2) as usize,
                active: Some(new_pane),
            }),
            created is None ==> final(self)@ == old(self)@,
    {
        broadcast use vstd::std_specs::hash::group_hash_axioms;

        if !self.layout.contains(at) || self.last_id > usize::MAX - 2 {
            return None;
        }
        let new_pane = Pane(self.last_id + 1);
        let new_split = Split(self.last_id + 2);
        proof {
            self.layout.lemma_with_split(at, new_split, axis, new_pane);
        }
        self.layout.split(at, new_split, axis, new_pane);
        self.panes.insert(new_pane.0, state);
        self.last_id = self.last_id + 2;
        self.active = Some(new_pane);
        proof {
            assert(self@.panes =~= old(self)@.panes.insert(new_pane, state));
        }
        Some(new_pane)
    }

    /// Closes `pane`: the subtree beside it takes the place of the split
    /// above it, and the first pane of that subtree becomes the active pane.
    ///
    /// Returns what the pane kept and that first pane, or `None`, and changes
    /// nothing, where the grid has no pane `pane` or no other pane.
    pub fn close(&mut self, pane: Pane) -> (closed: Option<(T, Pane)>)
        requires
            old(self).wf(),
        ensures
            final(self).wf(),
            closed is Some <==> old(self)@.layout is Split && old(self)@.layout.panes().contains(
                pane,
            ),
            closed matches Some((state, sibling)) ==> state == old(self)@.panes[pane] && Some(sibling)
                == old(self)@.layout.sibling_of(pane) && final(self)@ == (StateView {
                layout: old(self)@.layout.without(pane),
                panes: old(self)@.panes.remove(pane),
                last_id: old(self)@.last_id,
                active: Some(sibling),
            }),
            closed is None ==> final(self)@ == old(self)@,
    {
        broadcast use vstd::std_specs::hash::group_hash_axioms;

        proof {
            self.layout.lemma_sibling_of(pane);
            self.layout.lemma_without_absent(pane);
            if self.layout.sibling_of(pane) is Some {
                self.layout.lemma_without(pane);
            }
        }
        match self.layout.remove(pane) {
            None => None,
            Some(sibling) => {
                assert(old(self)@.panes.contains_key(pane));
                match self.panes.remove(&pane.0) {
                    None => None,
                    Some(state) => {
                        self.active = Some(sibling);
                        proof {
                            assert(self@.panes =~= old(self)@.panes.remove(pane));
                        }
                        Some((state, sibling))
                    },
                }
            },
        }
    }

    /// Exchanges the places of the panes `a` and `b` in the tree. Each keeps
    /// what the application keeps for it.
    ///
    /// Returns `false`, and changes nothing, where the grid lacks one of them.
    pub fn swap(&mut self, a: Pane, b: Pane) -> (done: bool)
        requires
            old(self).wf(),
        ensures
            final(self).wf(),
            done <==> old(self)@.layout.panes().contains(a) && old(self)@.layout.panes().contains(b),
            done ==> final(self)@ == (StateView {
                layout: old(self)@.layout.swapped(a, b),
                ..old(self)@
            }),
            !done ==> final(self)@ == old(self)@,
    {
        if !self.layout.contains(a) || !self.layout.contains(b) {
            return false;
        }
        proof {
            self.layout.lemma_swapped(a, b);
        }
        self.layout.swap(a, b);
        true
    }

    /// Sets the ratio of `split`, clamped between one tenth and nine tenths.
    /// Changes nothing where the grid has no such split.
    pub fn resize(&mut self, split: Split, ratio: Ratio)
        requires
            old(self).wf(),
        ensures
            final(self).wf(),
            final(self)@ == (StateView {
                layout: old(self)@.layout.with_ratio(split, ratio),
                ..old(self)@
            }),
    {
        proof {
            self.layout.lemma_with_ratio(split, ratio);
        }
        let _ = self.layout.resize(split, ratio);
    }

    /// Moves the pane `dragged` beside the pane `target`: `dragged` leaves its
    /// place as if it were closed, and `target` is split along the default
    /// axis with `dragged` in the first half, which makes `dragged` the
    /// active pane. Both keep what the application keeps for them.
    ///
    /// Returns `false`, and changes nothing, where the two are the same pane,
    /// the grid lacks one of them, or it has run out of numbers.
    pub fn drag_and_drop_commit(&mut self, dragged: Pane, target: Pane) -> (done: bool)
        requires
            old(self).wf(),
        ensures
            final(self).wf(),
            done <==> dragged != target && old(self)@.layout.panes().contains(dragged) && old(
                self,
            )@.layout.panes().contains(target) && old(self)@.last_id + 1 <= usize::MAX,
            done ==> final(self)@ == (StateView {
                layout: old(self)@.layout.without(dragged).with_split(
                    target,
                    Split((old(self)@.last_id + 1) as usize),
                    Axis::default_spec(),
                    dragged,
                ),
                last_id: (old(self)@.last_id + 1) as usize,
                active: Some(dragged),
                ..old(self)@
            }),
            !done ==> final(self)@ == old(self)@,
    {
        if dragged == target || !self.layout.contains(dragged) || !self.layout.contains(target)
            || self.last_id > usize::MAX - 1 {
            return false;
        }
        let new_split = Split(self.last_id + 1);
        proof {
            let before = self.layout;
            before.lemma_sibling_of(dragged);
            if let Node::Pane(only) = before {
                crate::structure::lemma_contains_single(only, dragged);
                crate::structure::lemma_contains_single(only, target);
            }
            before.lemma_without(dragged);
            before.without(dragged).lemma_with_split(target, new_split, Axis::default_spec(), dragged);
        }
        let _ = self.layout.remove(dragged);
        let _ = self.layout.split(target, new_split, Axis::default(), dragged);
        self.last_id = self.last_id + 1;
        self.active = Some(dragged);
        true
    }
}

} // verus!
