//! Tab and pane tree management.
//!
//! Each tab contains a binary tree of panes ([`PaneNode`]). Splitting a pane
//! creates a `Split` node with the existing pane and a new sibling. Closing
//! a pane promotes its sibling to replace the parent split.

use vstd::prelude::*;

use crate::pane::{Pane, PaneId};

verus! {

/// Direction of a pane split.
#[derive(Debug, Clone, Copy, PartialEq, Eq, Structural)]
pub enum SplitDirection {
    /// Side-by-side (left | right).
    Vertical,
    /// Top and bottom.
    Horizontal,
}

/// Position of a divider as a fraction of the split node's extent, kept as
/// the bit pattern of an IEEE-754 single-precision number in `0.0..1.0`.
///
/// The tree only stores and moves ratios; the geometry that reads them
/// lives with the renderer.
#[derive(Debug, Clone, Copy, PartialEq, Eq, Structural)]
pub struct DividerRatio(pub u32);

impl DividerRatio {
    /// The ratio of a fresh split: one half.
    pub fn half() -> (r: Self)
        ensures
            r.0 == 0x3F00_0000u32,
    {
        DividerRatio(0x3F00_0000u32)
    }
}

/// Binary tree node representing the pane layout.
pub enum PaneNode<S> {
    /// A leaf node containing a single pane.
    Leaf(Box<Pane<S>>),
    /// A split node dividing space between two children.
    Split {
        direction: SplitDirection,
        /// Position of the divider.
        ratio: DividerRatio,
        first: Box<PaneNode<S>>,
        second: Box<PaneNode<S>>,
    },
}

/// Result of attempting to remove a pane from the tree.
#[derive(Debug, Clone, Copy, PartialEq, Eq, Structural)]
pub enum RemoveResult {
    /// The pane was found and is this leaf; parent should promote sibling.
    RemoveSelf,
    /// The pane was removed and the tree was restructured.
    Removed,
    /// The target pane was not found in this subtree.
    NotFound,
}

/// Position of the first occurrence of `id` in `s` (`s.len()` when absent).
pub open spec fn first_pos(s: Seq<PaneId>, id: PaneId) -> int
    decreases s.len(),
{
    if s.len() == 0 {
        0
    } else if s[0] == id {
        0
    } else {
        1 + first_pos(s.drop_first(), id)
    }
}

/// `first_pos` finds the first occurrence of a present id.
pub proof fn lemma_first_pos(s: Seq<PaneId>, id: PaneId)
    ensures
        0 <= first_pos(s, id) <= s.len(),
        s.contains(id) ==> first_pos(s, id) < s.len() && s[first_pos(s, id)] == id,
        forall|j: int| 0 <= j < first_pos(s, id) ==> s[j] != id,
        !s.contains(id) ==> first_pos(s, id) == s.len(),
    decreases s.len(),
{
    if s.len() > 0 {
        lemma_first_pos(s.drop_first(), id);
        if s[0] != id {
            if s.contains(id) {
                let w = choose|w: int| 0 <= w < s.len() && s[w] == id;
                assert(s.drop_first()[w - 1] == id);
            }
            assert forall|j: int| 0 <= j < first_pos(s, id) implies s[j] != id by {
                if j > 0 {
                    assert(s[j] == s.drop_first()[j - 1]);
                }
            }
            if !s.contains(id) {
                assert forall|j: int| 0 <= j < s.drop_first().len() implies s.drop_first()[j] != id by {
                    assert(s[j + 1] == s.drop_first()[j]);
                }
            }
        }
    }
}

/// Where the first occurrence lies in a concatenation.
pub proof fn lemma_first_pos_concat(a: Seq<PaneId>, b: Seq<PaneId>, id: PaneId)
    ensures
        first_pos(a + b, id) == if a.contains(id) {
            first_pos(a, id)
        } else {
            a.len() + first_pos(b, id)
        },
    decreases a.len(),
{
    if a.len() == 0 {
        assert(a + b =~= b);
    } else {
        assert((a + b).drop_first() =~= a.drop_first() + b);
        lemma_first_pos_concat(a.drop_first(), b, id);
        if a[0] != id {
            if a.contains(id) {
                let w = choose|w: int| 0 <= w < a.len() && a[w] == id;
                assert(a.drop_first()[w - 1] == id);
            } else {
                assert forall|j: int| 0 <= j < a.drop_first().len() implies a.drop_first()[j] != id by {
                    assert(a[j + 1] == a.drop_first()[j]);
                }
            }
        }
    }
}

/// Membership in a concatenation.
pub proof fn lemma_contains_concat(a: Seq<PaneId>, b: Seq<PaneId>, id: PaneId)
    ensures
        (a + b).contains(id) <==> a.contains(id) || b.contains(id),
{
    if a.contains(id) {
        let w = choose|w: int| 0 <= w < a.len() && a[w] == id;
        assert((a + b)[w] == id);
    }
    if b.contains(id) {
        let w = choose|w: int| 0 <= w < b.len() && b[w] == id;
        assert((a + b)[a.len() + w] == id);
    }
    if (a + b).contains(id) {
        let w = choose|w: int| 0 <= w < (a + b).len() && (a + b)[w] == id;
        if w < a.len() {
            assert(a[w] == id);
        } else {
            assert(b[w - a.len()] == id);
        }
    }
}

impl<S> PaneNode<S> {
    /// The panes of the tree, in depth-first order.
    pub open spec fn panes(self) -> Seq<Pane<S>>
        decreases self,
    {
        match self {
            PaneNode::Leaf(p) => seq![*p],
            PaneNode::Split { first, second, .. } => first.panes() + second.panes(),
        }
    }

    /// The number of nodes of the tree.
    pub open spec fn size(self) -> nat
        decreases self,
    {
        match self {
            PaneNode::Leaf(_) => 1,
            PaneNode::Split { first, second, .. } => 1 + first.size() + second.size(),
        }
    }

    /// The pane ids of the tree, in depth-first order.
    pub open spec fn ids(self) -> Seq<PaneId> {
        self.panes().map_values(|p: Pane<S>| p.id)
    }

    /// The tree after splitting the first leaf whose id is `target`: that
    /// leaf becomes a split in `direction`, at one half, with the old pane
    /// first and `new_pane` second.
    pub open spec fn split_at(self, target: PaneId, direction: SplitDirection, new_pane: Pane<S>) -> PaneNode<S>
        decreases self,
    {
        match self {
            PaneNode::Leaf(p) => if p.id == target {
                PaneNode::Split {
                    direction,
                    ratio: DividerRatio(0x3F00_0000u32),
                    first: Box::new(PaneNode::Leaf(p)),
                    second: Box::new(PaneNode::Leaf(Box::new(new_pane))),
                }
            } else {
                self
            },
            PaneNode::Split { direction: d, ratio, first, second } => if first.ids().contains(target) {
                PaneNode::Split { direction: d, ratio, first: Box::new(first.split_at(target, direction, new_pane)), second }
            } else {
                PaneNode::Split { direction: d, ratio, first, second: Box::new(second.split_at(target, direction, new_pane)) }
            },
        }
    }

    /// The tree after removing the first leaf whose id is `target` from a
    /// split: the leaf's parent split is replaced by the leaf's sibling.
    /// A lone leaf, or a tree without `target`, is left as it is.
    pub open spec fn removed(self, target: PaneId) -> PaneNode<S>
        decreases self,
    {
        match self {
            PaneNode::Leaf(_) => self,
            PaneNode::Split { direction, ratio, first, second } => if first.ids().contains(target) {
                match *first {
                    PaneNode::Leaf(_) => *second,
                    PaneNode::Split { .. } => PaneNode::Split { direction, ratio, first: Box::new(first.removed(target)), second },
                }
            } else if second.ids().contains(target) {
                match *second {
                    PaneNode::Leaf(_) => *first,
                    PaneNode::Split { .. } => PaneNode::Split { direction, ratio, first, second: Box::new(second.removed(target)) },
                }
            } else {
                self
            },
        }
    }

    /// The tree with the first leaf whose id is `target` holding `p`
    /// instead; the tree itself when no leaf has that id.
    pub open spec fn with_pane(self, target: PaneId, p: Pane<S>) -> PaneNode<S>
        decreases self,
    {
        match self {
            PaneNode::Leaf(q) => if q.id == target {
                PaneNode::Leaf(Box::new(p))
            } else {
                self
            },
            PaneNode::Split { direction, ratio, first, second } => if first.ids().contains(target) {
                PaneNode::Split { direction, ratio, first: Box::new(first.with_pane(target, p)), second }
            } else {
                PaneNode::Split { direction, ratio, first, second: Box::new(second.with_pane(target, p)) }
            },
        }
    }

    /// The node reached from this one by `route`: each step goes to the
    /// first child (`true`) or the second (`false`); `None` when the route
    /// runs into a leaf before its end.
    pub open spec fn node_on_route(self, route: Seq<bool>) -> Option<PaneNode<S>>
        decreases route.len(),
    {
        if route.len() == 0 {
            Some(self)
        } else {
            match self {
                PaneNode::Leaf(_) => None,
                PaneNode::Split { first, second, .. } => if route[0] {
                    first.node_on_route(route.drop_first())
                } else {
                    second.node_on_route(route.drop_first())
                },
            }
        }
    }

    /// The tree with the ratio of the split reached by `route` set to `r`;
    /// the tree itself when the route reaches no split.
    pub open spec fn with_ratio_on_route(self, route: Seq<bool>, r: DividerRatio) -> PaneNode<S>
        decreases route.len(),
    {
        match self {
            PaneNode::Leaf(_) => self,
            PaneNode::Split { direction, ratio, first, second } => if route.len() == 0 {
                PaneNode::Split { direction, ratio: r, first, second }
            } else if route[0] {
                PaneNode::Split { direction, ratio, first: Box::new(first.with_ratio_on_route(route.drop_first(), r)), second }
            } else {
                PaneNode::Split { direction, ratio, first, second: Box::new(second.with_ratio_on_route(route.drop_first(), r)) }
            },
        }
    }

    /// The tree after setting the ratio of the split whose number is `path`
    /// (see [`divider_route`]).
    pub open spec fn with_ratio_at_path(self, path: nat, r: DividerRatio) -> PaneNode<S> {
        self.with_ratio_on_route(divider_route(path), r)
    }

    /// The numbers of the splits of this tree, parents before children and
    /// first children before second ones, when this node has number `path`:
    /// the children of number `p` have numbers `2p + 1` and `2p + 2`.
    pub open spec fn divider_numbers_from(self, path: nat) -> Seq<nat>
        decreases self,
    {
        match self {
            PaneNode::Leaf(_) => seq![],
            PaneNode::Split { first, second, .. } => seq![path] + first.divider_numbers_from(2 * path + 1)
                + second.divider_numbers_from(2 * path + 2),
        }
    }

    /// The numbers of the splits of the tree, whose root has number zero.
    pub open spec fn divider_numbers(self) -> Seq<nat> {
        self.divider_numbers_from(0)
    }

    /// The number of splits on the longest way from this node to a leaf.
    pub open spec fn depth(self) -> nat
        decreases self,
    {
        match self {
            PaneNode::Leaf(_) => 0,
            PaneNode::Split { first, second, .. } => 1 + if first.depth() >= second.depth() {
                first.depth()
            } else {
                second.depth()
            },
        }
    }

    /// A tree always holds at least one pane.
    pub proof fn lemma_panes_nonempty(self)
        ensures
            self.panes().len() >= 1,
        decreases self,
    {
        match self {
            PaneNode::Leaf(_) => {},
            PaneNode::Split { first, second, .. } => {
                first.lemma_panes_nonempty();
                second.lemma_panes_nonempty();
            },
        }
    }

    /// The ids of a split are those of its first child, then its second.
    pub proof fn lemma_ids_split(self)
        ensures
            self matches PaneNode::Split { first, second, .. } ==> self.ids() =~= first.ids() + second.ids(),
            self matches PaneNode::Leaf(p) ==> self.ids() =~= seq![p.id],
    {
        match self {
            PaneNode::Leaf(_) => {},
            PaneNode::Split { first, second, .. } => {
                assert(self.ids() =~= first.ids() + second.ids());
            },
        }
    }
}


impl<S> PaneNode<S> {
    /// Collects all pane IDs in depth-first order.
    pub fn pane_ids(&self) -> (ids: Vec<PaneId>)
        ensures
            ids@ == self.ids(),
    {
        let mut ids: Vec<PaneId> = Vec::new();
        self.collect_pane_ids(&mut ids);
        assert(ids@ =~= self.ids());
        ids
    }

    fn collect_pane_ids(&self, ids: &mut Vec<PaneId>)
        ensures
            final(ids)@ == old(ids)@ + self.ids(),
        decreases self,
    {
        proof {
            self.lemma_ids_split();
        }
        match self {
            PaneNode::Leaf(pane) => {
                ids.push(pane.id);
            },
            PaneNode::Split { first, second, .. } => {
                first.collect_pane_ids(ids);
                second.collect_pane_ids(ids);
                assert(final(ids)@ =~= old(ids)@ + self.ids());
            },
        }
    }

    /// Returns `true` if the tree contains a leaf with the given ID.
    pub fn contains(&self, target_id: PaneId) -> (found: bool)
        ensures
            found == self.ids().contains(target_id),
        decreases self,
    {
        proof {
            self.lemma_ids_split();
        }
        match self {
            PaneNode::Leaf(pane) => {
                proof {
                    assert(self.ids()[0] == pane.id);
                }
                pane.id == target_id
            },
            PaneNode::Split { first, second, .. } => {
                proof {
                    lemma_contains_concat(first.ids(), second.ids(), target_id);
                }
                first.contains(target_id) || second.contains(target_id)
            },
        }
    }

    /// Finds an immutable reference to the pane with the given ID.
    pub fn find_pane(&self, id: PaneId) -> (found: Option<&Pane<S>>)
        ensures
            found is Some <==> self.ids().contains(id),
            found matches Some(p) ==> *p == self.panes()[first_pos(self.ids(), id)],
        decreases self,
    {
        proof {
            self.lemma_ids_split();
            lemma_first_pos(self.ids(), id);
        }
        match self {
            PaneNode::Leaf(pane) => {
                proof {
                    assert(self.ids()[0] == pane.id);
                }
                if pane.id == id {
                    Some(&**pane)
                } else {
                    None
                }
            },
            PaneNode::Split { first, second, .. } => {
                proof {
                    lemma_contains_concat(first.ids(), second.ids(), id);
                    lemma_first_pos_concat(first.ids(), second.ids(), id);
                    lemma_first_pos(first.ids(), id);
                    lemma_first_pos(second.ids(), id);
                }
                match first.find_pane(id) {
                    Some(p) => Some(p),
                    None => {
                        let r = second.find_pane(id);
                        proof {
                            if r is Some {
                                assert(self.panes()[first.panes().len() + first_pos(second.ids(), id)]
                                    == second.panes()[first_pos(second.ids(), id)]);
                            }
                        }
                        r
                    },
                }
            },
        }
    }

    /// Sets the divider ratio of the split whose number is `path` (see
    /// [`divider_route`]); nothing changes when no split has that number.
    pub fn set_divider_ratio_at_path(&mut self, path: u64, new_ratio: DividerRatio)
        ensures
            *final(self) == old(self).with_ratio_at_path(path as nat, new_ratio),
    {
        let mut steps: Vec<bool> = Vec::new();
        let mut p: u64 = path;
        while p > 0
            invariant
                divider_route(path as nat) == divider_route(p as nat) + steps@,
            decreases p,
        {
            let first = p % 2 == 1;
            let parent = (p - 1) / 2;
            proof {
                assert(divider_route(p as nat) == divider_route(parent as nat).push(first));
                assert(divider_route(parent as nat).push(first) + steps@ =~= divider_route(parent as nat)
                    + seq![first].add(steps@));
            }
            steps.insert(0, first);
            p = parent;
        }
        assert(steps@.skip(0) =~= steps@);
        assert(divider_route(path as nat) =~= steps@);
        self.set_ratio_on_route(&steps, 0, new_ratio);
    }

    /// Sets the ratio of the split reached by the steps of `route` from
    /// `i` on.
    fn set_ratio_on_route(&mut self, route: &Vec<bool>, i: usize, new_ratio: DividerRatio)
        requires
            i <= route.len(),
        ensures
            *final(self) == old(self).with_ratio_on_route(route@.skip(i as int), new_ratio),
        decreases route.len() - i,
    {
        proof {
            if i < route.len() {
                assert(route@.skip(i as int).drop_first() =~= route@.skip(i + 1));
            }
        }
        match self {
            PaneNode::Leaf(_) => {},
            PaneNode::Split { ratio, first, second, .. } => {
                if i == route.len() {
                    *ratio = new_ratio;
                } else if route[i] {
                    first.set_ratio_on_route(route, i + 1, new_ratio);
                } else {
                    second.set_ratio_on_route(route, i + 1, new_ratio);
                }
            },
        }
    }

    /// Whether every way from this node to a leaf passes fewer than `limit`
    /// splits.
    pub fn is_shallower_than(&self, limit: u64) -> (b: bool)
        ensures
            b == (self.depth() < limit),
        decreases self,
    {
        if limit == 0 {
            return false;
        }
        match self {
            PaneNode::Leaf(_) => true,
            PaneNode::Split { first, second, .. } => first.is_shallower_than(limit - 1)
                && second.is_shallower_than(limit - 1),
        }
    }

    /// The numbers of the splits of the tree (see
    /// [`PaneNode::divider_numbers`]), for a tree shallow enough that they fit
    /// in 64 bits.
    pub fn divider_paths(&self) -> (paths: Vec<u64>)
        requires
            self.depth() < 64,
        ensures
            paths@.map_values(|d: u64| d as nat) == self.divider_numbers(),
    {
        let mut paths: Vec<u64> = Vec::new();
        proof {
            reveal_with_fuel(cap, 2);
        }
        self.collect_divider_paths(0, 0, &mut paths);
        assert(paths@.map_values(|d: u64| d as nat) =~= Seq::<nat>::empty() + self.divider_numbers_from(0));
        paths
    }

    /// Appends the numbers of the splits of this node, numbered `path`, at
    /// `level` splits below the root.
    fn collect_divider_paths(&self, path: u64, level: u64, paths: &mut Vec<u64>)
        requires
            path + 2 <= cap(level as nat + 1),
            level + 1 + self.depth() <= 64,
        ensures
            final(paths)@.map_values(|d: u64| d as nat) == old(paths)@.map_values(|d: u64| d as nat)
                + self.divider_numbers_from(path as nat),
        decreases self,
    {
        match self {
            PaneNode::Leaf(_) => {
                assert(final(paths)@.map_values(|d: u64| d as nat) =~= old(paths)@.map_values(|d: u64| d as nat)
                    + self.divider_numbers_from(path as nat));
            },
            PaneNode::Split { first, second, .. } => {
                proof {
                    lemma_cap_grows(level as nat + 2, 64);
                    assert(cap(level as nat + 2) == 2 * cap(level as nat + 1));
                    lemma_cap_64();
                }
                let ghost before = paths@;
                paths.push(path);
                let ghost pushed = paths@;
                first.collect_divider_paths(2 * path + 1, level + 1, paths);
                let ghost middle = paths@;
                second.collect_divider_paths(2 * path + 2, level + 1, paths);
                proof {
                    assert(pushed.map_values(|d: u64| d as nat) =~= before.map_values(|d: u64| d as nat)
                        + seq![path as nat]);
                    assert(paths@.map_values(|d: u64| d as nat) =~= before.map_values(|d: u64| d as nat)
                        + self.divider_numbers_from(path as nat));
                }
            },
        }
    }
}

/// The way from the root to the split numbered `path`, the root being
/// number zero and the children of `p` being `2p + 1` (first) and `2p + 2`
/// (second): `true` for each step into a first child.
pub open spec fn divider_route(path: nat) -> Seq<bool>
    decreases path,
{
    if path == 0 {
        seq![]
    } else {
        divider_route(((path - 1) / 2) as nat).push(path % 2 == 1)
    }
}

/// Two to the power `k`.
pub open spec fn cap(k: nat) -> nat
    decreases k,
{
    if k == 0 {
        1
    } else {
        2 * cap((k - 1) as nat)
    }
}

/// Two to the power 64 is one more than the largest 64-bit number.
pub proof fn lemma_cap_64()
    ensures
        cap(64) == 0x1_0000_0000_0000_0000,
{
    reveal_with_fuel(cap, 65);
}

/// Powers of two grow with the exponent.
pub proof fn lemma_cap_grows(a: nat, b: nat)
    requires
        a <= b,
    ensures
        cap(a) <= cap(b),
    decreases b,
{
    if a < b {
        lemma_cap_grows(a, (b - 1) as nat);
    }
}

impl<S> PaneNode<S> {
    /// Splitting inserts the new pane right after the first pane with the
    /// target id, and leaves a tree without that id unchanged.
    pub proof fn lemma_split_at_panes(self, target: PaneId, direction: SplitDirection, new_pane: Pane<S>)
        ensures
            self.ids().contains(target) ==> self.split_at(target, direction, new_pane).panes()
                == self.panes().insert(first_pos(self.ids(), target) + 1, new_pane),
            !self.ids().contains(target) ==> self.split_at(target, direction, new_pane) == self,
        decreases self,
    {
        self.lemma_ids_split();
        lemma_first_pos(self.ids(), target);
        match self {
            PaneNode::Leaf(p) => {
                if p.id == target {
                    assert(self.ids()[0] == target);
                    let t = self.split_at(target, direction, new_pane);
                    assert(t.panes() =~= seq![*p] + seq![new_pane]) by {
                        reveal_with_fuel(PaneNode::panes, 2);
                    }
                    assert(t.panes() =~= self.panes().insert(1, new_pane));
                } else {
                    assert forall|j: int| 0 <= j < self.ids().len() implies self.ids()[j] != target by {
                        assert(self.ids()[0] == p.id);
                    }
                }
            },
            PaneNode::Split { direction: d, ratio, first, second } => {
                first.lemma_split_at_panes(target, direction, new_pane);
                second.lemma_split_at_panes(target, direction, new_pane);
                first.lemma_ids_split();
                lemma_contains_concat(first.ids(), second.ids(), target);
                lemma_first_pos_concat(first.ids(), second.ids(), target);
                lemma_first_pos(first.ids(), target);
                lemma_first_pos(second.ids(), target);
                let k = first_pos(self.ids(), target);
                if first.ids().contains(target) {
                    assert(first.ids().len() == first.panes().len());
                    assert(self.split_at(target, direction, new_pane).panes() =~= self.panes().insert(k + 1, new_pane));
                } else if second.ids().contains(target) {
                    assert(first.ids().len() == first.panes().len());
                    assert(self.split_at(target, direction, new_pane).panes() =~= self.panes().insert(k + 1, new_pane));
                }
            },
        }
    }

    /// Removing takes out the first pane with the target id, and leaves a
    /// lone leaf or a tree without that id unchanged.
    pub proof fn lemma_removed_panes(self, target: PaneId)
        ensures
            (self is Split && self.ids().contains(target)) ==> self.removed(target).panes()
                == self.panes().remove(first_pos(self.ids(), target)),
            (self is Leaf || !self.ids().contains(target)) ==> self.removed(target) == self,
        decreases self,
    {
        self.lemma_ids_split();
        lemma_first_pos(self.ids(), target);
        match self {
            PaneNode::Leaf(_) => {},
            PaneNode::Split { direction, ratio, first, second } => {
                first.lemma_removed_panes(target);
                second.lemma_removed_panes(target);
                first.lemma_ids_split();
                second.lemma_ids_split();
                lemma_contains_concat(first.ids(), second.ids(), target);
                lemma_first_pos_concat(first.ids(), second.ids(), target);
                lemma_first_pos(first.ids(), target);
                lemma_first_pos(second.ids(), target);
                assert(first.ids().len() == first.panes().len());
                let k = first_pos(self.ids(), target);
                if first.ids().contains(target) {
                    match *first {
                        PaneNode::Leaf(_) => {
                            assert(self.removed(target).panes() =~= self.panes().remove(k));
                        },
                        PaneNode::Split { .. } => {
                            assert(self.removed(target).panes() =~= self.panes().remove(k));
                        },
                    }
                } else if second.ids().contains(target) {
                    match *second {
                        PaneNode::Leaf(_) => {
                            assert(second.ids()[0] == target);
                            assert(self.removed(target).panes() =~= self.panes().remove(k));
                        },
                        PaneNode::Split { .. } => {
                            assert(self.removed(target).panes() =~= self.panes().remove(k));
                        },
                    }
                }
            },
        }
    }

    fn split_owned(node: PaneNode<S>, target_id: PaneId, direction: SplitDirection, new_pane: Pane<S>) -> (res: (
        PaneNode<S>,
        bool,
    ))
        ensures
            res.0 == node.split_at(target_id, direction, new_pane),
            res.1 == node.ids().contains(target_id),
        decreases node,
    {
        proof {
            node.lemma_ids_split();
        }
        match node {
            PaneNode::Leaf(pane) => {
                proof {
                    assert(node.ids()[0] == pane.id);
                }
                if pane.id == target_id {
                    (
                        PaneNode::Split {
                            direction,
                            ratio: DividerRatio::half(),
                            first: Box::new(PaneNode::Leaf(pane)),
                            second: Box::new(PaneNode::Leaf(Box::new(new_pane))),
                        },
                        true,
                    )
                } else {
                    (PaneNode::Leaf(pane), false)
                }
            },
            PaneNode::Split { direction: d, ratio, first, second } => {
                proof {
                    lemma_contains_concat(first.ids(), second.ids(), target_id);
                }
                if first.contains(target_id) {
                    let (f2, _) = Self::split_owned(*first, target_id, direction, new_pane);
                    (PaneNode::Split { direction: d, ratio, first: Box::new(f2), second }, true)
                } else {
                    let (s2, found) = Self::split_owned(*second, target_id, direction, new_pane);
                    (PaneNode::Split { direction: d, ratio, first, second: Box::new(s2) }, found)
                }
            },
        }
    }

    fn remove_owned(node: PaneNode<S>, target_id: PaneId) -> (res: (PaneNode<S>, RemoveResult))
        ensures
            res.0 == node.removed(target_id),
            res.1 == (if !node.ids().contains(target_id) {
                RemoveResult::NotFound
            } else if node is Leaf {
                RemoveResult::RemoveSelf
            } else {
                RemoveResult::Removed
            }),
        decreases node,
    {
        proof {
            node.lemma_ids_split();
        }
        match node {
            PaneNode::Leaf(pane) => {
                proof {
                    assert(node.ids()[0] == pane.id);
                    assert(node.removed(target_id) == node);
                }
                let r = if pane.id == target_id {
                    RemoveResult::RemoveSelf
                } else {
                    RemoveResult::NotFound
                };
                (PaneNode::Leaf(pane), r)
            },
            PaneNode::Split { direction, ratio, first, second } => {
                proof {
                    lemma_contains_concat(first.ids(), second.ids(), target_id);
                    first.lemma_removed_panes(target_id);
                    second.lemma_removed_panes(target_id);
                }
                let (f2, r1) = Self::remove_owned(*first, target_id);
                match r1 {
                    RemoveResult::RemoveSelf => (*second, RemoveResult::Removed),
                    RemoveResult::Removed => (
                        PaneNode::Split { direction, ratio, first: Box::new(f2), second },
                        RemoveResult::Removed,
                    ),
                    RemoveResult::NotFound => {
                        let (s2, r2) = Self::remove_owned(*second, target_id);
                        match r2 {
                            RemoveResult::RemoveSelf => (f2, RemoveResult::Removed),
                            RemoveResult::Removed => (
                                PaneNode::Split { direction, ratio, first: Box::new(f2), second: Box::new(s2) },
                                RemoveResult::Removed,
                            ),
                            RemoveResult::NotFound => (
                                PaneNode::Split { direction, ratio, first: Box::new(f2), second: Box::new(s2) },
                                RemoveResult::NotFound,
                            ),
                        }
                    },
                }
            },
        }
    }
}

impl<S: Default> PaneNode<S> {
    /// A leaf that holds the tree's place while it is rebuilt.
    fn placeholder() -> (p: PaneNode<S>)
        ensures
            p matches PaneNode::Leaf(b) && b.id == PaneId(0) && b.title@ == Seq::<char>::empty(),
    {
        PaneNode::Leaf(Box::new(Pane { id: PaneId(0), title: String::new(), session: S::default() }))
    }

    /// Splits the leaf node with the given pane ID, inserting a new pane.
    /// Returns `true` if the split was performed.
    pub fn split(&mut self, target_id: PaneId, direction: SplitDirection, new_pane: Pane<S>) -> (done: bool)
        ensures
            done == old(self).ids().contains(target_id),
            *final(self) == old(self).split_at(target_id, direction, new_pane),
            done ==> final(self).panes() == old(self).panes().insert(
                first_pos(old(self).ids(), target_id) + 1,
                new_pane,
            ),
            !done ==> *final(self) == *old(self),
    {
        proof {
            old(self).lemma_split_at_panes(target_id, direction, new_pane);
        }
        let mut node = Self::placeholder();
        std::mem::swap(self, &mut node);
        let (node2, done) = Self::split_owned(node, target_id, direction, new_pane);
        *self = node2;
        done
    }

    /// Removes the pane with the given ID.
    ///
    /// `RemoveSelf` means this node is a leaf holding the target (the tree is
    /// left as it is, for the parent to promote the sibling); `Removed` means
    /// the first leaf with that id was taken out of the tree and its sibling
    /// promoted; `NotFound` means no leaf has that id.
    pub fn remove_pane(&mut self, target_id: PaneId) -> (result: RemoveResult)
        ensures
            result == (if !old(self).ids().contains(target_id) {
                RemoveResult::NotFound
            } else if *old(self) is Leaf {
                RemoveResult::RemoveSelf
            } else {
                RemoveResult::Removed
            }),
            *final(self) == old(self).removed(target_id),
            result is Removed ==> final(self).panes() == old(self).panes().remove(
                first_pos(old(self).ids(), target_id),
            ),
            !(result is Removed) ==> *final(self) == *old(self),
    {
        proof {
            old(self).lemma_removed_panes(target_id);
        }
        let mut node = Self::placeholder();
        std::mem::swap(self, &mut node);
        let (node2, result) = Self::remove_owned(node, target_id);
        *self = node2;
        result
    }
}


impl<S> PaneNode<S> {
    /// Finds a mutable reference to the pane with the given ID.
    pub fn find_pane_mut(&mut self, id: PaneId) -> (found: Option<&mut Pane<S>>)
        ensures
            found is Some <==> old(self).ids().contains(id),
            found matches Some(p) ==> *p == old(self).panes()[first_pos(old(self).ids(), id)],
            found matches Some(p) ==> final(self).panes() == old(self).panes().update(
                first_pos(old(self).ids(), id),
                *final(p),
            ),
            found matches Some(p) ==> *final(self) == old(self).with_pane(id, *final(p)),
            found is None ==> *final(self) == *old(self),
        decreases old(self).size(),
    {
        proof {
            old(self).lemma_ids_split();
            lemma_first_pos(old(self).ids(), id);
        }
        match self {
            PaneNode::Leaf(pane) => {
                proof {
                    assert(old(self).ids()[0] == pane.id);
                }
                if pane.id == id {
                    Some(&mut **pane)
                } else {
                    None
                }
            },
            PaneNode::Split { first, second, .. } => {
                proof {
                    lemma_contains_concat(first.ids(), second.ids(), id);
                    lemma_first_pos_concat(first.ids(), second.ids(), id);
                    lemma_first_pos(first.ids(), id);
                    lemma_first_pos(second.ids(), id);
                    assert(first.ids().len() == first.panes().len());
                }
                if first.contains(id) {
                    first.find_pane_mut(id)
                } else {
                    second.find_pane_mut(id)
                }
            },
        }
    }
}


/// Unique identifier for a tab.
#[derive(Debug, Clone, Copy, PartialEq, Eq, Hash, Structural)]
pub struct TabId(pub u64);

/// A tab containing a tree of panes.
pub struct Tab<S> {
    pub id: TabId,
    pub root: PaneNode<S>,
    pub focused_pane: PaneId,
    pub title: String,
}

/// Index of the first element of `ids` equal to `id`, if any.
pub open spec fn position_of(ids: Seq<PaneId>, id: PaneId) -> Option<int> {
    if ids.contains(id) {
        Some(first_pos(ids, id))
    } else {
        None
    }
}

/// The pane that follows the focused one in depth-first order, wrapping
/// around; the first pane when the focused id is not in the tab; the focused
/// id itself when the tab holds at most one pane.
pub open spec fn next_focus(ids: Seq<PaneId>, focused: PaneId) -> PaneId {
    if ids.len() <= 1 {
        focused
    } else {
        match position_of(ids, focused) {
            Some(i) => ids[(i + 1) % (ids.len() as int)],
            None => ids[0],
        }
    }
}

/// The pane that precedes the focused one in depth-first order, wrapping
/// around; the first pane when the focused id is not in the tab; the focused
/// id itself when the tab holds at most one pane.
pub open spec fn prev_focus(ids: Seq<PaneId>, focused: PaneId) -> PaneId {
    if ids.len() <= 1 {
        focused
    } else {
        match position_of(ids, focused) {
            Some(i) => if i == 0 {
                ids[ids.len() - 1]
            } else {
                ids[i - 1]
            },
            None => ids[0],
        }
    }
}

/// Position of `id` in `ids`, found by a scan from the front.
fn find_position(ids: &Vec<PaneId>, id: PaneId) -> (pos: Option<usize>)
    ensures
        pos matches Some(i) ==> position_of(ids@, id) == Some(i as int),
        pos is None ==> position_of(ids@, id) is None,
{
    proof {
        lemma_first_pos(ids@, id);
    }
    let mut i: usize = 0;
    while i < ids.len()
        invariant
            i <= ids@.len(),
            forall|j: int| 0 <= j < i ==> ids@[j] != id,
        decreases ids@.len() - i,
    {
        if ids[i] == id {
            proof {
                assert(ids@.contains(id));
                lemma_first_pos(ids@, id);
                let fp = first_pos(ids@, id);
                if fp < i {
                    assert(ids@[fp] != id);
                }
            }
            return Some(i);
        }
        i = i + 1;
    }
    None
}

impl<S> Tab<S> {
    /// Creates a new tab with a single pane.
    pub fn new(id: TabId, pane: Pane<S>) -> (tab: Self)
        ensures
            tab.id == id,
            tab.root == PaneNode::Leaf(Box::new(pane)),
            tab.focused_pane == pane.id,
            tab.title == pane.title,
    {
        let focused = pane.id;
        let title = pane.title.clone();
        Tab { id, root: PaneNode::Leaf(Box::new(pane)), focused_pane: focused, title }
    }

    /// Returns a reference to the focused pane.
    pub fn focused_pane(&self) -> (found: Option<&Pane<S>>)
        ensures
            found is Some <==> self.root.ids().contains(self.focused_pane),
            found matches Some(p) ==> *p == self.root.panes()[first_pos(self.root.ids(), self.focused_pane)],
    {
        self.root.find_pane(self.focused_pane)
    }

    /// Returns a mutable reference to the focused pane.
    pub fn focused_pane_mut(&mut self) -> (found: Option<&mut Pane<S>>)
        ensures
            found is Some <==> old(self).root.ids().contains(old(self).focused_pane),
            found matches Some(p) ==> *p == old(self).root.panes()[first_pos(
                old(self).root.ids(),
                old(self).focused_pane,
            )],
            found matches Some(p) ==> final(self).root.panes() == old(self).root.panes().update(
                first_pos(old(self).root.ids(), old(self).focused_pane),
                *final(p),
            ),
            found matches Some(p) ==> final(self).root == old(self).root.with_pane(
                old(self).focused_pane,
                *final(p),
            ),
            found is None ==> final(self).root == old(self).root,
            final(self).id == old(self).id,
            final(self).focused_pane == old(self).focused_pane,
            final(self).title == old(self).title,
    {
        self.root.find_pane_mut(self.focused_pane)
    }

    /// Cycle focus to the next pane in depth-first order.
    pub fn focus_next_pane(&mut self)
        ensures
            final(self).focused_pane == next_focus(old(self).root.ids(), old(self).focused_pane),
            final(self).root == old(self).root,
            final(self).id == old(self).id,
            final(self).title == old(self).title,
    {
        let ids = self.root.pane_ids();
        if ids.len() <= 1 {
            return;
        }
        proof {
            lemma_first_pos(ids@, self.focused_pane);
        }
        let next_idx = match find_position(&ids, self.focused_pane) {
            Some(idx) => (idx + 1) % ids.len(),
            None => 0,
        };
        self.focused_pane = ids[next_idx];
    }

    /// Cycle focus to the previous pane in depth-first order.
    pub fn focus_prev_pane(&mut self)
        ensures
            final(self).focused_pane == prev_focus(old(self).root.ids(), old(self).focused_pane),
            final(self).root == old(self).root,
            final(self).id == old(self).id,
            final(self).title == old(self).title,
    {
        let ids = self.root.pane_ids();
        if ids.len() <= 1 {
            return;
        }
        proof {
            lemma_first_pos(ids@, self.focused_pane);
        }
        let prev_idx = match find_position(&ids, self.focused_pane) {
            Some(idx) => {
                if idx == 0 {
                    ids.len() - 1
                } else {
                    idx - 1
                }
            },
            None => 0,
        };
        self.focused_pane = ids[prev_idx];
    }

    /// Returns all pane IDs in this tab.
    pub fn pane_ids(&self) -> (ids: Vec<PaneId>)
        ensures
            ids@ == self.root.ids(),
    {
        self.root.pane_ids()
    }
}

impl<S: Default> Tab<S> {
    /// Split the focused pane in the given direction, creating a new pane.
    /// Returns `true` if the split succeeded.
    pub fn split_focused(&mut self, direction: SplitDirection, new_pane: Pane<S>) -> (done: bool)
        ensures
            done == old(self).root.ids().contains(old(self).focused_pane),
            final(self).root == old(self).root.split_at(old(self).focused_pane, direction, new_pane),
            done ==> final(self).root.panes() == old(self).root.panes().insert(
                first_pos(old(self).root.ids(), old(self).focused_pane) + 1,
                new_pane,
            ),
            final(self).id == old(self).id,
            final(self).focused_pane == old(self).focused_pane,
            final(self).title == old(self).title,
    {
        self.root.split(self.focused_pane, direction, new_pane)
    }

    /// Close the focused pane. Returns the number of remaining panes
    /// (0 means the tab should be closed: its only pane is the focused one,
    /// and the tree is left as it is).
    ///
    /// When a pane is taken out, focus moves to the first remaining pane.
    pub fn close_focused_pane(&mut self) -> (remaining: usize)
        ensures
            !old(self).root.ids().contains(old(self).focused_pane) ==> {
                &&& remaining == old(self).root.panes().len()
                &&& *final(self) == *old(self)
            },
            old(self).root.ids().contains(old(self).focused_pane) && old(self).root is Leaf ==> {
                &&& remaining == 0
                &&& *final(self) == *old(self)
            },
            old(self).root.ids().contains(old(self).focused_pane) && old(self).root is Split ==> {
                &&& final(self).root == old(self).root.removed(old(self).focused_pane)
                &&& final(self).root.panes() == old(self).root.panes().remove(
                    first_pos(old(self).root.ids(), old(self).focused_pane),
                )
                &&& final(self).focused_pane == final(self).root.ids()[0]
                &&& remaining == final(self).root.panes().len()
                &&& remaining == old(self).root.panes().len() - 1
                &&& final(self).id == old(self).id
                &&& final(self).title == old(self).title
            },
    {
        proof {
            lemma_first_pos(self.root.ids(), self.focused_pane);
        }
        let result = self.root.remove_pane(self.focused_pane);
        match result {
            RemoveResult::RemoveSelf => 0,
            RemoveResult::Removed => {
                let ids = self.root.pane_ids();
                proof {
                    self.root.lemma_panes_nonempty();
                }
                if ids.len() > 0 {
                    self.focused_pane = ids[0];
                }
                ids.len()
            },
            RemoveResult::NotFound => {
                let ids = self.root.pane_ids();
                ids.len()
            },
        }
    }
}

/// Information needed to render a single tab in the tab bar.
#[derive(Debug, Clone)]
pub struct TabRenderInfo {
    pub title: String,
    pub is_active: bool,
}

/// Manages all tabs in the application.
pub struct TabManager<S> {
    tabs: Vec<Tab<S>>,
    active_tab: usize,
    next_pane_id: u64,
    next_tab_id: u64,
}

impl<S> TabManager<S> {
    /// The tabs, in order.
    pub closed spec fn tabs(self) -> Seq<Tab<S>> {
        self.tabs@
    }

    /// Index of the active tab.
    pub closed spec fn active(self) -> int {
        self.active_tab as int
    }

    /// The id the next call of `next_pane_id` hands out.
    pub closed spec fn pane_counter(self) -> u64 {
        self.next_pane_id
    }

    /// The id the next added tab receives.
    pub closed spec fn tab_counter(self) -> u64 {
        self.next_tab_id
    }

    /// The active index names a tab, or is zero when there are none.
    pub open spec fn wf(self) -> bool {
        ||| self.active() < self.tabs().len()
        ||| (self.tabs().len() == 0 && self.active() == 0)
    }

    /// Creates a new empty tab manager.
    pub fn new() -> (mgr: Self)
        ensures
            mgr.wf(),
            mgr.tabs().len() == 0,
            mgr.active() == 0,
            mgr.pane_counter() == 1,
            mgr.tab_counter() == 1,
    {
        TabManager { tabs: Vec::new(), active_tab: 0, next_pane_id: 1, next_tab_id: 1 }
    }

    /// Index of the active tab.
    pub fn active_index(&self) -> (i: usize)
        ensures
            i == self.active(),
    {
        self.active_tab
    }

    /// Allocates a new unique pane ID.
    pub fn next_pane_id(&mut self) -> (id: PaneId)
        requires
            old(self).pane_counter() < u64::MAX,
        ensures
            id == PaneId(old(self).pane_counter()),
            final(self).pane_counter() == old(self).pane_counter() + 1,
            final(self).tabs() == old(self).tabs(),
            final(self).active() == old(self).active(),
            final(self).tab_counter() == old(self).tab_counter(),
    {
        let id = PaneId(self.next_pane_id);
        self.next_pane_id = self.next_pane_id + 1;
        id
    }

    /// Adds a new tab with the given pane. Returns the tab index.
    pub fn add_tab(&mut self, pane: Pane<S>) -> (index: usize)
        requires
            old(self).wf(),
            old(self).tab_counter() < u64::MAX,
        ensures
            final(self).wf(),
            index == old(self).tabs().len(),
            final(self).tabs().len() == old(self).tabs().len() + 1,
            final(self).tabs().take(index as int) == old(self).tabs(),
            final(self).tabs()[index as int].id == TabId(old(self).tab_counter()),
            final(self).tabs()[index as int].root == PaneNode::Leaf(Box::new(pane)),
            final(self).tabs()[index as int].focused_pane == pane.id,
            final(self).tabs()[index as int].title == pane.title,
            final(self).active() == old(self).active(),
            final(self).tab_counter() == old(self).tab_counter() + 1,
            final(self).pane_counter() == old(self).pane_counter(),
    {
        let tab_id = TabId(self.next_tab_id);
        self.next_tab_id = self.next_tab_id + 1;
        let tab = Tab::new(tab_id, pane);
        self.tabs.push(tab);
        assert(self.tabs@.take(self.tabs@.len() - 1) =~= old(self).tabs@);
        self.tabs.len() - 1
    }

    /// Returns a reference to the active tab.
    pub fn active_tab(&self) -> (tab: Option<&Tab<S>>)
        requires
            self.wf(),
        ensures
            tab is Some <==> self.tabs().len() > 0,
            tab matches Some(t) ==> *t == self.tabs()[self.active()],
    {
        if self.active_tab < self.tabs.len() {
            Some(&self.tabs[self.active_tab])
        } else {
            None
        }
    }

    /// Returns a mutable reference to the active tab.
    pub fn active_tab_mut(&mut self) -> (tab: Option<&mut Tab<S>>)
        requires
            old(self).wf(),
        ensures
            tab is Some <==> old(self).tabs().len() > 0,
            tab matches Some(t) ==> *t == old(self).tabs()[old(self).active()],
            tab matches Some(t) ==> final(self).tabs() == old(self).tabs().update(old(self).active(), *final(t)),
            tab is None ==> final(self).tabs() == old(self).tabs(),
            final(self).wf(),
            final(self).active() == old(self).active(),
            final(self).pane_counter() == old(self).pane_counter(),
            final(self).tab_counter() == old(self).tab_counter(),
    {
        if self.active_tab < self.tabs.len() {
            let i = self.active_tab;
            Some(&mut self.tabs[i])
        } else {
            None
        }
    }

    /// Closes the tab at the given index, shutting down all its panes.
    ///
    /// The active index is kept, unless it no longer names a tab; then it
    /// moves to the last tab.
    pub fn close_tab(&mut self, index: usize)
        requires
            old(self).wf(),
        ensures
            final(self).wf(),
            index < old(self).tabs().len() ==> final(self).tabs() == old(self).tabs().remove(index as int),
            index >= old(self).tabs().len() ==> final(self).tabs() == old(self).tabs(),
            final(self).active() == (if final(self).tabs().len() > 0 && old(self).active() >= final(self).tabs().len() {
                final(self).tabs().len() - 1
            } else {
                old(self).active()
            }),
            final(self).pane_counter() == old(self).pane_counter(),
            final(self).tab_counter() == old(self).tab_counter(),
    {
        if index < self.tabs.len() {
            self.tabs.remove(index);
            if self.active_tab >= self.tabs.len() && self.tabs.len() > 0 {
                self.active_tab = self.tabs.len() - 1;
            }
        }
    }

    /// Closes the active tab.
    pub fn close_active_tab(&mut self)
        requires
            old(self).wf(),
        ensures
            final(self).wf(),
            old(self).tabs().len() > 0 ==> final(self).tabs() == old(self).tabs().remove(old(self).active()),
            old(self).tabs().len() == 0 ==> final(self).tabs() == old(self).tabs(),
            final(self).active() == (if final(self).tabs().len() > 0 && old(self).active() >= final(self).tabs().len() {
                final(self).tabs().len() - 1
            } else {
                old(self).active()
            }),
            final(self).pane_counter() == old(self).pane_counter(),
            final(self).tab_counter() == old(self).tab_counter(),
    {
        let i = self.active_tab;
        self.close_tab(i);
    }

    /// Switches to the tab at the given index (0-based); an index past the
    /// last tab changes nothing.
    pub fn switch_to_tab(&mut self, index: usize)
        requires
            old(self).wf(),
        ensures
            final(self).wf(),
            final(self).tabs() == old(self).tabs(),
            final(self).active() == (if index < old(self).tabs().len() {
                index as int
            } else {
                old(self).active()
            }),
            final(self).pane_counter() == old(self).pane_counter(),
            final(self).tab_counter() == old(self).tab_counter(),
    {
        if index < self.tabs.len() {
            self.active_tab = index;
        }
    }

    /// Switches to the next tab (wrapping).
    pub fn next_tab(&mut self)
        requires
            old(self).wf(),
        ensures
            final(self).wf(),
            final(self).tabs() == old(self).tabs(),
            final(self).active() == next_active(old(self).tabs().len() as int, old(self).active()),
            old(self).active() + 1 < old(self).tabs().len() ==> final(self).active() == old(self).active() + 1,
            old(self).tabs().len() > 0 && old(self).active() + 1 == old(self).tabs().len() ==> final(self).active() == 0,
            final(self).pane_counter() == old(self).pane_counter(),
            final(self).tab_counter() == old(self).tab_counter(),
    {
        if self.tabs.len() > 0 {
            proof {
                lemma_wrap_successor(self.tabs@.len() as int, self.active_tab as int);
            }
            self.active_tab = (self.active_tab + 1) % self.tabs.len();
        }
    }

    /// Switches to the previous tab (wrapping).
    pub fn prev_tab(&mut self)
        requires
            old(self).wf(),
        ensures
            final(self).wf(),
            final(self).tabs() == old(self).tabs(),
            final(self).active() == prev_active(old(self).tabs().len() as int, old(self).active()),
            0 < old(self).active() < old(self).tabs().len() ==> final(self).active() == old(self).active() - 1,
            old(self).tabs().len() > 0 && old(self).active() == 0 ==> final(self).active() == old(self).tabs().len() - 1,
            final(self).pane_counter() == old(self).pane_counter(),
            final(self).tab_counter() == old(self).tab_counter(),
    {
        if self.tabs.len() > 0 {
            self.active_tab = if self.active_tab == 0 {
                self.tabs.len() - 1
            } else {
                self.active_tab - 1
            };
        }
    }

    /// Returns the number of tabs.
    pub fn tab_count(&self) -> (n: usize)
        ensures
            n == self.tabs().len(),
    {
        self.tabs.len()
    }

    /// Returns `true` if there are no tabs.
    pub fn is_empty(&self) -> (empty: bool)
        ensures
            empty == (self.tabs().len() == 0),
    {
        self.tabs.len() == 0
    }

    /// Returns tab info for rendering the tab bar.
    pub fn tab_render_info(&self) -> (infos: Vec<TabRenderInfo>)
        ensures
            infos@.len() == self.tabs().len(),
            forall|i: int|
                0 <= i < infos@.len() ==> {
                    &&& #[trigger] infos@[i].title == self.tabs()[i].title
                    &&& infos@[i].is_active == (i == self.active())
                },
    {
        let mut infos: Vec<TabRenderInfo> = Vec::new();
        let mut i: usize = 0;
        while i < self.tabs.len()
            invariant
                i <= self.tabs@.len(),
                infos@.len() == i,
                forall|j: int|
                    0 <= j < i ==> {
                        &&& #[trigger] infos@[j].title == self.tabs@[j].title
                        &&& infos@[j].is_active == (j == self.active_tab)
                    },
            decreases self.tabs@.len() - i,
        {
            infos.push(TabRenderInfo { title: self.tabs[i].title.clone(), is_active: i == self.active_tab });
            i = i + 1;
        }
        infos
    }
}


/// Index of the first tab whose tree holds a pane with id `id`
/// (`tabs.len()` when none does).
pub open spec fn first_tab_with<S>(tabs: Seq<Tab<S>>, id: PaneId) -> int
    decreases tabs.len(),
{
    if tabs.len() == 0 {
        0
    } else if tabs[0].root.ids().contains(id) {
        0
    } else {
        1 + first_tab_with(tabs.drop_first(), id)
    }
}

/// `first_tab_with` finds the first tab holding the id.
pub proof fn lemma_first_tab_with<S>(tabs: Seq<Tab<S>>, id: PaneId)
    ensures
        0 <= first_tab_with(tabs, id) <= tabs.len(),
        first_tab_with(tabs, id) < tabs.len() ==> tabs[first_tab_with(tabs, id)].root.ids().contains(id),
        forall|j: int| 0 <= j < first_tab_with(tabs, id) ==> !(#[trigger] tabs[j].root.ids().contains(id)),
    decreases tabs.len(),
{
    if tabs.len() > 0 && !tabs[0].root.ids().contains(id) {
        lemma_first_tab_with(tabs.drop_first(), id);
        assert forall|j: int| 0 <= j < first_tab_with(tabs, id) implies !(#[trigger] tabs[j].root.ids().contains(id)) by {
            if j > 0 {
                assert(tabs[j] == tabs.drop_first()[j - 1]);
            }
        }
    }
}

/// The tab `t` after its pane `id` was taken out of a split: the sibling is
/// promoted and focus moves to the first remaining pane.
pub open spec fn tab_without_pane<S>(t: Tab<S>, id: PaneId) -> Tab<S> {
    Tab {
        id: t.id,
        root: t.root.removed(id),
        focused_pane: t.root.removed(id).ids()[0],
        title: t.title,
    }
}

impl<S> TabManager<S> {
    /// Scans the tabs for the first one holding pane `pane_id`.
    fn tab_index_of(&self, pane_id: PaneId) -> (index: Option<usize>)
        ensures
            index is Some <==> first_tab_with(self.tabs(), pane_id) < self.tabs().len(),
            index matches Some(i) ==> i == first_tab_with(self.tabs(), pane_id),
    {
        proof {
            lemma_first_tab_with(self.tabs@, pane_id);
        }
        let mut i: usize = 0;
        while i < self.tabs.len()
            invariant
                i <= self.tabs@.len(),
                forall|j: int| 0 <= j < i ==> !(#[trigger] self.tabs@[j].root.ids().contains(pane_id)),
                0 <= first_tab_with(self.tabs@, pane_id) <= self.tabs@.len(),
                first_tab_with(self.tabs@, pane_id) < self.tabs@.len() ==> self.tabs@[first_tab_with(
                    self.tabs@,
                    pane_id,
                )].root.ids().contains(pane_id),
                forall|j: int|
                    0 <= j < first_tab_with(self.tabs@, pane_id) ==> !(#[trigger] self.tabs@[j].root.ids().contains(
                        pane_id,
                    )),
            decreases self.tabs@.len() - i,
        {
            if self.tabs[i].root.contains(pane_id) {
                return Some(i);
            }
            i = i + 1;
        }
        None
    }

    /// Find the pane with the given ID across all tabs. Returns
    /// (tab_index, &mut Pane) for the first tab that holds it.
    pub fn find_pane_mut(&mut self, pane_id: PaneId) -> (found: Option<(usize, &mut Pane<S>)>)
        requires
            old(self).wf(),
        ensures
            final(self).wf(),
            found is Some <==> first_tab_with(old(self).tabs(), pane_id) < old(self).tabs().len(),
            found matches Some(r) ==> {
                let t = r.0 as int;
                let k = first_pos(old(self).tabs()[t].root.ids(), pane_id);
                &&& t == first_tab_with(old(self).tabs(), pane_id)
                &&& *r.1 == old(self).tabs()[t].root.panes()[k]
                &&& final(self).tabs().len() == old(self).tabs().len()
                &&& forall|j: int| 0 <= j < old(self).tabs().len() && j != t ==> final(self).tabs()[j] == old(self).tabs()[j]
                &&& final(self).tabs()[t].root.panes() == old(self).tabs()[t].root.panes().update(k, *final(r.1))
                &&& final(self).tabs()[t].root == old(self).tabs()[t].root.with_pane(pane_id, *final(r.1))
                &&& final(self).tabs()[t].id == old(self).tabs()[t].id
                &&& final(self).tabs()[t].focused_pane == old(self).tabs()[t].focused_pane
                &&& final(self).tabs()[t].title == old(self).tabs()[t].title
            },
            found is None ==> final(self).tabs() == old(self).tabs(),
            final(self).active() == old(self).active(),
            final(self).pane_counter() == old(self).pane_counter(),
            final(self).tab_counter() == old(self).tab_counter(),
    {
        proof {
            lemma_first_tab_with(self.tabs@, pane_id);
        }
        match self.tab_index_of(pane_id) {
            Some(i) => {
                let tab = &mut self.tabs[i];
                match tab.root.find_pane_mut(pane_id) {
                    Some(p) => Some((i, p)),
                    None => None,
                }
            },
            None => None,
        }
    }
}

impl<S: Default> TabManager<S> {
    /// Remove a specific pane by ID. If it was the last pane in a tab,
    /// removes that tab. Returns `true` if the tab was also removed.
    pub fn remove_pane(&mut self, pane_id: PaneId) -> (tab_closed: bool)
        requires
            old(self).wf(),
        ensures
            final(self).wf(),
            ({
                let t = first_tab_with(old(self).tabs(), pane_id);
                &&& t == old(self).tabs().len() ==> {
                    &&& !tab_closed
                    &&& final(self).tabs() == old(self).tabs()
                    &&& final(self).active() == old(self).active()
                }
                &&& t < old(self).tabs().len() && old(self).tabs()[t].root is Leaf ==> {
                    &&& tab_closed
                    &&& final(self).tabs() == old(self).tabs().remove(t)
                    &&& final(self).active() == (if final(self).tabs().len() > 0 && old(self).active() >= final(self).tabs().len() {
                        final(self).tabs().len() - 1
                    } else {
                        old(self).active()
                    })
                }
                &&& t < old(self).tabs().len() && old(self).tabs()[t].root is Split ==> {
                    &&& !tab_closed
                    &&& final(self).tabs() == old(self).tabs().update(t, tab_without_pane(old(self).tabs()[t], pane_id))
                    &&& final(self).active() == old(self).active()
                }
            }),
            final(self).pane_counter() == old(self).pane_counter(),
            final(self).tab_counter() == old(self).tab_counter(),
    {
        proof {
            lemma_first_tab_with(self.tabs@, pane_id);
        }
        match self.tab_index_of(pane_id) {
            Some(tab_idx) => {
                proof {
                    let r = self.tabs@[tab_idx as int].root;
                    if r is Split {
                        r.lemma_ids_split();
                        match r {
                            PaneNode::Split { first, second, .. } => {
                                first.lemma_panes_nonempty();
                                second.lemma_panes_nonempty();
                            },
                            PaneNode::Leaf(_) => {},
                        }
                    }
                }
                let tab = &mut self.tabs[tab_idx];
                tab.focused_pane = pane_id;
                let remaining = tab.close_focused_pane();
                if remaining == 0 {
                    self.close_tab(tab_idx);
                    return true;
                }
                false
            },
            None => false,
        }
    }
}


/// What a key binding asks of the tabs and panes.
#[derive(Debug, Clone, Copy, PartialEq, Eq, Structural)]
pub enum TabAction {
    /// Close the focused pane, and its tab when it was the tab's last pane.
    CloseFocused,
    NextTab,
    PrevTab,
    /// Switch to the tab of this number, counted from 1 (0 counts as 1).
    SwitchTab(u8),
    FocusNextPane,
    FocusPrevPane,
}

/// The tab with focus on `f`.
pub open spec fn tab_with_focus<S>(t: Tab<S>, f: PaneId) -> Tab<S> {
    Tab { focused_pane: f, ..t }
}

/// Closing the focused pane of `t` closes the tab: the focused pane is its
/// only pane.
pub open spec fn closes_tab<S>(t: Tab<S>) -> bool {
    t.root.ids().contains(t.focused_pane) && t.root is Leaf
}

/// The tab with its focused pane closed: the pane's sibling takes the place
/// of their split and focus goes to the first pane; the tab as it is when
/// the focused pane is not in it or is its only pane.
pub open spec fn tab_without_focused<S>(t: Tab<S>) -> Tab<S> {
    if t.root.ids().contains(t.focused_pane) && t.root is Split {
        Tab {
            root: t.root.removed(t.focused_pane),
            focused_pane: t.root.removed(t.focused_pane).ids()[0],
            ..t
        }
    } else {
        t
    }
}

/// The active index once the active tab was closed from `count` tabs: the
/// same index, or the last tab when it was the last one.
pub open spec fn active_after_close(count: int, active: int) -> int {
    if count > 0 && active >= count {
        count - 1
    } else {
        active
    }
}

/// The tabs and the active index after `action`, from `tabs` with `active`
/// the active index.
pub open spec fn after_tab_action<S>(tabs: Seq<Tab<S>>, active: int, action: TabAction) -> (Seq<Tab<S>>, int) {
    let n = tabs.len() as int;
    match action {
        TabAction::CloseFocused => if n == 0 {
            (tabs, active)
        } else if closes_tab(tabs[active]) {
            (tabs.remove(active), active_after_close(n - 1, active))
        } else {
            (tabs.update(active, tab_without_focused(tabs[active])), active)
        },
        TabAction::NextTab => (tabs, next_active(n, active)),
        TabAction::PrevTab => (tabs, prev_active(n, active)),
        TabAction::SwitchTab(k) => {
            let index = if k == 0 { 0 } else { k - 1 };
            (tabs, if index < n { index } else { active })
        },
        TabAction::FocusNextPane => if n == 0 {
            (tabs, active)
        } else {
            (tabs.update(active, tab_with_focus(tabs[active], next_focus(tabs[active].root.ids(), tabs[active].focused_pane))), active)
        },
        TabAction::FocusPrevPane => if n == 0 {
            (tabs, active)
        } else {
            (tabs.update(active, tab_with_focus(tabs[active], prev_focus(tabs[active].root.ids(), tabs[active].focused_pane))), active)
        },
    }
}

/// The active index after switching to the next of `count` tabs (wrapping).
pub open spec fn next_active(count: int, active: int) -> int {
    if count > 0 {
        (active + 1) % count
    } else {
        active
    }
}

/// The active index after switching to the previous of `count` tabs (wrapping).
pub open spec fn prev_active(count: int, active: int) -> int {
    if count == 0 {
        active
    } else if active == 0 {
        count - 1
    } else {
        active - 1
    }
}

/// In a sequence without duplicates, the first position of an element is
/// its position.
pub proof fn lemma_first_pos_unique(ids: Seq<PaneId>, j: int)
    requires
        ids.no_duplicates(),
        0 <= j < ids.len(),
    ensures
        first_pos(ids, ids[j]) == j,
{
    lemma_first_pos(ids, ids[j]);
    assert(ids.contains(ids[j]));
}

/// Law: moving focus to the next pane and then to the previous one returns
/// focus to where it was, when pane ids are distinct and the focused pane
/// is in the tab.
pub proof fn law_focus_next_then_prev(ids: Seq<PaneId>, focused: PaneId)
    requires
        ids.no_duplicates(),
        ids.contains(focused),
    ensures
        prev_focus(ids, next_focus(ids, focused)) == focused,
        next_focus(ids, prev_focus(ids, focused)) == focused,
{
    lemma_first_pos(ids, focused);
    if ids.len() > 1 {
        let i = first_pos(ids, focused);
        lemma_wrap_successor(ids.len() as int, i);
        let n = (i + 1) % (ids.len() as int);
        lemma_first_pos_unique(ids, n);
        assert(ids.contains(ids[n]));
        let p = if i == 0 { ids.len() - 1 } else { i - 1 };
        lemma_first_pos_unique(ids, p);
        assert(ids.contains(ids[p]));
        lemma_wrap_successor(ids.len() as int, p);
    }
}

/// Law: switching to the next tab and then to the previous one returns to
/// the tab that was active, whenever the active index names a tab.
pub proof fn law_next_then_prev_tab(count: int, active: int)
    requires
        0 <= active < count,
    ensures
        prev_active(count, next_active(count, active)) == active,
        next_active(count, prev_active(count, active)) == active,
{
    lemma_wrap_successor(count, active);
    let p = prev_active(count, active);
    lemma_wrap_successor(count, p);
}

/// The active index after `n` switches to the next of `count` tabs.
pub open spec fn after_next_tabs(count: int, active: int, n: nat) -> int
    decreases n,
{
    if n == 0 {
        active
    } else {
        next_active(count, after_next_tabs(count, active, (n - 1) as nat))
    }
}

/// `n` switches to the next tab move the active index `n` tabs on, wrapping.
pub proof fn lemma_after_next_tabs(count: int, active: int, n: nat)
    requires
        0 <= active < count,
    ensures
        after_next_tabs(count, active, n) == (active + n) % count,
    decreases n,
{
    if n == 0 {
        vstd::arithmetic::div_mod::lemma_small_mod(active as nat, count as nat);
    } else {
        lemma_after_next_tabs(count, active, (n - 1) as nat);
        let x = active + n - 1;
        vstd::arithmetic::div_mod::lemma_add_mod_noop(x, 1, count);
        if count > 1 {
            vstd::arithmetic::div_mod::lemma_small_mod(1, count as nat);
        } else {
            vstd::arithmetic::div_mod::lemma_mod_self_0(1);
            vstd::arithmetic::div_mod::lemma_fundamental_div_mod(x % count, 1);
        }
    }
}

/// Law: switching to the next tab as many times as there are tabs comes
/// back to the tab that was active, whenever the active index names a tab.
pub proof fn law_next_tab_cycles(count: int, active: int)
    requires
        0 <= active < count,
    ensures
        after_next_tabs(count, active, count as nat) == active,
{
    lemma_after_next_tabs(count, active, count as nat);
    vstd::arithmetic::div_mod::lemma_mod_add_multiples_vanish(active, count);
    vstd::arithmetic::div_mod::lemma_small_mod(active as nat, count as nat);
}

/// Law: tabs are numbered from one: switching to tab number `k` makes
/// the `k`-th tab (index `k - 1`) active and keeps every tab; a number past
/// the last tab changes nothing.
pub proof fn law_switch_tab_counts_from_one<S>(tabs: Seq<Tab<S>>, active: int, k: u8)
    ensures
        1 <= k <= tabs.len() ==> after_tab_action(tabs, active, TabAction::SwitchTab(k)) == (tabs, k - 1),
        k > tabs.len() ==> after_tab_action(tabs, active, TabAction::SwitchTab(k)) == (tabs, active),
{
}

/// Law: the next tab is the one after the active tab, and the first after
/// the last; the previous tab is the one before it, and the last before the
/// first.
pub proof fn law_next_and_prev_tab_neighbours(count: int, active: int)
    requires
        0 <= active < count,
    ensures
        active + 1 < count ==> next_active(count, active) == active + 1,
        active + 1 == count ==> next_active(count, active) == 0,
        active > 0 ==> prev_active(count, active) == active - 1,
        active == 0 ==> prev_active(count, active) == count - 1,
{
    lemma_wrap_successor(count, active);
}

/// Law: with distinct pane ids, moving focus to the next pane goes to the
/// pane after the focused one in the tab's order (the first after the
/// last), and to the previous pane goes to the one before it (the last
/// before the first).
pub proof fn law_focus_neighbours(ids: Seq<PaneId>, i: int)
    requires
        ids.no_duplicates(),
        0 <= i < ids.len(),
        ids.len() > 1,
    ensures
        i + 1 < ids.len() ==> next_focus(ids, ids[i]) == ids[i + 1],
        i + 1 == ids.len() ==> next_focus(ids, ids[i]) == ids[0],
        i > 0 ==> prev_focus(ids, ids[i]) == ids[i - 1],
        i == 0 ==> prev_focus(ids, ids[i]) == ids[ids.len() - 1],
{
    lemma_first_pos_unique(ids, i);
    assert(ids.contains(ids[i]));
    lemma_wrap_successor(ids.len() as int, i);
}

/// `(i + 1) % count` is `i + 1`, or zero at the last index.
pub proof fn lemma_wrap_successor(count: int, i: int)
    requires
        0 <= i < count,
    ensures
        (i + 1) % count == (if i + 1 < count { i + 1 } else { 0 }),
{
    if i + 1 < count {
        vstd::arithmetic::div_mod::lemma_small_mod((i + 1) as nat, count as nat);
    } else {
        vstd::arithmetic::div_mod::lemma_mod_self_0(count);
    }
}

impl<S> PaneNode<S> {
    /// A split of a tree that holds the target is a split node whose panes
    /// hold the new pane.
    proof fn lemma_split_at_shape(self, target: PaneId, direction: SplitDirection, new_pane: Pane<S>)
        requires
            self.ids().contains(target),
        ensures
            self.split_at(target, direction, new_pane) is Split,
            self.split_at(target, direction, new_pane).ids().contains(new_pane.id),
    {
        self.lemma_split_at_panes(target, direction, new_pane);
        lemma_first_pos(self.ids(), target);
        let k = first_pos(self.ids(), target);
        let t = self.split_at(target, direction, new_pane);
        assert(t.ids()[k + 1] == new_pane.id);
    }

    /// Law: closing the pane that a split has just created restores the
    /// tree, when the new pane's id was not in the tree before.
    pub proof fn law_split_then_remove_restores(self, target: PaneId, direction: SplitDirection, new_pane: Pane<S>)
        requires
            self.ids().contains(target),
            !self.ids().contains(new_pane.id),
        ensures
            self.split_at(target, direction, new_pane).removed(new_pane.id) == self,
        decreases self,
    {
        self.lemma_ids_split();
        match self {
            PaneNode::Leaf(p) => {
                assert(self.ids()[0] == p.id);
                assert(p.id == target);
                let t = self.split_at(target, direction, new_pane);
                let leaf_new = PaneNode::<S>::Leaf(Box::new(new_pane));
                let leaf_old = PaneNode::<S>::Leaf(p);
                leaf_new.lemma_ids_split();
                leaf_old.lemma_ids_split();
                assert(leaf_old.ids()[0] != new_pane.id);
                assert(!leaf_old.ids().contains(new_pane.id));
                assert(leaf_new.ids()[0] == new_pane.id);
            },
            PaneNode::Split { direction: d, ratio, first, second } => {
                lemma_contains_concat(first.ids(), second.ids(), target);
                lemma_contains_concat(first.ids(), second.ids(), new_pane.id);
                if first.ids().contains(target) {
                    first.law_split_then_remove_restores(target, direction, new_pane);
                    first.lemma_split_at_shape(target, direction, new_pane);
                } else {
                    second.law_split_then_remove_restores(target, direction, new_pane);
                    second.lemma_split_at_shape(target, direction, new_pane);
                }
            },
        }
    }

    /// Setting a ratio on a route keeps the panes and the numbering of the
    /// splits.
    pub proof fn lemma_ratio_on_route_keeps_shape(self, route: Seq<bool>, r: DividerRatio, path: nat)
        ensures
            self.with_ratio_on_route(route, r).panes() == self.panes(),
            self.with_ratio_on_route(route, r).divider_numbers_from(path) == self.divider_numbers_from(path),
        decreases route.len(),
    {
        match self {
            PaneNode::Leaf(_) => {},
            PaneNode::Split { first, second, .. } => {
                if route.len() > 0 {
                    first.lemma_ratio_on_route_keeps_shape(route.drop_first(), r, 2 * path + 1);
                    second.lemma_ratio_on_route_keeps_shape(route.drop_first(), r, 2 * path + 2);
                }
            },
        }
    }

    /// Setting a ratio on a route gives the split there that ratio, keeps
    /// the direction of every split, and the ratio of every split on
    /// another route.
    pub proof fn lemma_ratio_on_route_changes_one(self, route: Seq<bool>, r: DividerRatio, other: Seq<bool>)
        ensures
            split_direction(self.with_ratio_on_route(route, r).node_on_route(other)) == split_direction(
                self.node_on_route(other),
            ),
            other != route ==> split_ratio(self.with_ratio_on_route(route, r).node_on_route(other))
                == split_ratio(self.node_on_route(other)),
            other == route && self.node_on_route(route) is Some ==> split_ratio(
                self.with_ratio_on_route(route, r).node_on_route(route),
            ) == (if self.node_on_route(route).unwrap() is Split { Some(r) } else { None }),
        decreases other.len(),
    {
        match self {
            PaneNode::Leaf(_) => {},
            PaneNode::Split { first, second, .. } => {
                if other.len() == 0 && route.len() == 0 {
                    assert(other =~= route);
                }
                if other.len() > 0 {
                    if route.len() > 0 && route[0] == other[0] {
                        if other != route {
                            assert(other.drop_first() != route.drop_first()) by {
                                if other.drop_first() == route.drop_first() {
                                    assert(other =~= seq![other[0]] + other.drop_first());
                                    assert(route =~= seq![route[0]] + route.drop_first());
                                }
                            }
                        }
                        first.lemma_ratio_on_route_changes_one(route.drop_first(), r, other.drop_first());
                        second.lemma_ratio_on_route_changes_one(route.drop_first(), r, other.drop_first());
                    }
                }
            },
        }
    }

    /// A split numbered `d` below this node, numbered `path`, lies on the
    /// way to `d`: its route from the root is that of `path`, then the
    /// route returned from this node to the split.
    pub proof fn lemma_numbered_split_route(self, path: nat, d: nat) -> (rest: Seq<bool>)
        requires
            self.divider_numbers_from(path).contains(d),
        ensures
            divider_route(d) == divider_route(path) + rest,
            self.node_on_route(rest) matches Some(PaneNode::Split { .. }),
        decreases self,
    {
        match self {
            PaneNode::Leaf(_) => {
                assert(false);
                seq![]
            },
            PaneNode::Split { first, second, .. } => {
                let a = first.divider_numbers_from(2 * path + 1);
                let b = second.divider_numbers_from(2 * path + 2);
                assert(self.divider_numbers_from(path) == seq![path] + a + b);
                if d == path {
                    assert(divider_route(d) =~= divider_route(path) + Seq::<bool>::empty());
                    seq![]
                } else if a.contains(d) {
                    let k = first.lemma_numbered_split_route(2 * path + 1, d);
                    assert(divider_route(2 * path + 1) == divider_route(path).push(true));
                    let rest = seq![true] + k;
                    assert(rest.drop_first() =~= k);
                    assert(divider_route(d) =~= divider_route(path) + rest);
                    rest
                } else {
                    let i = choose|i: int| 0 <= i < (seq![path] + a + b).len() && (seq![path] + a + b)[i] == d;
                    assert(i >= 1 + a.len()) by {
                        if i == 0 {
                        } else if i < 1 + a.len() {
                            assert(a[i - 1] == d);
                        }
                    }
                    assert(b[i - 1 - a.len()] == d);
                    assert(b.contains(d));
                    let k = second.lemma_numbered_split_route(2 * path + 2, d);
                    assert(divider_route(2 * path + 2) == divider_route(path).push(false));
                    let rest = seq![false] + k;
                    assert(rest.drop_first() =~= k);
                    assert(divider_route(d) =~= divider_route(path) + rest);
                    rest
                }
            },
        }
    }

    /// Law: the number of each divider names its split. Setting the ratio at
    /// that number gives that split the ratio and leaves its direction and
    /// children; every other split keeps its ratio, every split its
    /// direction, and the panes and the numbering of the dividers stay as
    /// they were.
    pub proof fn law_divider_number_sets_its_split(self, d: nat, r: DividerRatio)
        requires
            self.divider_numbers().contains(d),
        ensures
            self.node_on_route(divider_route(d)) matches Some(PaneNode::Split { .. }),
            self.with_ratio_at_path(d, r).node_on_route(divider_route(d)) == (match self.node_on_route(
                divider_route(d),
            ) {
                Some(PaneNode::Split { direction, first, second, .. }) => Some(
                    PaneNode::Split { direction, ratio: r, first, second },
                ),
                _ => None,
            }),
            forall|e: nat|
                #![trigger self.divider_numbers().contains(e)]
                self.divider_numbers().contains(e) && e != d ==> split_ratio(
                    self.with_ratio_at_path(d, r).node_on_route(divider_route(e)),
                ) == split_ratio(self.node_on_route(divider_route(e))),
            forall|e: nat|
                #![trigger self.divider_numbers().contains(e)]
                self.divider_numbers().contains(e) ==> split_direction(
                    self.with_ratio_at_path(d, r).node_on_route(divider_route(e)),
                ) == split_direction(self.node_on_route(divider_route(e))),
            self.with_ratio_at_path(d, r).panes() == self.panes(),
            self.with_ratio_at_path(d, r).divider_numbers() == self.divider_numbers(),
    {
        let route = divider_route(d);
        let rest = self.lemma_numbered_split_route(0, d);
        assert(route =~= rest);
        self.lemma_ratio_on_split_route(route, r);
        self.lemma_ratio_on_route_keeps_shape(route, r, 0);
        assert forall|e: nat|
            #![trigger self.divider_numbers().contains(e)]
            self.divider_numbers().contains(e) implies {
                &&& split_direction(self.with_ratio_at_path(d, r).node_on_route(divider_route(e)))
                    == split_direction(self.node_on_route(divider_route(e)))
                &&& e != d ==> split_ratio(self.with_ratio_at_path(d, r).node_on_route(divider_route(e)))
                    == split_ratio(self.node_on_route(divider_route(e)))
            } by {
            if e != d {
                lemma_divider_route_injective(e, d);
            }
            self.lemma_ratio_on_route_changes_one(route, r, divider_route(e));
        }
    }

    /// Setting the ratio on the route of a split gives that split the ratio
    /// and keeps its direction and children.
    pub proof fn lemma_ratio_on_split_route(self, route: Seq<bool>, r: DividerRatio)
        requires
            self.node_on_route(route) matches Some(PaneNode::Split { .. }),
        ensures
            self.with_ratio_on_route(route, r).node_on_route(route) == (match self.node_on_route(route) {
                Some(PaneNode::Split { direction, first, second, .. }) => Some(
                    PaneNode::Split { direction, ratio: r, first, second },
                ),
                _ => None,
            }),
        decreases route.len(),
    {
        match self {
            PaneNode::Leaf(_) => {},
            PaneNode::Split { first, second, .. } => {
                if route.len() > 0 {
                    if route[0] {
                        first.lemma_ratio_on_split_route(route.drop_first(), r);
                    } else {
                        second.lemma_ratio_on_split_route(route.drop_first(), r);
                    }
                }
            },
        }
    }
}

/// The ratio of a node that is a split.
pub open spec fn split_ratio<S>(n: Option<PaneNode<S>>) -> Option<DividerRatio> {
    match n {
        Some(PaneNode::Split { ratio, .. }) => Some(ratio),
        _ => None,
    }
}

/// The direction of a node that is a split.
pub open spec fn split_direction<S>(n: Option<PaneNode<S>>) -> Option<SplitDirection> {
    match n {
        Some(PaneNode::Split { direction, .. }) => Some(direction),
        _ => None,
    }
}

/// Different numbers name different routes.
pub proof fn lemma_divider_route_injective(a: nat, b: nat)
    requires
        a != b,
    ensures
        divider_route(a) != divider_route(b),
    decreases a + b,
{
    if a == 0 || b == 0 {
        if a != 0 {
            assert(divider_route(a).len() > 0);
        }
        if b != 0 {
            assert(divider_route(b).len() > 0);
        }
    } else {
        let pa = ((a - 1) / 2) as nat;
        let pb = ((b - 1) / 2) as nat;
        if divider_route(a) == divider_route(b) {
            assert(divider_route(a).drop_last() =~= divider_route(pa));
            assert(divider_route(b).drop_last() =~= divider_route(pb));
            assert(divider_route(a).last() == (a % 2 == 1));
            assert(divider_route(b).last() == (b % 2 == 1));
            if pa != pb {
                lemma_divider_route_injective(pa, pb);
            }
            assert(a % 2 == b % 2);
        }
    }
}

impl<S: Default> TabManager<S> {
    /// Carries out what a key binding asks of the tabs; whether no tab is
    /// left after closing, so that the terminal exits.
    pub fn apply_tab_action(&mut self, action: TabAction) -> (exit: bool)
        requires
            old(self).wf(),
        ensures
            final(self).wf(),
            (final(self).tabs(), final(self).active()) == after_tab_action(old(self).tabs(), old(self).active(), action),
            exit == (action == TabAction::CloseFocused && final(self).tabs().len() == 0),
            action matches TabAction::SwitchTab(k) ==> {
                &&& final(self).tabs() == old(self).tabs()
                &&& 1 <= k <= old(self).tabs().len() ==> final(self).active() == k - 1
                &&& k == 0 && old(self).tabs().len() > 0 ==> final(self).active() == 0
                &&& k > old(self).tabs().len() ==> final(self).active() == old(self).active()
            },
            final(self).pane_counter() == old(self).pane_counter(),
            final(self).tab_counter() == old(self).tab_counter(),
    {
        match action {
            TabAction::CloseFocused => {
                let ghost t0 = if old(self).tabs().len() > 0 { old(self).tabs()[old(self).active()] } else { arbitrary() };
                let closes = match self.active_tab_mut() {
                    Some(tab) => {
                        let remaining = tab.close_focused_pane();
                        proof {
                            t0.root.lemma_panes_nonempty();
                            if let PaneNode::Split { first, second, .. } = t0.root {
                                first.lemma_panes_nonempty();
                                second.lemma_panes_nonempty();
                            }
                            if !closes_tab(t0) {
                                assert(*tab == tab_without_focused(t0));
                            } else {
                                assert(*tab == t0);
                            }
                        }
                        remaining == 0
                    },
                    None => false,
                };
                proof {
                    if old(self).tabs().len() > 0 && !closes_tab(t0) {
                        assert(self.tabs() =~= old(self).tabs().update(old(self).active(), tab_without_focused(t0)));
                    }
                    if old(self).tabs().len() > 0 && closes_tab(t0) {
                        assert(self.tabs() =~= old(self).tabs());
                    }
                }
                if closes {
                    self.close_active_tab();
                }
                self.is_empty()
            },
            TabAction::NextTab => {
                self.next_tab();
                false
            },
            TabAction::PrevTab => {
                self.prev_tab();
                false
            },
            TabAction::SwitchTab(k) => {
                let index: usize = if k == 0 {
                    0
                } else {
                    (k - 1) as usize
                };
                self.switch_to_tab(index);
                false
            },
            TabAction::FocusNextPane => {
                if let Some(tab) = self.active_tab_mut() {
                    let ghost t0 = *tab;
                    tab.focus_next_pane();
                    assert(*tab == tab_with_focus(t0, next_focus(t0.root.ids(), t0.focused_pane)));
                }
                false
            },
            TabAction::FocusPrevPane => {
                if let Some(tab) = self.active_tab_mut() {
                    let ghost t0 = *tab;
                    tab.focus_prev_pane();
                    assert(*tab == tab_with_focus(t0, prev_focus(t0.root.ids(), t0.focused_pane)));
                }
                false
            },
        }
    }

    /// Splits the focused pane of the active tab in `direction`, with
    /// `new_pane` second, and focuses the new pane; nothing when there is
    /// no tab.
    pub fn split_active_tab(&mut self, direction: SplitDirection, new_pane: Pane<S>)
        requires
            old(self).wf(),
        ensures
            final(self).wf(),
            final(self).active() == old(self).active(),
            old(self).tabs().len() == 0 ==> final(self).tabs() == old(self).tabs(),
            old(self).tabs().len() > 0 ==> final(self).tabs() == old(self).tabs().update(
                old(self).active(),
                ({
                    let t = old(self).tabs()[old(self).active()];
                    Tab { root: t.root.split_at(t.focused_pane, direction, new_pane), focused_pane: new_pane.id, ..t }
                }),
            ),
            final(self).pane_counter() == old(self).pane_counter(),
            final(self).tab_counter() == old(self).tab_counter(),
    {
        if let Some(tab) = self.active_tab_mut() {
            let new_id = new_pane.id;
            tab.split_focused(direction, new_pane);
            tab.focused_pane = new_id;
        }
    }
}

} // verus!
