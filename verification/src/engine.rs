//! The stateful engine: arena, attractors, parameters, and the step.

use vstd::prelude::*;
use crate::attractor::Attractor;
use crate::attractor::ConnectAction;
use crate::geometry::Space;
use crate::geometry::SqDist;
use crate::model::child_count;
use crate::model::eligible;
use crate::model::info_nodes_of;
use crate::model::is_contact;
use crate::model::lemma_child_count_agree;
use crate::model::lemma_child_count_none;
use crate::model::lemma_wf_structural;
use crate::model::node_active;
use crate::model::node_wf_at;
use crate::model::nodes_quiescent;
use crate::model::nodes_wf;
use crate::model::roots_of;
use crate::model::scan_from;
use crate::model::scan_spec;
use crate::model::segments_of;
use crate::model::spawn_from;
use crate::model::spawned_child;
use crate::model::sqd;
use crate::model::step_attractors;
use crate::model::structural_agree;
use crate::model::swap_removed;
use crate::model::Scan;
use crate::tree::Node;
use crate::tree::NodeIdx;

verus! {

/// Scans the window `start..` of `nodes` for `a`, as [`scan_spec`]
/// describes: the first eligible node strictly within the connect radius
/// wins immediately; otherwise the closest eligible node strictly within
/// the attraction radius (ties keep the earliest) is reported; otherwise
/// the attractor misses.
fn scan_window<G: Space, I: Copy>(
    nodes: &Vec<Node<G::Point, G::Vector, I>>,
    a: &Attractor<G::Point, G::Scalar, I>,
    start: usize,
    max_length: u32,
    max_branches: u32,
) -> (r: Scan)
    requires
        start <= nodes@.len(),
    ensures
        r == scan_spec::<G, I>(nodes@, *a, start as int, max_length, max_branches),
        (match r {
            Scan::Contact(c) => start <= c < nodes@.len(),
            Scan::Attract(j) => start <= j < nodes@.len()
                && eligible(nodes@[j as int], *a, max_length, max_branches),
            Scan::Miss => true,
        }),
{
    let ghost s = nodes@;
    let mut best: Option<usize> = None;
    let mut best_dist: SqDist = a.attract_dist;
    let mut k: usize = start;
    while k < nodes.len()
        invariant
            start <= k <= s.len(),
            s == nodes@,
            (match best {
                Some(j) => start <= j < k && best_dist.0 == sqd::<G, I>(s, *a, j as int)
                    && eligible(s[j as int], *a, max_length, max_branches)
                    && scan_spec::<G, I>(s, *a, start as int, max_length, max_branches)
                        == scan_from::<G, I>(s, *a, k as int, Some(j as int), max_length, max_branches),
                None => best_dist == a.attract_dist
                    && scan_spec::<G, I>(s, *a, start as int, max_length, max_branches)
                        == scan_from::<G, I>(s, *a, k as int, None, max_length, max_branches),
            }),
        decreases s.len() - k,
    {
        let node = nodes[k];
        let excluded = match a.not_for_root {
            Some(deny_root) => deny_root == node.root,
            None => false,
        } || match a.not_for_connecting_root {
            Some(deny_root) => deny_root == node.root,
            None => false,
        };
        if node.is_active(max_length, max_branches) && !excluded {
            assert(eligible(s[k as int], *a, max_length, max_branches));
            let dist = G::sqdist(&node.position, &a.position);
            if dist.0 < a.connect_dist.0 {
                assert(is_contact::<G, I>(s, *a, k as int, max_length, max_branches));
                return Scan::Contact(k);
            } else if dist.0 < best_dist.0 {
                best = Some(k);
                best_dist = dist;
            }
        } else {
            assert(!eligible(s[k as int], *a, max_length, max_branches));
        }
        k = k + 1;
    }
    match best {
        Some(j) => Scan::Attract(j),
        None => Scan::Miss,
    }
}

/// The space colonization engine.
///
/// It owns an append-only arena of nodes, a collection of attractors, and
/// the per-run parameters.  Callers populate it with root nodes and
/// attractors, then repeatedly call [`SpaceColonization::next`]; each call
/// is one growth iteration and returns the number of nodes it created.
pub struct SpaceColonization<G: Space, I: Copy> {
    nodes: Vec<Node<G::Point, G::Vector, I>>,
    attractors: Vec<Attractor<G::Point, G::Scalar, I>>,
    default_attract_dist: SqDist,
    default_connect_dist: SqDist,
    default_information: I,
    move_dist: G::Scalar,
    next_iteration: u32,
    max_length: u32,
    max_branches: u32,
    use_last_n_nodes: Option<usize>,
}

impl<G: Space, I: Copy> SpaceColonization<G, I> {
    /// The node arena, oldest node first.
    pub closed spec fn spec_nodes(&self) -> Seq<Node<G::Point, G::Vector, I>> {
        self.nodes@
    }

    /// The attractor collection.
    pub closed spec fn spec_attractors(&self) -> Seq<Attractor<G::Point, G::Scalar, I>> {
        self.attractors@
    }

    /// The attraction radius given to default attractors.
    pub closed spec fn spec_default_attract_dist(&self) -> SqDist {
        self.default_attract_dist
    }

    /// The connect radius given to default attractors.
    pub closed spec fn spec_default_connect_dist(&self) -> SqDist {
        self.default_connect_dist
    }

    /// The information given to default attractors.
    pub closed spec fn spec_default_information(&self) -> I {
        self.default_information
    }

    /// The step length of new growth.
    pub closed spec fn spec_move_dist(&self) -> G::Scalar {
        self.move_dist
    }

    /// The number of completed iterations.
    pub closed spec fn spec_iteration(&self) -> u32 {
        self.next_iteration
    }

    /// No node grows past this many edges from its root.
    pub closed spec fn spec_max_length(&self) -> u32 {
        self.max_length
    }

    /// No node spawns more than this many children.
    pub closed spec fn spec_max_branches(&self) -> u32 {
        self.max_branches
    }

    /// When set, only the last so many nodes are scanned each iteration.
    pub closed spec fn spec_active_window(&self) -> Option<usize> {
        self.use_last_n_nodes
    }

    /// The run parameters, bundled so contracts can say they never change.
    pub open spec fn spec_params(&self) -> (SqDist, SqDist, I, G::Scalar, u32, u32, Option<usize>) {
        (
            self.spec_default_attract_dist(),
            self.spec_default_connect_dist(),
            self.spec_default_information(),
            self.spec_move_dist(),
            self.spec_max_length(),
            self.spec_max_branches(),
            self.spec_active_window(),
        )
    }

    /// The engine invariant between calls: the arena is a well-formed
    /// forest and no pull is pending.
    pub open spec fn wf(&self) -> bool {
        nodes_wf(self.spec_nodes()) && nodes_quiescent::<G, I>(self.spec_nodes())
    }

    /// A fresh engine: empty arena, no attractors, iteration counter 0, no
    /// active-window limit.
    pub fn new(
        default_attract_dist: SqDist,
        default_connect_dist: SqDist,
        max_length: u32,
        max_branches: u32,
        move_dist: G::Scalar,
        default_information: I,
    ) -> (r: SpaceColonization<G, I>)
        ensures
            r.spec_nodes() == Seq::<Node<G::Point, G::Vector, I>>::empty(),
            r.spec_attractors() == Seq::<Attractor<G::Point, G::Scalar, I>>::empty(),
            r.spec_default_attract_dist() == default_attract_dist,
            r.spec_default_connect_dist() == default_connect_dist,
            r.spec_default_information() == default_information,
            r.spec_move_dist() == move_dist,
            r.spec_max_length() == max_length,
            r.spec_max_branches() == max_branches,
            r.spec_iteration() == 0,
            r.spec_active_window() == Option::<usize>::None,
            r.wf(),
    {
        let r = SpaceColonization {
            nodes: Vec::new(),
            attractors: Vec::new(),
            default_attract_dist,
            default_connect_dist,
            default_information,
            max_length,
            max_branches,
            move_dist,
            next_iteration: 0,
            use_last_n_nodes: None,
        };
        proof {
            assert(r.spec_nodes() =~= Seq::<Node<G::Point, G::Vector, I>>::empty());
            assert(r.spec_attractors() =~= Seq::<Attractor<G::Point, G::Scalar, I>>::empty());
        }
        r
    }

    /// Appends a fully specified attractor.
    pub fn add_attractor(&mut self, attractor: Attractor<G::Point, G::Scalar, I>)
        ensures
            final(self).spec_attractors() == old(self).spec_attractors().push(attractor),
            final(self).spec_nodes() == old(self).spec_nodes(),
            final(self).spec_params() == old(self).spec_params(),
            final(self).spec_iteration() == old(self).spec_iteration(),
            old(self).wf() ==> final(self).wf(),
    {
        self.attractors.push(attractor);
    }

    /// Appends an attractor at `position` with the engine's default radii
    /// and information, unit strength, the kill action, no exclusions,
    /// active from iteration 0.
    pub fn add_default_attractor(&mut self, position: G::Point)
        ensures
            final(self).spec_attractors() == old(self).spec_attractors().push(
                Attractor {
                    attract_dist: old(self).spec_default_attract_dist(),
                    connect_dist: old(self).spec_default_connect_dist(),
                    strength: G::spec_one(),
                    position: position,
                    information: old(self).spec_default_information(),
                    connect_action: ConnectAction::KillAttractor,
                    active_from_iteration: 0,
                    not_for_root: None,
                    not_for_connecting_root: None,
                },
            ),
            final(self).spec_nodes() == old(self).spec_nodes(),
            final(self).spec_params() == old(self).spec_params(),
            final(self).spec_iteration() == old(self).spec_iteration(),
            old(self).wf() ==> final(self).wf(),
    {
        let strength = G::one();
        let attractor = Attractor {
            attract_dist: self.default_attract_dist,
            connect_dist: self.default_connect_dist,
            strength,
            position,
            information: self.default_information,
            connect_action: ConnectAction::KillAttractor,
            active_from_iteration: 0,
            not_for_root: None,
            not_for_connecting_root: None,
        };
        self.attractors.push(attractor);
    }

    /// Appends a root node at `position`; see
    /// [`Self::add_root_node_with_information`].
    pub fn add_root_node(&mut self, position: G::Point) -> (r: NodeIdx)
        requires
            old(self).spec_nodes().len() < u32::MAX as usize,
        ensures
            r == NodeIdx(old(self).spec_nodes().len() as u32),
            final(self).spec_nodes() == old(self).spec_nodes().push(
                Node {
                    parent: r,
                    root: r,
                    length: 0,
                    branches: 0,
                    position: position,
                    growth: G::spec_zero(),
                    growth_count: 0,
                    assigned_information: None,
                },
            ),
            final(self).spec_attractors() == old(self).spec_attractors(),
            final(self).spec_params() == old(self).spec_params(),
            final(self).spec_iteration() == old(self).spec_iteration(),
            old(self).wf() ==> final(self).wf(),
    {
        self.add_root_node_with_information(position, None)
    }

    /// Appends a root node at `position`, optionally carrying initial
    /// information, and returns its index.  The index is fixed for the
    /// life of the engine and is the handle callers refer to the new tree
    /// by.  A root node is its own parent and its own root.
    pub fn add_root_node_with_information(
        &mut self,
        position: G::Point,
        information: Option<I>,
    ) -> (r: NodeIdx)
        requires
            old(self).spec_nodes().len() < u32::MAX as usize,
        ensures
            r == NodeIdx(old(self).spec_nodes().len() as u32),
            final(self).spec_nodes() == old(self).spec_nodes().push(
                Node {
                    parent: r,
                    root: r,
                    length: 0,
                    branches: 0,
                    position: position,
                    growth: G::spec_zero(),
                    growth_count: 0,
                    assigned_information: information,
                },
            ),
            final(self).spec_attractors() == old(self).spec_attractors(),
            final(self).spec_params() == old(self).spec_params(),
            final(self).spec_iteration() == old(self).spec_iteration(),
            old(self).wf() ==> final(self).wf(),
    {
        let len = self.nodes.len();
        let root_idx = NodeIdx(len as u32);
        let growth = G::zero();
        self.nodes.push(
            Node {
                parent: root_idx,
                root: root_idx,
                length: 0,
                branches: 0,
                position,
                growth,
                growth_count: 0,
                assigned_information: information,
            },
        );
        proof {
            if old(self).wf() {
                let s = old(self).spec_nodes();
                let s2 = self.spec_nodes();
                assert forall|i: int| 0 <= i < s2.len() implies #[trigger] node_wf_at(s2, i) by {
                    assert(s2[len as int].parent.0 == len);
                    if i < len {
                        assert(node_wf_at(s, i));
                        lemma_child_count_agree(s, s2, i, len as int);
                    } else {
                        assert forall|j: int| 0 <= j < len implies (#[trigger] s2[j]).parent.0 != len
                            || j == len as int by {
                            assert(node_wf_at(s, j));
                        }
                        lemma_child_count_none(s2, len as int, len as int);
                    }
                }
            }
        }
        root_idx
    }

    /// The first index of the scan window: all nodes when no active-window
    /// limit is set, otherwise only the most recently appended ones.
    pub open spec fn spec_window_start(&self) -> int {
        match self.spec_active_window() {
            Some(n) => if n < self.spec_nodes().len() {
                self.spec_nodes().len() - n
            } else {
                0
            },
            None => 0,
        }
    }

    /// The arena and the attractor collection after the attractor pass of
    /// one step, before spawning.
    pub open spec fn spec_mid(&self) -> (
        Seq<Node<G::Point, G::Vector, I>>,
        Seq<Attractor<G::Point, G::Scalar, I>>,
    ) {
        step_attractors::<G, I>(
            self.spec_nodes(),
            self.spec_attractors(),
            0,
            self.spec_iteration(),
            self.spec_window_start(),
            self.spec_max_length(),
            self.spec_max_branches(),
        )
    }

    /// The arena after one full step.
    pub open spec fn spec_step_nodes(&self) -> Seq<Node<G::Point, G::Vector, I>> {
        spawn_from::<G, I>(
            self.spec_mid().0,
            self.spec_window_start(),
            self.spec_nodes().len() as int,
            self.spec_move_dist(),
        )
    }

    /// The attractor collection after one full step.
    pub open spec fn spec_step_attractors(&self) -> Seq<Attractor<G::Point, G::Scalar, I>> {
        self.spec_mid().1
    }

    /// Appends a leaf node under `parent`: the child sits one edge further
    /// from the root, in the parent's tree, and the parent gains a branch.
    fn add_leaf_node(&mut self, position: G::Point, parent: NodeIdx)
        requires
            (parent.0 as usize) < old(self).spec_nodes().len(),
            old(self).spec_nodes()[parent.0 as int].branches < u32::MAX,
            old(self).spec_nodes()[parent.0 as int].length < u32::MAX,
        ensures
            final(self).spec_nodes() == old(self).spec_nodes().update(
                parent.0 as int,
                Node {
                    branches: (old(self).spec_nodes()[parent.0 as int].branches + 1) as u32,
                    ..old(self).spec_nodes()[parent.0 as int]
                },
            ).push(
                Node {
                    parent: parent,
                    root: old(self).spec_nodes()[parent.0 as int].root,
                    length: (old(self).spec_nodes()[parent.0 as int].length + 1) as u32,
                    branches: 0,
                    position: position,
                    growth: G::spec_zero(),
                    growth_count: 0,
                    assigned_information: None,
                },
            ),
            final(self).spec_attractors() == old(self).spec_attractors(),
            final(self).spec_params() == old(self).spec_params(),
            final(self).spec_iteration() == old(self).spec_iteration(),
    {
        let parent_idx = parent.0 as usize;
        let parent_node = self.nodes[parent_idx];
        self.nodes[parent_idx] = Node { branches: parent_node.branches + 1, ..parent_node };
        let root = parent_node.root;
        let length = parent_node.length + 1;
        let growth = G::zero();
        self.nodes.push(
            Node {
                parent,
                root,
                length,
                branches: 0,
                position,
                growth,
                growth_count: 0,
                assigned_information: None,
            },
        );
    }

    /// One growth iteration; the entire algorithm.
    ///
    /// Every attractor, processed independently in order: an inert one is
    /// skipped; otherwise the scan window is searched as [`scan_spec`]
    /// describes, and a contact hands the attractor's information to the
    /// connecting node and runs the connect action, while a plain
    /// attraction adds one weighted unit pull to the nearest node.  Then
    /// every node of the pre-step window pulled at least once spawns one
    /// leaf node.  The new state is exactly [`Self::spec_step_nodes`] and
    /// [`Self::spec_step_attractors`]; the returned count is the number of
    /// nodes the step appended, so a caller may loop until it reaches 0 —
    /// the algorithm itself does not guarantee termination (nodes can
    /// oscillate between attractors), so callers must bound the number of
    /// iterations themselves.
    ///
    /// A node whose pulls cancel exactly still spawns: its child's
    /// position is whatever the [`Space`] implementation makes of
    /// normalizing a zero vector (see [`Space::spec_normalize`]).
    pub fn next(&mut self) -> (r: Option<usize>)
        requires
            old(self).wf(),
            old(self).spec_iteration() < u32::MAX,
            old(self).spec_nodes().len() <= u32::MAX as usize,
        ensures
            final(self).wf(),
            final(self).spec_nodes() == old(self).spec_step_nodes(),
            final(self).spec_attractors() == old(self).spec_step_attractors(),
            final(self).spec_iteration() == old(self).spec_iteration() + 1,
            final(self).spec_params() == old(self).spec_params(),
            (match r {
                Some(count) => old(self).spec_nodes().len() + count == final(self).spec_nodes().len(),
                None => false,
            }),
    {
        let ghost s0 = self.nodes@;
        let ghost a0 = self.attractors@;
        let max_length = self.max_length;
        let max_branches = self.max_branches;
        let current_iteration = self.next_iteration;
        self.next_iteration = current_iteration + 1;
        let num_nodes = self.nodes.len();
        let use_last_nodes: usize = match self.use_last_n_nodes {
            Some(n) => if n < num_nodes {
                n
            } else {
                num_nodes
            },
            None => num_nodes,
        };
        let start_index = num_nodes - use_last_nodes;
        proof {
            assert(start_index as int == old(self).spec_window_start());
        }

        // Attractor pass: find, for each attractor, a connecting node or
        // the nearest attracted node, and apply the effect.
        proof {
            assert forall|m: int| 0 <= m < s0.len() implies (#[trigger] s0[m]).growth_count == 0
                && s0[m].growth == G::spec_zero() by {
                assert(nodes_quiescent::<G, I>(s0));
            }
        }
        let mut ap_idx: usize = 0;
        while ap_idx < self.attractors.len()
            invariant
                old(self).wf(),
                current_iteration == old(self).spec_iteration(),
                current_iteration < u32::MAX,
                num_nodes == s0.len(),
                s0.len() <= u32::MAX as usize,
                start_index <= num_nodes,
                s0 == old(self).spec_nodes(),
                a0 == old(self).spec_attractors(),
                self.spec_iteration() == current_iteration + 1,
                self.spec_params() == old(self).spec_params(),
                max_length == old(self).spec_max_length(),
                max_branches == old(self).spec_max_branches(),
                ap_idx <= self.spec_attractors().len(),
                self.spec_nodes().len() == s0.len(),
                structural_agree(s0, self.spec_nodes()),
                forall|m: int| 0 <= m < start_index ==> self.spec_nodes()[m] == s0[m],
                forall|m: int| 0 <= m < s0.len()
                    && (#[trigger] self.spec_nodes()[m]).growth_count > 0
                    ==> node_active(self.spec_nodes()[m], max_length, max_branches),
                forall|m: int| 0 <= m < s0.len()
                    && (#[trigger] self.spec_nodes()[m]).growth_count == 0
                    ==> self.spec_nodes()[m].growth == G::spec_zero(),
                step_attractors::<G, I>(
                    self.spec_nodes(),
                    self.spec_attractors(),
                    ap_idx as int,
                    current_iteration,
                    start_index as int,
                    max_length,
                    max_branches,
                ) == step_attractors::<G, I>(
                    s0,
                    a0,
                    0,
                    current_iteration,
                    start_index as int,
                    max_length,
                    max_branches,
                ),
            decreases self.spec_attractors().len() - ap_idx,
        {
            let a = self.attractors[ap_idx];
            if !a.is_active_in(current_iteration) {
                ap_idx = ap_idx + 1;
                continue;
            }
            let r = scan_window::<G, I>(&self.nodes, &a, start_index, max_length, max_branches);
            match r {
                Scan::Contact(c) => {
                    let ghost pre = self.nodes@;
                    let connect_root = self.nodes[c].root;
                    let mut cn = self.nodes[c];
                    cn.transmit_information(a.information);
                    self.nodes[c] = cn;
                    proof {
                        assert(self.nodes@ =~= pre.update(
                            c as int,
                            Node { assigned_information: Some(a.information), ..pre[c as int] },
                        ));
                    }
                    match a.connect_action {
                        ConnectAction::KillAttractor => {
                            let ghost pa = self.attractors@;
                            let _removed = self.attractors.swap_remove(ap_idx);
                            proof {
                                assert(self.attractors@ =~= swap_removed(pa, ap_idx as int));
                            }
                        },
                        ConnectAction::DisableFor { iterations } => {
                            let until = if iterations > u32::MAX - current_iteration {
                                u32::MAX
                            } else {
                                current_iteration + iterations
                            };
                            let mut ca = self.attractors[ap_idx];
                            ca.disable_until(until);
                            self.attractors[ap_idx] = ca;
                            ap_idx = ap_idx + 1;
                        },
                        ConnectAction::DisableForConnectingRoot => {
                            let mut ca = self.attractors[ap_idx];
                            ca.not_for_connecting_root = Some(connect_root);
                            self.attractors[ap_idx] = ca;
                            ap_idx = ap_idx + 1;
                        },
                    }
                },
                Scan::Attract(j) => {
                    let n = self.nodes[j];
                    let dir = G::delta(&n.position, &a.position);
                    let unit = G::normalize(&dir);
                    let pull = G::scale(&unit, &a.strength);
                    let growth = G::add_vec(&n.growth, &pull);
                    let growth_count = if n.growth_count == u32::MAX {
                        u32::MAX
                    } else {
                        n.growth_count + 1
                    };
                    self.nodes[j] = Node { growth, growth_count, ..n };
                    ap_idx = ap_idx + 1;
                },
                Scan::Miss => {
                    ap_idx = ap_idx + 1;
                },
            }
        }

        let ghost mid = self.nodes@;
        let ghost mid_ats = self.attractors@;
        proof {
            assert((mid, mid_ats) == old(self).spec_mid());
            lemma_wf_structural(s0, mid);
            assert forall|m: int| 0 <= m < mid.len() && !(start_index <= m < num_nodes) implies
                (#[trigger] mid[m]).growth_count == 0 && mid[m].growth == G::spec_zero() by {
                assert(mid[m] == s0[m]);
                assert(nodes_quiescent::<G, I>(s0));
                assert(s0[m].growth_count == 0 && s0[m].growth == G::spec_zero());
            }
        }

        // Spawning pass: every node of the pre-step window that was pulled
        // spawns one leaf node and has its accumulator reset.
        let mut i: usize = start_index;
        while i < num_nodes
            invariant
                start_index <= i <= num_nodes,
                num_nodes == s0.len(),
                s0.len() <= u32::MAX as usize,
                num_nodes <= self.spec_nodes().len(),
                self.spec_iteration() == current_iteration + 1,
                self.spec_params() == old(self).spec_params(),
                max_length == old(self).spec_max_length(),
                max_branches == old(self).spec_max_branches(),
                self.spec_attractors() == mid_ats,
                nodes_wf(self.spec_nodes()),
                forall|m: int| 0 <= m < self.spec_nodes().len() && !(i <= m < num_nodes)
                    ==> (#[trigger] self.spec_nodes()[m]).growth_count == 0
                        && self.spec_nodes()[m].growth == G::spec_zero(),
                forall|m: int| i <= m < num_nodes
                    && (#[trigger] self.spec_nodes()[m]).growth_count > 0
                    ==> node_active(self.spec_nodes()[m], max_length, max_branches),
                forall|m: int| i <= m < num_nodes
                    && (#[trigger] self.spec_nodes()[m]).growth_count == 0
                    ==> self.spec_nodes()[m].growth == G::spec_zero(),
                spawn_from::<G, I>(
                    self.spec_nodes(),
                    i as int,
                    num_nodes as int,
                    old(self).spec_move_dist(),
                ) == spawn_from::<G, I>(
                    mid,
                    start_index as int,
                    num_nodes as int,
                    old(self).spec_move_dist(),
                ),
            decreases num_nodes - i,
        {
            let growth_count = self.nodes[i].growth_count;
            if growth_count > 0 {
                let ghost pre = self.nodes@;
                let n = self.nodes[i];
                let unit = G::normalize(&n.growth);
                let d = G::scale(&unit, &self.move_dist);
                let new_position = G::translate(&n.position, &d);
                self.add_leaf_node(new_position, NodeIdx(i as u32));
                let mut pn = self.nodes[i];
                pn.growth = G::zero();
                pn.growth_count = 0;
                self.nodes[i] = pn;
                proof {
                    let li = i as int;
                    let post = self.nodes@;
                    let parent2 = Node {
                        branches: (pre[li].branches + 1) as u32,
                        growth: G::spec_zero(),
                        growth_count: 0,
                        ..pre[li]
                    };
                    let child = spawned_child::<G, I>(pre, li, old(self).spec_move_dist());
                    assert(post =~= pre.update(li, parent2).push(child));
                    let ln = pre.len() as int;
                    assert forall|m: int| 0 <= m < post.len() implies #[trigger] node_wf_at(post, m) by {
                        if m < ln {
                            assert(node_wf_at(pre, m));
                            lemma_child_count_agree(pre, post, m, ln);
                            assert(child_count(post, m, ln + 1) == child_count(post, m, ln)
                                + if post[ln].parent.0 == m && ln != m { 1nat } else { 0nat });
                        } else {
                            assert(node_wf_at(pre, li));
                            assert forall|jj: int| 0 <= jj < ln + 1 implies
                                (#[trigger] post[jj]).parent.0 != ln || jj == ln by {
                                if jj < ln {
                                    assert(node_wf_at(pre, jj));
                                }
                            }
                            lemma_child_count_none(post, ln, ln);
                            assert(child_count(post, ln, ln + 1) == 0);
                        }
                    }
                }
            }
            i = i + 1;
        }
        proof {
            assert(self.nodes@ == old(self).spec_step_nodes());
        }
        let count = self.nodes.len() - num_nodes;
        Some(count)
    }

    /// The position of every attractor, in collection order.  Read-only: a
    /// function of the engine state alone.
    pub fn visit_attractor_points(&self) -> (r: Vec<G::Point>)
        ensures
            r@.len() == self.spec_attractors().len(),
            forall|j: int| 0 <= j < r@.len()
                ==> (#[trigger] r@[j]) == self.spec_attractors()[j].position,
    {
        let mut r: Vec<G::Point> = Vec::new();
        let mut k: usize = 0;
        while k < self.attractors.len()
            invariant
                k <= self.spec_attractors().len(),
                r@.len() == k,
                forall|j: int| 0 <= j < k
                    ==> (#[trigger] r@[j]) == self.spec_attractors()[j].position,
            decreases self.spec_attractors().len() - k,
        {
            r.push(self.attractors[k].position);
            k = k + 1;
        }
        r
    }

    /// Every attractor record, in collection order.  Read-only: a function
    /// of the engine state alone.
    pub fn visit_attractors(&self) -> (r: Vec<Attractor<G::Point, G::Scalar, I>>)
        ensures
            r@ == self.spec_attractors(),
    {
        let mut r: Vec<Attractor<G::Point, G::Scalar, I>> = Vec::new();
        let mut k: usize = 0;
        while k < self.attractors.len()
            invariant
                k <= self.spec_attractors().len(),
                r@ == self.spec_attractors().take(k as int),
            decreases self.spec_attractors().len() - k,
        {
            r.push(self.attractors[k]);
            proof {
                assert(r@ =~= self.spec_attractors().take(k + 1));
            }
            k = k + 1;
        }
        proof {
            assert(self.spec_attractors().take(self.spec_attractors().len() as int)
                =~= self.spec_attractors());
        }
        r
    }

    /// Every tree edge as a pair (child position, parent position), in
    /// arena order, roots skipped.  Read-only: a function of the engine
    /// state alone.
    pub fn visit_node_segments(&self) -> (r: Vec<(G::Point, G::Point)>)
        requires
            self.wf(),
        ensures
            r@ == segments_of(self.spec_nodes(), self.spec_nodes().len() as int),
    {
        let mut r: Vec<(G::Point, G::Point)> = Vec::new();
        let mut k: usize = 0;
        while k < self.nodes.len()
            invariant
                self.wf(),
                k <= self.spec_nodes().len(),
                r@ == segments_of(self.spec_nodes(), k as int),
            decreases self.spec_nodes().len() - k,
        {
            let node = self.nodes[k];
            proof {
                assert(node_wf_at(self.spec_nodes(), k as int));
            }
            if !node.is_root() {
                let parent = self.nodes[node.parent.0 as usize];
                r.push((node.position, parent.position));
            }
            k = k + 1;
        }
        r
    }

    /// Every non-root node that carries information, paired with the root
    /// node of its tree, in arena order.  Root nodes themselves are
    /// skipped even when they carry information.  Read-only: a function of
    /// the engine state alone.
    pub fn visit_nodes_with_info_and_root(&self) -> (r: Vec<
        (Node<G::Point, G::Vector, I>, Node<G::Point, G::Vector, I>),
    >)
        requires
            self.wf(),
        ensures
            r@ == info_nodes_of(self.spec_nodes(), self.spec_nodes().len() as int),
    {
        let mut r: Vec<(Node<G::Point, G::Vector, I>, Node<G::Point, G::Vector, I>)> = Vec::new();
        let mut k: usize = 0;
        while k < self.nodes.len()
            invariant
                self.wf(),
                k <= self.spec_nodes().len(),
                r@ == info_nodes_of(self.spec_nodes(), k as int),
            decreases self.spec_nodes().len() - k,
        {
            let node = self.nodes[k];
            proof {
                assert(node_wf_at(self.spec_nodes(), k as int));
            }
            if node.assigned_information.is_some() && !node.is_root() {
                let root = self.nodes[node.root.0 as usize];
                r.push((node, root));
            }
            k = k + 1;
        }
        r
    }

    /// Every root node, in arena order.  Read-only: a function of the
    /// engine state alone.
    pub fn visit_root_nodes(&self) -> (r: Vec<Node<G::Point, G::Vector, I>>)
        requires
            self.wf(),
        ensures
            r@ == roots_of(self.spec_nodes(), self.spec_nodes().len() as int),
    {
        let mut r: Vec<Node<G::Point, G::Vector, I>> = Vec::new();
        let mut k: usize = 0;
        while k < self.nodes.len()
            invariant
                self.wf(),
                k <= self.spec_nodes().len(),
                r@ == roots_of(self.spec_nodes(), k as int),
            decreases self.spec_nodes().len() - k,
        {
            let node = self.nodes[k];
            proof {
                assert(node_wf_at(self.spec_nodes(), k as int));
            }
            if node.is_root() {
                r.push(node);
            }
            k = k + 1;
        }
        r
    }
}

} // verus!
