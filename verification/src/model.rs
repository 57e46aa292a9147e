//! The mathematical model of the engine.
//!
//! Everything the engine promises is stated over the specification
//! functions of this module: eligibility of a node for an attractor, the
//! outcome of one attractor's scan over the node window, the combined
//! effect of processing the whole attractor collection, and the spawning
//! pass that turns accumulated pulls into new leaf nodes.  The step
//! operation of the engine is proved equal to [`step_attractors`] followed
//! by [`spawn_from`].

use vstd::prelude::*;
use crate::attractor::Attractor;
use crate::attractor::ConnectAction;
use crate::geometry::Space;
use crate::tree::Node;
use crate::tree::NodeIdx;

verus! {

/// `a + b`, saturating at the largest `u32`.
pub open spec fn sat_add_u32(a: u32, b: u32) -> u32 {
    if a + b > u32::MAX {
        u32::MAX
    } else {
        (a + b) as u32
    }
}

/// A node keeps growing while it is under both limits.
pub open spec fn node_active<P, V, I>(n: Node<P, V, I>, max_length: u32, max_branches: u32) -> bool {
    n.length < max_length && n.branches < max_branches
}

/// Neither exclusion filter of `a` names the tree rooted at `root`.
pub open spec fn attractor_allows<P, S, I>(a: Attractor<P, S, I>, root: NodeIdx) -> bool {
    a.not_for_root != Some(root) && a.not_for_connecting_root != Some(root)
}

/// A node takes part in the scan for `a`: it is still active and its tree
/// is not excluded.
pub open spec fn eligible<P, V, S, I>(
    n: Node<P, V, I>,
    a: Attractor<P, S, I>,
    max_length: u32,
    max_branches: u32,
) -> bool {
    node_active(n, max_length, max_branches) && attractor_allows(a, n.root)
}

/// The squared distance between node `k` of `s` and the attractor, in the
/// encoding of `SqDist`.
pub open spec fn sqd<G: Space, I>(
    s: Seq<Node<G::Point, G::Vector, I>>,
    a: Attractor<G::Point, G::Scalar, I>,
    k: int,
) -> u64 {
    G::spec_sqdist(s[k].position, a.position).0
}

/// Node `k` of `s` connects with `a`: it is eligible and strictly within
/// the connect radius.  The boundary is excluded: a node exactly at the
/// connect distance does not connect.
pub open spec fn is_contact<G: Space, I>(
    s: Seq<Node<G::Point, G::Vector, I>>,
    a: Attractor<G::Point, G::Scalar, I>,
    k: int,
    max_length: u32,
    max_branches: u32,
) -> bool {
    eligible(s[k], a, max_length, max_branches) && sqd::<G, I>(s, a, k) < a.connect_dist.0
}

/// The outcome of one attractor's scan over the node window.
pub enum Scan {
    /// The first node found within the connect radius, by scan order.
    Contact(usize),
    /// No node connected; the nearest node strictly within the attraction
    /// radius (earliest such node on a tie).
    Attract(usize),
    /// No node connected and none was within the attraction radius.
    Miss,
}

/// The scan from position `k` onward, with `best` the index of the closest
/// eligible node seen so far.  The scan stops at the first contact; a node
/// becomes the new candidate only when strictly closer than the current
/// one (and strictly within the attraction radius), so ties keep the
/// earlier node.
pub open spec fn scan_from<G: Space, I>(
    s: Seq<Node<G::Point, G::Vector, I>>,
    a: Attractor<G::Point, G::Scalar, I>,
    k: int,
    best: Option<int>,
    max_length: u32,
    max_branches: u32,
) -> Scan
    decreases s.len() - k,
{
    if k >= s.len() {
        match best {
            Some(j) => Scan::Attract(j as usize),
            None => Scan::Miss,
        }
    } else if is_contact::<G, I>(s, a, k, max_length, max_branches) {
        Scan::Contact(k as usize)
    } else if eligible(s[k], a, max_length, max_branches) && sqd::<G, I>(s, a, k) < (match best {
        Some(j) => sqd::<G, I>(s, a, j),
        None => a.attract_dist.0,
    }) {
        scan_from::<G, I>(s, a, k + 1, Some(k), max_length, max_branches)
    } else {
        scan_from::<G, I>(s, a, k + 1, best, max_length, max_branches)
    }
}

/// The outcome of scanning the window `start..` of `s` for `a`.
pub open spec fn scan_spec<G: Space, I>(
    s: Seq<Node<G::Point, G::Vector, I>>,
    a: Attractor<G::Point, G::Scalar, I>,
    start: int,
    max_length: u32,
    max_branches: u32,
) -> Scan {
    scan_from::<G, I>(s, a, start, None, max_length, max_branches)
}

/// The sequence with element `i` removed by swap-remove: the last element
/// moves into slot `i` and the length shrinks by one.
pub open spec fn swap_removed<T>(s: Seq<T>, i: int) -> Seq<T> {
    s.update(i, s.last()).drop_last()
}

/// The node `n` with the pull of `a` accumulated: a unit vector from the
/// node toward the attractor, scaled by the attractor's strength, is added
/// to the growth accumulator and the pull count is increased.
pub open spec fn attracted_node<G: Space, I>(
    n: Node<G::Point, G::Vector, I>,
    a: Attractor<G::Point, G::Scalar, I>,
) -> Node<G::Point, G::Vector, I> {
    Node {
        growth: G::spec_add_vec(
            n.growth,
            G::spec_scale(G::spec_normalize(G::spec_delta(n.position, a.position)), a.strength),
        ),
        growth_count: sat_add_u32(n.growth_count, 1),
        ..n
    }
}

/// The effect of processing attractors `i..` on the nodes and on the
/// attractor collection.
///
/// An inert attractor is skipped.  Otherwise its scan either connects —
/// the information is handed to the connecting node and the connect action
/// runs (a kill swap-removes the attractor and the slot, now holding a
/// different attractor, is processed again without advancing) — or pulls
/// the nearest node in range, or does nothing.
pub open spec fn step_attractors<G: Space, I>(
    s: Seq<Node<G::Point, G::Vector, I>>,
    ats: Seq<Attractor<G::Point, G::Scalar, I>>,
    i: int,
    current_iteration: u32,
    start: int,
    max_length: u32,
    max_branches: u32,
) -> (Seq<Node<G::Point, G::Vector, I>>, Seq<Attractor<G::Point, G::Scalar, I>>)
    decreases ats.len() - i,
{
    if i < 0 || i >= ats.len() {
        (s, ats)
    } else {
        let a = ats[i];
        if current_iteration < a.active_from_iteration {
            step_attractors::<G, I>(s, ats, i + 1, current_iteration, start, max_length, max_branches)
        } else {
            match scan_spec::<G, I>(s, a, start, max_length, max_branches) {
                Scan::Contact(c) => {
                    let s2 = s.update(
                        c as int,
                        Node { assigned_information: Some(a.information), ..s[c as int] },
                    );
                    match a.connect_action {
                        ConnectAction::KillAttractor => step_attractors::<G, I>(
                            s2,
                            swap_removed(ats, i),
                            i,
                            current_iteration,
                            start,
                            max_length,
                            max_branches,
                        ),
                        ConnectAction::DisableFor { iterations } => step_attractors::<G, I>(
                            s2,
                            ats.update(
                                i,
                                Attractor {
                                    active_from_iteration: sat_add_u32(current_iteration, iterations),
                                    ..a
                                },
                            ),
                            i + 1,
                            current_iteration,
                            start,
                            max_length,
                            max_branches,
                        ),
                        ConnectAction::DisableForConnectingRoot => step_attractors::<G, I>(
                            s2,
                            ats.update(
                                i,
                                Attractor { not_for_connecting_root: Some(s[c as int].root), ..a },
                            ),
                            i + 1,
                            current_iteration,
                            start,
                            max_length,
                            max_branches,
                        ),
                    }
                },
                Scan::Attract(j) => step_attractors::<G, I>(
                    s.update(j as int, attracted_node::<G, I>(s[j as int], a)),
                    ats,
                    i + 1,
                    current_iteration,
                    start,
                    max_length,
                    max_branches,
                ),
                Scan::Miss => step_attractors::<G, I>(
                    s,
                    ats,
                    i + 1,
                    current_iteration,
                    start,
                    max_length,
                    max_branches,
                ),
            }
        }
    }
}

/// The child spawned from node `i` of `s`: a fresh leaf one edge further
/// from the root, placed one step of length `move_dist` from the parent in
/// the direction of the parent's accumulated growth.
pub open spec fn spawned_child<G: Space, I>(
    s: Seq<Node<G::Point, G::Vector, I>>,
    i: int,
    move_dist: G::Scalar,
) -> Node<G::Point, G::Vector, I> {
    Node {
        parent: NodeIdx(i as u32),
        root: s[i].root,
        length: (s[i].length + 1) as u32,
        branches: 0,
        position: G::spec_translate(
            s[i].position,
            G::spec_scale(G::spec_normalize(s[i].growth), move_dist),
        ),
        growth: G::spec_zero(),
        growth_count: 0,
        assigned_information: None,
    }
}

/// The spawning pass over the window `i..end`: every node pulled by at
/// least one attractor this iteration spawns one child, gets one more
/// branch, and has its growth accumulator reset.
pub open spec fn spawn_from<G: Space, I>(
    s: Seq<Node<G::Point, G::Vector, I>>,
    i: int,
    end: int,
    move_dist: G::Scalar,
) -> Seq<Node<G::Point, G::Vector, I>>
    decreases end - i,
{
    if i >= end {
        s
    } else if s[i].growth_count > 0 {
        let parent2 = Node {
            branches: (s[i].branches + 1) as u32,
            growth: G::spec_zero(),
            growth_count: 0,
            ..s[i]
        };
        spawn_from::<G, I>(
            s.update(i, parent2).push(spawned_child::<G, I>(s, i, move_dist)),
            i + 1,
            end,
            move_dist,
        )
    } else {
        spawn_from::<G, I>(s, i + 1, end, move_dist)
    }
}

/// The number of nodes among the first `upto` of `s` whose parent is node
/// `p` — a root's self-reference does not count.
pub open spec fn child_count<P, V, I>(s: Seq<Node<P, V, I>>, p: int, upto: int) -> nat
    decreases upto,
{
    if upto <= 0 {
        0
    } else {
        child_count(s, p, upto - 1) + if s[upto - 1].parent.0 == p && upto - 1 != p {
            1nat
        } else {
            0nat
        }
    }
}

/// Well-formedness of node `i` within the arena `s`.
///
/// A root is its own parent and root and has length 0; every other node
/// points at a strictly earlier parent, sits one edge further from the
/// root than its parent, belongs to its parent's tree, and its tree's root
/// really is a root.  The branch counter equals the number of children.
pub open spec fn node_wf_at<P, V, I>(s: Seq<Node<P, V, I>>, i: int) -> bool {
    let n = s[i];
    &&& n.parent.0 <= i
    &&& n.root.0 <= i
    &&& (n.length == 0 <==> n.parent.0 == i)
    &&& (n.length == 0 ==> n.root.0 == i)
    &&& (n.length > 0 ==> n.length == s[n.parent.0 as int].length + 1
        && n.root == s[n.parent.0 as int].root)
    &&& s[n.root.0 as int].length == 0
    &&& n.branches == child_count(s, i, s.len() as int)
}

/// Well-formedness of the whole arena.
pub open spec fn nodes_wf<P, V, I>(s: Seq<Node<P, V, I>>) -> bool {
    forall|i: int| 0 <= i < s.len() ==> #[trigger] node_wf_at(s, i)
}

/// Between iterations no pull is pending: every growth accumulator is the
/// zero vector and every pull count is 0.
pub open spec fn nodes_quiescent<G: Space, I>(s: Seq<Node<G::Point, G::Vector, I>>) -> bool {
    forall|i: int| 0 <= i < s.len() ==> (#[trigger] s[i].growth_count) == 0
        && s[i].growth == G::spec_zero()
}

/// The tree edges among the first `n` nodes of `s`, in arena order: one
/// pair (child position, parent position) for every non-root node.
pub open spec fn segments_of<P, V, I>(s: Seq<Node<P, V, I>>, n: int) -> Seq<(P, P)>
    decreases n,
{
    if n <= 0 {
        Seq::empty()
    } else {
        let r = segments_of(s, n - 1);
        if s[n - 1].length > 0 {
            r.push((s[n - 1].position, s[s[n - 1].parent.0 as int].position))
        } else {
            r
        }
    }
}

/// The non-root nodes among the first `n` of `s` that carry information,
/// each paired with the root node of its tree, in arena order.
pub open spec fn info_nodes_of<P, V, I>(
    s: Seq<Node<P, V, I>>,
    n: int,
) -> Seq<(Node<P, V, I>, Node<P, V, I>)>
    decreases n,
{
    if n <= 0 {
        Seq::empty()
    } else {
        let r = info_nodes_of(s, n - 1);
        if s[n - 1].assigned_information is Some && s[n - 1].length > 0 {
            r.push((s[n - 1], s[s[n - 1].root.0 as int]))
        } else {
            r
        }
    }
}

/// The root nodes among the first `n` of `s`, in arena order.
pub open spec fn roots_of<P, V, I>(s: Seq<Node<P, V, I>>, n: int) -> Seq<Node<P, V, I>>
    decreases n,
{
    if n <= 0 {
        Seq::empty()
    } else {
        let r = roots_of(s, n - 1);
        if s[n - 1].length == 0 {
            r.push(s[n - 1])
        } else {
            r
        }
    }
}

/// Child counts depend only on the parent fields of the counted prefix.
pub proof fn lemma_child_count_agree<P, V, I>(
    s1: Seq<Node<P, V, I>>,
    s2: Seq<Node<P, V, I>>,
    p: int,
    upto: int,
)
    requires
        forall|j: int| 0 <= j < upto ==> (#[trigger] s1[j]).parent == s2[j].parent,
    ensures
        child_count(s1, p, upto) == child_count(s2, p, upto),
    decreases upto,
{
    if upto > 0 {
        lemma_child_count_agree(s1, s2, p, upto - 1);
    }
}

/// A node none of the prefix points at has no children there.
pub proof fn lemma_child_count_none<P, V, I>(s: Seq<Node<P, V, I>>, p: int, upto: int)
    requires
        forall|j: int| 0 <= j < upto ==> (#[trigger] s[j]).parent.0 != p || j == p,
    ensures
        child_count(s, p, upto) == 0,
    decreases upto,
{
    if upto > 0 {
        lemma_child_count_none(s, p, upto - 1);
    }
}

/// Two arenas that agree on every structural field (parent, root, length,
/// branch counter) around index `i` are well formed at `i` together.
pub open spec fn structural_agree<P, V, I>(s1: Seq<Node<P, V, I>>, s2: Seq<Node<P, V, I>>) -> bool {
    s1.len() == s2.len() && forall|j: int| 0 <= j < s1.len() ==> (#[trigger] s1[j]).parent == s2[j].parent
        && s1[j].root == s2[j].root && s1[j].length == s2[j].length && s1[j].branches == s2[j].branches
}

/// Well-formedness only reads the structural fields, so it carries over to
/// any arena that agrees on them.
pub proof fn lemma_wf_structural<P, V, I>(s1: Seq<Node<P, V, I>>, s2: Seq<Node<P, V, I>>)
    requires
        nodes_wf(s1),
        structural_agree(s1, s2),
    ensures
        nodes_wf(s2),
{
    assert forall|i: int| 0 <= i < s2.len() implies #[trigger] node_wf_at(s2, i) by {
        assert(node_wf_at(s1, i));
        lemma_child_count_agree(s1, s2, i, s1.len() as int);
    }
}

} // verus!
