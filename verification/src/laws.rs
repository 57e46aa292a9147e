//! The laws of the engine, each proved once and for all.

use vstd::prelude::*;
use crate::attractor::Attractor;
use crate::attractor::ConnectAction;
use crate::engine::SpaceColonization;
use crate::geometry::Space;
use crate::model::child_count;
use crate::model::eligible;
use crate::model::info_nodes_of;
use crate::model::is_contact;
use crate::model::node_wf_at;
use crate::model::nodes_wf;
use crate::model::roots_of;
use crate::model::sat_add_u32;
use crate::model::scan_from;
use crate::model::scan_spec;
use crate::model::segments_of;
use crate::model::sqd;
use crate::model::step_attractors;
use crate::model::swap_removed;
use crate::model::Scan;
use crate::tree::Node;

verus! {

/// The connect boundary is exclusive: a node exactly at the squared
/// connect distance does not connect, while an eligible node strictly
/// inside it does.
pub proof fn lemma_connect_boundary<G: Space, I>(
    s: Seq<Node<G::Point, G::Vector, I>>,
    a: Attractor<G::Point, G::Scalar, I>,
    k: int,
    max_length: u32,
    max_branches: u32,
)
    requires
        0 <= k < s.len(),
    ensures
        sqd::<G, I>(s, a, k) == a.connect_dist.0 ==> !is_contact::<G, I>(s, a, k, max_length, max_branches),
        eligible(s[k], a, max_length, max_branches) && sqd::<G, I>(s, a, k) < a.connect_dist.0
            ==> is_contact::<G, I>(s, a, k, max_length, max_branches),
{
}

/// A root node is its own parent and its own root.  Well-formedness is
/// established when a root is inserted and preserved by every later step,
/// so this holds for the life of the engine.
pub proof fn lemma_root_node_form<P, V, I>(s: Seq<Node<P, V, I>>, i: int)
    requires
        nodes_wf(s),
        0 <= i < s.len(),
        s[i].length == 0,
    ensures
        s[i].parent.0 == i,
        s[i].root.0 == i,
{
    assert(node_wf_at(s, i));
}

/// Every non-root node sits one edge further from the root than its
/// parent and belongs to its parent's tree; invariant across all steps.
pub proof fn lemma_child_links<P, V, I>(s: Seq<Node<P, V, I>>, i: int)
    requires
        nodes_wf(s),
        0 <= i < s.len(),
        s[i].length > 0,
    ensures
        s[i].parent.0 < i,
        s[i].length == s[s[i].parent.0 as int].length + 1,
        s[i].root == s[s[i].parent.0 as int].root,
{
    assert(node_wf_at(s, i));
}

/// The branch counter of every node equals the number of nodes whose
/// parent it is, at every point in time.
pub proof fn lemma_branch_count<P, V, I>(s: Seq<Node<P, V, I>>, i: int)
    requires
        nodes_wf(s),
        0 <= i < s.len(),
    ensures
        s[i].branches == child_count(s, i, s.len() as int),
{
    assert(node_wf_at(s, i));
}

/// A triggering contact with a kill attractor removes exactly one
/// attractor: the collection shrinks by one, slot `i` takes over the last
/// attractor, every other slot is untouched, and the processing goes on
/// with the shrunk collection — the killed attractor is gone from the
/// engine state, so no later step ever references it.
pub proof fn lemma_kill_removes_one<G: Space, I>(
    s: Seq<Node<G::Point, G::Vector, I>>,
    ats: Seq<Attractor<G::Point, G::Scalar, I>>,
    i: int,
    current_iteration: u32,
    start: int,
    max_length: u32,
    max_branches: u32,
    c: usize,
)
    requires
        0 <= i < ats.len(),
        current_iteration >= ats[i].active_from_iteration,
        scan_spec::<G, I>(s, ats[i], start, max_length, max_branches) == Scan::Contact(c),
        ats[i].connect_action == ConnectAction::KillAttractor,
    ensures
        step_attractors::<G, I>(s, ats, i, current_iteration, start, max_length, max_branches)
            == step_attractors::<G, I>(
                s.update(c as int, Node { assigned_information: Some(ats[i].information), ..s[c as int] }),
                swap_removed(ats, i),
                i,
                current_iteration,
                start,
                max_length,
                max_branches,
            ),
        swap_removed(ats, i).len() == ats.len() - 1,
        forall|j: int| 0 <= j < ats.len() - 1 && j != i ==> swap_removed(ats, i)[j] == ats[j],
        i < ats.len() - 1 ==> swap_removed(ats, i)[i] == ats.last(),
{
}

/// An attractor whose `active_from_iteration` lies in the future is
/// invisible: the step passes over it without any effect.
pub proof fn lemma_inert_attractor_skipped<G: Space, I>(
    s: Seq<Node<G::Point, G::Vector, I>>,
    ats: Seq<Attractor<G::Point, G::Scalar, I>>,
    i: int,
    current_iteration: u32,
    start: int,
    max_length: u32,
    max_branches: u32,
)
    requires
        0 <= i < ats.len(),
        current_iteration < ats[i].active_from_iteration,
    ensures
        step_attractors::<G, I>(s, ats, i, current_iteration, start, max_length, max_branches)
            == step_attractors::<G, I>(s, ats, i + 1, current_iteration, start, max_length, max_branches),
{
}

/// A contact with a `DisableFor { iterations: k }` attractor at iteration
/// `current` sets its `active_from_iteration` to `current + k`; the
/// attractor is then skipped by the scans of the next `k` iterations and
/// takes part again in the `(k + 1)`-th.
pub proof fn lemma_disable_for_window<G: Space, I>(
    s: Seq<Node<G::Point, G::Vector, I>>,
    ats: Seq<Attractor<G::Point, G::Scalar, I>>,
    i: int,
    current_iteration: u32,
    start: int,
    max_length: u32,
    max_branches: u32,
    c: usize,
    k: u32,
    it: u32,
)
    requires
        0 <= i < ats.len(),
        current_iteration >= ats[i].active_from_iteration,
        scan_spec::<G, I>(s, ats[i], start, max_length, max_branches) == Scan::Contact(c),
        ats[i].connect_action == (ConnectAction::DisableFor { iterations: k }),
        current_iteration + k <= u32::MAX,
    ensures
        step_attractors::<G, I>(s, ats, i, current_iteration, start, max_length, max_branches)
            == step_attractors::<G, I>(
                s.update(c as int, Node { assigned_information: Some(ats[i].information), ..s[c as int] }),
                ats.update(i, Attractor { active_from_iteration: (current_iteration + k) as u32, ..ats[i] }),
                i + 1,
                current_iteration,
                start,
                max_length,
                max_branches,
            ),
        current_iteration <= it < current_iteration + k
            ==> it < ats.update(
                i,
                Attractor { active_from_iteration: (current_iteration + k) as u32, ..ats[i] },
            )[i].active_from_iteration,
        it == current_iteration + k
            ==> it >= ats.update(
                i,
                Attractor { active_from_iteration: (current_iteration + k) as u32, ..ats[i] },
            )[i].active_from_iteration,
{
    assert(sat_add_u32(current_iteration, k) == (current_iteration + k) as u32);
}

/// What a scan outcome means, stated directly over the window.
///
/// A contact is the *first* eligible node of the window strictly within
/// the connect radius, in scan order — deliberately not the nearest one,
/// so the outcome depends on arena order when several nodes are in range.
/// An attraction happens only when no node at all connects, and picks the
/// strictly nearest eligible node within the attraction radius, the
/// earliest on a tie.  A miss means no node connects and none is within
/// the attraction radius.
pub open spec fn scan_matches<G: Space, I>(
    s: Seq<Node<G::Point, G::Vector, I>>,
    a: Attractor<G::Point, G::Scalar, I>,
    start: int,
    max_length: u32,
    max_branches: u32,
    r: Scan,
) -> bool {
    match r {
        Scan::Contact(c) => start <= c < s.len()
            && is_contact::<G, I>(s, a, c as int, max_length, max_branches)
            && (forall|m: int| start <= m < c
                ==> !is_contact::<G, I>(s, a, m, max_length, max_branches)),
        Scan::Attract(j) => start <= j < s.len()
            && (forall|m: int| start <= m < s.len()
                ==> !is_contact::<G, I>(s, a, m, max_length, max_branches))
            && eligible(s[j as int], a, max_length, max_branches)
            && sqd::<G, I>(s, a, j as int) < a.attract_dist.0
            && (forall|m: int| start <= m < j && eligible(s[m], a, max_length, max_branches)
                ==> sqd::<G, I>(s, a, j as int) < #[trigger] sqd::<G, I>(s, a, m))
            && (forall|m: int| j < m < s.len() && eligible(s[m], a, max_length, max_branches)
                ==> sqd::<G, I>(s, a, j as int) <= #[trigger] sqd::<G, I>(s, a, m)),
        Scan::Miss => (forall|m: int| start <= m < s.len()
            ==> !is_contact::<G, I>(s, a, m, max_length, max_branches))
            && (forall|m: int| start <= m < s.len() && eligible(s[m], a, max_length, max_branches)
                ==> #[trigger] sqd::<G, I>(s, a, m) >= a.attract_dist.0),
    }
}

/// The scan outcome satisfies its direct characterization
/// [`scan_matches`]: first-match contact, else strict-nearest attraction,
/// else miss.
pub proof fn lemma_scan_characterization<G: Space, I>(
    s: Seq<Node<G::Point, G::Vector, I>>,
    a: Attractor<G::Point, G::Scalar, I>,
    start: int,
    max_length: u32,
    max_branches: u32,
)
    requires
        0 <= start <= s.len(),
        s.len() <= usize::MAX,
    ensures
        scan_matches::<G, I>(
            s,
            a,
            start,
            max_length,
            max_branches,
            scan_spec::<G, I>(s, a, start, max_length, max_branches),
        ),
{
    lemma_scan_from_characterization::<G, I>(s, a, start, start, None, max_length, max_branches);
}

proof fn lemma_scan_from_characterization<G: Space, I>(
    s: Seq<Node<G::Point, G::Vector, I>>,
    a: Attractor<G::Point, G::Scalar, I>,
    start: int,
    k: int,
    best: Option<int>,
    max_length: u32,
    max_branches: u32,
)
    requires
        0 <= start <= k <= s.len(),
        s.len() <= usize::MAX,
        forall|m: int| start <= m < k ==> !is_contact::<G, I>(s, a, m, max_length, max_branches),
        (match best {
            Some(j) => start <= j < k && eligible(s[j], a, max_length, max_branches)
                && sqd::<G, I>(s, a, j) < a.attract_dist.0
                && (forall|m: int| start <= m < j && eligible(s[m], a, max_length, max_branches)
                    ==> sqd::<G, I>(s, a, j) < #[trigger] sqd::<G, I>(s, a, m))
                && (forall|m: int| j < m < k && eligible(s[m], a, max_length, max_branches)
                    ==> sqd::<G, I>(s, a, j) <= #[trigger] sqd::<G, I>(s, a, m)),
            None => forall|m: int| start <= m < k && eligible(s[m], a, max_length, max_branches)
                ==> #[trigger] sqd::<G, I>(s, a, m) >= a.attract_dist.0,
        }),
    ensures
        scan_matches::<G, I>(
            s,
            a,
            start,
            max_length,
            max_branches,
            scan_from::<G, I>(s, a, k, best, max_length, max_branches),
        ),
    decreases s.len() - k,
{
    if k >= s.len() {
    } else if is_contact::<G, I>(s, a, k, max_length, max_branches) {
    } else if eligible(s[k], a, max_length, max_branches) && sqd::<G, I>(s, a, k) < (match best {
        Some(j) => sqd::<G, I>(s, a, j),
        None => a.attract_dist.0,
    }) {
        assert forall|m: int| start <= m < k && eligible(s[m], a, max_length, max_branches) implies
            sqd::<G, I>(s, a, k) < #[trigger] sqd::<G, I>(s, a, m) by {
            match best {
                Some(j) => {
                    if m < j {
                        assert(sqd::<G, I>(s, a, j) < sqd::<G, I>(s, a, m));
                    }
                },
                None => {
                    assert(sqd::<G, I>(s, a, m) >= a.attract_dist.0);
                },
            }
        }
        lemma_scan_from_characterization::<G, I>(s, a, start, k + 1, Some(k), max_length, max_branches);
    } else {
        match best {
            Some(j) => {
                assert forall|m: int| j < m < k + 1 && eligible(s[m], a, max_length, max_branches)
                    implies sqd::<G, I>(s, a, j) <= #[trigger] sqd::<G, I>(s, a, m) by {
                    if m < k {
                        assert(sqd::<G, I>(s, a, j) <= sqd::<G, I>(s, a, m));
                    }
                }
            },
            None => {
                assert forall|m: int| start <= m < k + 1 && eligible(s[m], a, max_length, max_branches)
                    implies #[trigger] sqd::<G, I>(s, a, m) >= a.attract_dist.0 by {
                    if m < k {
                        assert(sqd::<G, I>(s, a, m) >= a.attract_dist.0);
                    }
                }
            },
        }
        lemma_scan_from_characterization::<G, I>(s, a, start, k + 1, best, max_length, max_branches);
    }
}

/// The read-only export is idempotent: each visitor's result is fixed by
/// the engine state alone, so any two results read from the same state —
/// in particular by repeated calls between steps — are identical.  (Each
/// visitor's contract equates its result to the specification named
/// here; reading takes `&self` and cannot change the state.)
pub proof fn lemma_visitors_idempotent<G: Space, I: Copy>(
    e: &SpaceColonization<G, I>,
    points1: Seq<G::Point>,
    points2: Seq<G::Point>,
    attractors1: Seq<Attractor<G::Point, G::Scalar, I>>,
    attractors2: Seq<Attractor<G::Point, G::Scalar, I>>,
    segments1: Seq<(G::Point, G::Point)>,
    segments2: Seq<(G::Point, G::Point)>,
    info1: Seq<(Node<G::Point, G::Vector, I>, Node<G::Point, G::Vector, I>)>,
    info2: Seq<(Node<G::Point, G::Vector, I>, Node<G::Point, G::Vector, I>)>,
    roots1: Seq<Node<G::Point, G::Vector, I>>,
    roots2: Seq<Node<G::Point, G::Vector, I>>,
)
    requires
        points1.len() == e.spec_attractors().len(),
        forall|j: int| 0 <= j < points1.len()
            ==> (#[trigger] points1[j]) == e.spec_attractors()[j].position,
        points2.len() == e.spec_attractors().len(),
        forall|j: int| 0 <= j < points2.len()
            ==> (#[trigger] points2[j]) == e.spec_attractors()[j].position,
        attractors1 == e.spec_attractors(),
        attractors2 == e.spec_attractors(),
        segments1 == segments_of(e.spec_nodes(), e.spec_nodes().len() as int),
        segments2 == segments_of(e.spec_nodes(), e.spec_nodes().len() as int),
        info1 == info_nodes_of(e.spec_nodes(), e.spec_nodes().len() as int),
        info2 == info_nodes_of(e.spec_nodes(), e.spec_nodes().len() as int),
        roots1 == roots_of(e.spec_nodes(), e.spec_nodes().len() as int),
        roots2 == roots_of(e.spec_nodes(), e.spec_nodes().len() as int),
    ensures
        points1 == points2,
        attractors1 == attractors2,
        segments1 == segments2,
        info1 == info2,
        roots1 == roots2,
{
    assert(points1 =~= points2);
}

} // verus!
