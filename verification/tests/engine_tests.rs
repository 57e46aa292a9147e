//! End-to-end tests of the engine over a concrete 2D floating-point
//! geometry supplied, as in any real use, by the caller.

use space_colonization::ConnectAction;
use space_colonization::Attractor;
use space_colonization::NodeIdx;
use space_colonization::Space;
use space_colonization::SpaceColonization;
use space_colonization::SqDist;

/// The Euclidean plane with `f64` coordinates.
#[derive(Debug, Clone, Copy, PartialEq)]
struct Plane;

impl Space for Plane {
    type Point = (f64, f64);
    type Vector = (f64, f64);
    type Scalar = f64;

    fn sqdist(a: &(f64, f64), b: &(f64, f64)) -> SqDist {
        let dx = a.0 - b.0;
        let dy = a.1 - b.1;
        sq_encode(dx * dx + dy * dy)
    }

    fn delta(from: &(f64, f64), to: &(f64, f64)) -> (f64, f64) {
        (to.0 - from.0, to.1 - from.1)
    }

    fn add_vec(a: &(f64, f64), b: &(f64, f64)) -> (f64, f64) {
        (a.0 + b.0, a.1 + b.1)
    }

    fn scale(v: &(f64, f64), s: &f64) -> (f64, f64) {
        (v.0 * s, v.1 * s)
    }

    fn normalize(v: &(f64, f64)) -> (f64, f64) {
        let n = (v.0 * v.0 + v.1 * v.1).sqrt();
        (v.0 / n, v.1 / n)
    }

    fn translate(p: &(f64, f64), v: &(f64, f64)) -> (f64, f64) {
        (p.0 + v.0, p.1 + v.1)
    }

    fn zero() -> (f64, f64) {
        (0.0, 0.0)
    }

    fn one() -> f64 {
        1.0
    }
}

/// Encodes a non-negative squared distance: the bit pattern of a
/// non-negative IEEE float is ordered like the float itself.
fn sq_encode(sq: f64) -> SqDist {
    SqDist(sq.to_bits())
}

/// Encodes the square of a plain distance.
fn sq_of(d: f64) -> SqDist {
    sq_encode(d * d)
}

type Engine = SpaceColonization<Plane, u32>;

fn engine(attract: f64, connect: f64, max_length: u32, max_branches: u32, move_dist: f64) -> Engine {
    SpaceColonization::new(sq_of(attract), sq_of(connect), max_length, max_branches, move_dist, 7)
}

fn total_nodes(e: &Engine) -> usize {
    // Every node is either a root or the child end of exactly one segment.
    e.visit_root_nodes().len() + e.visit_node_segments().len()
}

#[test]
fn empty_engine_step_is_noop() {
    let mut e = engine(20.0, 1.0, 100, 5, 1.0);
    assert_eq!(e.next(), Some(0));
    assert_eq!(e.next(), Some(0));
    assert_eq!(total_nodes(&e), 0);
}

#[test]
fn new_node_count_matches_arena_growth() {
    let mut e = engine(20.0, 1.0, 100, 5, 1.0);
    e.add_root_node((0.0, 0.0));
    e.add_default_attractor((10.0, 0.0));
    for _ in 0..12 {
        let before = total_nodes(&e);
        let grown = e.next().unwrap();
        let after = total_nodes(&e);
        assert_eq!(after - before, grown);
    }
}

#[test]
fn root_nodes_keep_their_form() {
    let mut e = engine(20.0, 1.0, 100, 5, 1.0);
    let r0 = e.add_root_node((0.0, 0.0));
    let r1 = e.add_root_node((50.0, 0.0));
    assert_eq!(r0, NodeIdx(0));
    assert_eq!(r1, NodeIdx(1));
    e.add_default_attractor((10.0, 0.0));
    for _ in 0..5 {
        e.next();
        let roots = e.visit_root_nodes();
        assert_eq!(roots.len(), 2);
        for (k, root) in roots.iter().enumerate() {
            assert_eq!(root.parent, NodeIdx(k as u32));
            assert_eq!(root.root, NodeIdx(k as u32));
            assert_eq!(root.length, 0);
            assert!(root.is_root());
        }
    }
}

#[test]
fn node_helpers_report_fields() {
    let mut e = engine(20.0, 1.0, 100, 5, 1.0);
    e.add_root_node((0.0, 0.0));
    e.add_default_attractor((10.0, 0.0));
    let roots = e.visit_root_nodes();
    assert!(roots[0].is_leaf());
    assert!(roots[0].is_active(100, 5));
    assert!(!roots[0].is_active(0, 5));
    e.next();
    let roots = e.visit_root_nodes();
    assert!(!roots[0].is_leaf());
    assert_eq!(roots[0].branches, 1);
    let mut copy = roots[0];
    copy.transmit_information(9);
    assert_eq!(copy.assigned_information, Some(9));
}

#[test]
fn connect_boundary_is_exclusive() {
    // A node exactly at the squared connect distance does not connect...
    let mut e = engine(20.0, 2.0, 100, 5, 1.0);
    e.add_root_node((0.0, 0.0));
    e.add_default_attractor((2.0, 0.0));
    let grown = e.next().unwrap();
    assert_eq!(grown, 1);
    assert_eq!(e.visit_attractor_points().len(), 1);

    // ...while a node strictly inside it does, and the kill action runs.
    let mut e2 = engine(20.0, 2.0, 100, 5, 1.0);
    e2.add_root_node((0.0, 0.0));
    e2.add_default_attractor((1.9, 0.0));
    let grown2 = e2.next().unwrap();
    assert_eq!(grown2, 0);
    assert_eq!(e2.visit_attractor_points().len(), 0);
}

#[test]
fn kill_removes_exactly_one_attractor() {
    let mut e = engine(20.0, 1.0, 100, 5, 1.0);
    e.add_root_node((0.0, 0.0));
    e.add_default_attractor((0.5, 0.0));
    e.add_default_attractor((200.0, 0.0));
    assert_eq!(e.visit_attractor_points().len(), 2);
    e.next();
    let points = e.visit_attractor_points();
    assert_eq!(points.len(), 1);
    assert_eq!(points[0], (200.0, 0.0));
    e.next();
    assert_eq!(e.visit_attractor_points().len(), 1);
}

#[test]
fn disable_for_sets_a_reactivation_window() {
    let mut e = engine(20.0, 2.0, 100, 100, 1.0);
    e.add_root_node((0.0, 0.0));
    e.add_attractor(Attractor {
        attract_dist: sq_of(20.0),
        connect_dist: sq_of(2.0),
        strength: 1.0,
        position: (0.5, 0.0),
        information: 3,
        connect_action: ConnectAction::DisableFor { iterations: 2 },
        active_from_iteration: 0,
        not_for_root: None,
        not_for_connecting_root: None,
    });
    // Iteration 0: contact; the attractor sleeps until iteration 2.
    e.next();
    assert_eq!(e.visit_attractors()[0].active_from_iteration, 2);
    // Iteration 1: inert, nothing happens.
    assert_eq!(e.next(), Some(0));
    assert_eq!(e.visit_attractors()[0].active_from_iteration, 2);
    // Iteration 2: scanned again, contacts again, sleeps until 4.
    e.next();
    assert_eq!(e.visit_attractors()[0].active_from_iteration, 4);
}

#[test]
fn straight_chain_grows_toward_attractor() {
    let mut e = engine(20.0, 1.0, 100, 5, 1.0);
    e.add_root_node((0.0, 0.0));
    e.add_default_attractor((10.0, 0.0));
    // One new node per step while the chain approaches the attractor.
    let mut chain: usize = 0;
    loop {
        let grown = e.next().unwrap();
        if grown == 0 {
            break;
        }
        chain += grown;
        assert!(chain <= 10, "chain should reach the attractor within 10 steps");
    }
    // The tip lands on the attractor (distance 0 < connect radius), which
    // kills it; the chain is 10 nodes long, one per unit of distance.
    assert_eq!(chain, 10);
    assert_eq!(e.visit_attractor_points().len(), 0);
    let segments = e.visit_node_segments();
    assert_eq!(segments.len(), 10);
    for (k, (child, parent)) in segments.iter().enumerate() {
        assert_eq!(*parent, (k as f64, 0.0));
        assert_eq!(*child, (k as f64 + 1.0, 0.0));
    }
    // The tip received the attractor's information and reports its root.
    let with_info = e.visit_nodes_with_info_and_root();
    assert_eq!(with_info.len(), 1);
    assert_eq!(with_info[0].0.position, (10.0, 0.0));
    assert_eq!(with_info[0].0.assigned_information, Some(7));
    assert_eq!(with_info[0].1.position, (0.0, 0.0));
}

#[test]
fn growth_accumulates_a_vector_sum_not_an_average() {
    let mut e = engine(100.0, 0.0, 100, 5, 1.0);
    e.add_root_node((0.0, 0.0));
    // Two attractors at different distances; connect radius 0 never
    // triggers, so both only pull.
    for position in [(3.0, 4.0), (-8.0, 6.0)] {
        e.add_attractor(Attractor {
            attract_dist: sq_of(100.0),
            connect_dist: sq_of(0.0),
            strength: 1.0,
            position,
            information: 0,
            connect_action: ConnectAction::KillAttractor,
            active_from_iteration: 0,
            not_for_root: None,
            not_for_connecting_root: None,
        });
    }
    assert_eq!(e.next(), Some(1));
    let segments = e.visit_node_segments();
    assert_eq!(segments.len(), 1);
    let child = segments[0].0;
    // The accumulated pull is the sum of the two unit vectors.
    let u1 = Plane::normalize(&(3.0, 4.0));
    let u2 = Plane::normalize(&(-8.0, 6.0));
    let sum = Plane::add_vec(&u1, &u2);
    let expected = Plane::normalize(&sum);
    assert_eq!(child, expected);
    // It is not the direction of the attractors' midpoint.
    let midpoint_dir = Plane::normalize(&(-2.5, 5.0));
    let off = ((child.0 - midpoint_dir.0).abs(), (child.1 - midpoint_dir.1).abs());
    assert!(off.0 > 1e-3 || off.1 > 1e-3);
}

#[test]
fn excluded_root_is_never_attracted() {
    let mut e = engine(100.0, 0.5, 100, 5, 1.0);
    let r0 = e.add_root_node((0.0, 0.0));
    e.add_root_node((4.0, 0.0));
    e.add_attractor(Attractor {
        attract_dist: sq_of(100.0),
        connect_dist: sq_of(0.5),
        strength: 1.0,
        position: (2.0, 0.0),
        information: 0,
        connect_action: ConnectAction::KillAttractor,
        active_from_iteration: 0,
        not_for_root: Some(r0),
        not_for_connecting_root: None,
    });
    assert_eq!(e.next(), Some(1));
    let segments = e.visit_node_segments();
    // Only the second tree grew, toward the attractor on its left.
    assert_eq!(segments.len(), 1);
    assert_eq!(segments[0].1, (4.0, 0.0));
    assert_eq!(segments[0].0, (3.0, 0.0));
}

#[test]
fn connecting_root_is_excluded_afterwards() {
    let mut e = engine(20.0, 2.0, 100, 100, 1.0);
    let r0 = e.add_root_node((0.0, 0.0));
    e.add_attractor(Attractor {
        attract_dist: sq_of(20.0),
        connect_dist: sq_of(2.0),
        strength: 1.0,
        position: (0.5, 0.0),
        information: 3,
        connect_action: ConnectAction::DisableForConnectingRoot,
        active_from_iteration: 0,
        not_for_root: None,
        not_for_connecting_root: None,
    });
    e.next();
    let attractors = e.visit_attractors();
    assert_eq!(attractors.len(), 1);
    assert_eq!(attractors[0].not_for_connecting_root, Some(r0));
    // The attractor is now invisible to that tree: nothing more happens.
    assert_eq!(e.next(), Some(0));
    assert_eq!(e.next(), Some(0));
}

#[test]
fn attractor_not_yet_active_is_skipped() {
    let mut e = engine(20.0, 1.0, 100, 5, 1.0);
    e.add_root_node((0.0, 0.0));
    e.add_attractor(Attractor {
        attract_dist: sq_of(20.0),
        connect_dist: sq_of(1.0),
        strength: 1.0,
        position: (10.0, 0.0),
        information: 0,
        connect_action: ConnectAction::KillAttractor,
        active_from_iteration: 2,
        not_for_root: None,
        not_for_connecting_root: None,
    });
    assert_eq!(e.next(), Some(0));
    assert_eq!(e.next(), Some(0));
    assert_eq!(e.next(), Some(1));
}

#[test]
fn inactive_nodes_stop_growing() {
    // max_length 1: the root's child may never spawn children of its own.
    let mut e = engine(1000.0, 0.1, 1, 1, 1.0);
    e.add_root_node((0.0, 0.0));
    e.add_default_attractor((10.0, 0.0));
    assert_eq!(e.next(), Some(1));
    // Root has reached max_branches, child has reached max_length.
    assert_eq!(e.next(), Some(0));
    assert_eq!(total_nodes(&e), 2);
}

#[test]
fn default_attractor_uses_engine_defaults() {
    let mut e = engine(20.0, 1.5, 100, 5, 1.0);
    e.add_default_attractor((10.0, 0.0));
    let attractors = e.visit_attractors();
    assert_eq!(attractors.len(), 1);
    let a = attractors[0];
    assert_eq!(a.attract_dist, sq_of(20.0));
    assert_eq!(a.connect_dist, sq_of(1.5));
    assert_eq!(a.strength, 1.0);
    assert_eq!(a.position, (10.0, 0.0));
    assert_eq!(a.information, 7);
    assert!(matches!(a.connect_action, ConnectAction::KillAttractor));
    assert_eq!(a.active_from_iteration, 0);
    assert_eq!(a.not_for_root, None);
    assert_eq!(a.not_for_connecting_root, None);
}

#[test]
fn visitors_are_idempotent() {
    let mut e = engine(20.0, 1.0, 100, 5, 1.0);
    e.add_root_node((0.0, 0.0));
    e.add_root_node((3.0, 3.0));
    e.add_default_attractor((10.0, 0.0));
    e.next();
    e.next();
    assert_eq!(e.visit_attractor_points(), e.visit_attractor_points());
    assert_eq!(e.visit_attractors(), e.visit_attractors());
    assert_eq!(e.visit_node_segments(), e.visit_node_segments());
    assert_eq!(e.visit_nodes_with_info_and_root(), e.visit_nodes_with_info_and_root());
    assert_eq!(e.visit_root_nodes(), e.visit_root_nodes());
}

#[test]
fn contact_takes_the_first_node_in_scan_order_not_the_nearest() {
    let mut e = engine(20.0, 2.0, 100, 100, 1.0);
    let r0 = e.add_root_node((0.0, 0.0));
    let r1 = e.add_root_node((0.4, 0.0));
    // Both roots are within connect range of the attractor; the second is
    // strictly nearer, but the scan connects with the first it finds.
    e.add_attractor(Attractor {
        attract_dist: sq_of(20.0),
        connect_dist: sq_of(2.0),
        strength: 1.0,
        position: (0.5, 0.0),
        information: 3,
        connect_action: ConnectAction::DisableForConnectingRoot,
        active_from_iteration: 0,
        not_for_root: None,
        not_for_connecting_root: None,
    });
    e.next();
    let attractors = e.visit_attractors();
    assert_eq!(attractors[0].not_for_connecting_root, Some(r0));
    assert_ne!(attractors[0].not_for_connecting_root, Some(r1));
}

#[test]
fn disable_window_saturates_instead_of_wrapping() {
    let mut e = engine(20.0, 2.0, 100, 100, 1.0);
    e.add_root_node((0.0, 0.0));
    e.add_attractor(Attractor {
        attract_dist: sq_of(20.0),
        connect_dist: sq_of(2.0),
        strength: 1.0,
        position: (0.5, 0.0),
        information: 3,
        connect_action: ConnectAction::DisableFor { iterations: u32::MAX },
        active_from_iteration: 1,
        not_for_root: None,
        not_for_connecting_root: None,
    });
    // Iteration 0: still inert.  Iteration 1: contact; 1 + u32::MAX
    // saturates at u32::MAX instead of wrapping around to 0.
    e.next();
    e.next();
    assert_eq!(e.visit_attractors()[0].active_from_iteration, u32::MAX);
}

#[test]
fn root_with_information_is_not_listed() {
    let mut e = engine(20.0, 1.0, 100, 5, 1.0);
    e.add_root_node_with_information((0.0, 0.0), Some(42));
    assert_eq!(e.visit_nodes_with_info_and_root().len(), 0);
    let roots = e.visit_root_nodes();
    assert_eq!(roots[0].assigned_information, Some(42));
}
