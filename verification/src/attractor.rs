//! Attraction points and their lifecycle.

use vstd::prelude::*;
use crate::geometry::SqDist;
use crate::tree::NodeIdx;

verus! {

/// What happens to an attractor when a node connects with it.
#[derive(Debug, Clone, Copy, PartialEq)]
pub enum ConnectAction {
    /// Remove the attractor from the collection (by swap-remove, so the
    /// order of the remaining attractors is not preserved).
    KillAttractor,
    /// Keep the attractor but make it inert for the given number of
    /// iterations.
    DisableFor { iterations: u32 },
    /// Keep the attractor but make it permanently invisible to the tree of
    /// the connecting node.
    DisableForConnectingRoot,
}

/// A point that exerts growth influence on nearby nodes.
#[derive(Debug, Clone, Copy, PartialEq)]
pub struct Attractor<P, S, I> {
    /// Nodes strictly within this squared distance are attracted.
    pub attract_dist: SqDist,

    /// A node strictly within this squared distance connects: the
    /// attractor's information is handed to the node and `connect_action`
    /// is performed.
    pub connect_dist: SqDist,

    /// The weight applied to the normalized pull direction.
    pub strength: S,

    /// The position of the attractor.
    pub position: P,

    /// Information handed to a node on connection.
    pub information: I,

    /// Action performed when a node connects.
    pub connect_action: ConnectAction,

    /// The attractor is inert before this iteration.
    pub active_from_iteration: u32,

    /// When set, nodes of the tree rooted at this index are never
    /// influenced by this attractor (prevents a tree from attracting
    /// itself).
    pub not_for_root: Option<NodeIdx>,

    /// Like `not_for_root`, but written by
    /// [`ConnectAction::DisableForConnectingRoot`] when a node connects.
    pub not_for_connecting_root: Option<NodeIdx>,
}

impl<P, S, I> Attractor<P, S, I> {
    /// An attractor takes part in an iteration only once the iteration
    /// counter has reached `active_from_iteration`.
    pub fn is_active_in(&self, current_iteration: u32) -> (r: bool)
        ensures
            r == (current_iteration >= self.active_from_iteration),
    {
        current_iteration >= self.active_from_iteration
    }

    /// Makes the attractor inert for every iteration before `iteration`.
    pub fn disable_until(&mut self, iteration: u32)
        ensures
            *final(self) == (Attractor { active_from_iteration: iteration, ..*old(self) }),
    {
        self.active_from_iteration = iteration;
    }
}

} // verus!
