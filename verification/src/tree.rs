//! Nodes of the grown structure and their indices.

use vstd::prelude::*;

verus! {

/// The index of a node in the engine's append-only arena.
#[derive(Debug, Clone, Copy, PartialEq, Eq, Structural)]
pub struct NodeIdx(pub u32);

/// A point of the grown structure.
///
/// Nodes form a forest inside one shared arena: a root node is its own
/// parent and its own root, every other node points at a parent appended
/// before it.  Nodes are only ever appended, never removed, so parent and
/// root indices stay valid for the life of the engine.
#[derive(Debug, Clone, Copy, PartialEq)]
pub struct Node<P, V, I> {
    /// Index of the direct parent; a root node's own index.
    pub parent: NodeIdx,

    /// Index of the root node of the tree this node belongs to.
    pub root: NodeIdx,

    /// Number of edges between this node and its root; 0 for a root.
    pub length: u32,

    /// Number of children spawned from this node so far.
    pub branches: u32,

    /// The node's position.
    pub position: P,

    /// Accumulates the normalized attraction directions pulling on this
    /// node during the current iteration; reset whenever the node spawns.
    pub growth: V,

    /// Number of attractors pulling on this node during the current
    /// iteration; reset together with `growth`.
    pub growth_count: u32,

    /// Information handed over by an attractor on connection.
    pub assigned_information: Option<I>,
}

impl<P, V, I> Node<P, V, I> {
    /// Stores `information` on this node, overwriting any earlier value.
    pub fn transmit_information(&mut self, information: I)
        ensures
            *final(self) == (Node { assigned_information: Some(information), ..*old(self) }),
    {
        self.assigned_information = Some(information);
    }

    /// A node is a leaf while no child has spawned from it.
    pub fn is_leaf(&self) -> (r: bool)
        ensures
            r == (self.branches == 0),
    {
        self.branches == 0
    }

    /// A node is a root exactly when its distance to its root is 0; a root
    /// is its own parent.
    pub fn is_root(&self) -> (r: bool)
        requires
            self.length == 0 ==> self.parent == self.root,
        ensures
            r == (self.length == 0),
    {
        if self.length == 0 {
            assert(self.root == self.parent);
            true
        } else {
            false
        }
    }

    /// A node keeps growing while it is under both the length and the
    /// branch limit; once either limit is reached it is permanently inert.
    pub fn is_active(&self, max_length: u32, max_branches: u32) -> (r: bool)
        ensures
            r == (self.length < max_length && self.branches < max_branches),
    {
        self.length < max_length && self.branches < max_branches
    }
}

} // verus!
