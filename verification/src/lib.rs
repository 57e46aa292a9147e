//! Space colonization: an iterative algorithm that grows branching, tree-like
//! structures toward a set of attraction points in continuous space.
//!
//! The engine owns an append-only arena of nodes and a collection of
//! attractors.  Each call of [`SpaceColonization::next`] advances the
//! structure by one iteration: every attractor either connects with the first
//! node it finds within its connect radius (triggering a lifecycle action) or
//! pulls the nearest node within its attraction radius, and afterwards every
//! pulled node spawns one new leaf node in the accumulated direction.
//!
//! The concrete point/vector arithmetic is supplied by the caller through the
//! [`Space`] trait; the engine itself is independent of the dimension and of
//! the scalar representation.

pub mod attractor;
pub mod engine;
pub mod geometry;
pub mod laws;
pub mod model;
pub mod tree;

pub use attractor::Attractor;
pub use attractor::ConnectAction;
pub use engine::SpaceColonization;
pub use geometry::Space;
pub use geometry::SqDist;
pub use tree::Node;
pub use tree::NodeIdx;
