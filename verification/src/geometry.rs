//! The geometric capability the engine is parameterized over.
//!
//! The engine never computes with concrete coordinates: every geometric
//! operation it needs (squared distance, direction between two points,
//! vector addition, scaling, normalization, translation, the zero vector and
//! the unit scalar) is a method of the [`Space`] trait, and every contract of
//! the engine is stated over the trait's specification functions.  A caller
//! supplies an implementation for its own point type (2D, 3D or higher); the
//! engine's proofs hold for any implementation that meets the trait's
//! contracts.

use vstd::prelude::*;

verus! {

/// A squared distance, wrapped so that the engine compares influence and
/// connect radii without taking square roots.
///
/// The wrapped value is an order-preserving encoding chosen by the caller's
/// [`Space`] implementation: any encoding works as long as `a.0 < b.0`
/// exactly when the squared distance `a` is smaller than `b`.  (For
/// non-negative IEEE floating-point distances the raw bit pattern has this
/// property; exact integer squared distances can be stored directly.)
#[derive(Debug, Clone, Copy, PartialEq, Eq, Structural, PartialOrd, Ord)]
pub struct SqDist(pub u64);

/// The point/vector arithmetic the engine requires from its caller.
///
/// Each executable method is specified by a companion `spec` function, and
/// the engine's contracts speak only of those specification functions.  The
/// engine is verified for every implementation that satisfies these
/// contracts; an implementation itself (for example one built on a
/// floating-point linear-algebra library) lives outside the verified core
/// and is trusted by its users to meet them.
pub trait Space: Sized {
    /// A point of the ambient space.
    type Point: Copy;

    /// A displacement between two points.
    type Vector: Copy;

    /// The scalar the caller measures strengths and step lengths with.
    type Scalar: Copy;

    /// The squared distance between two points, in the encoding of
    /// [`SqDist`].
    open spec fn spec_sqdist(a: Self::Point, b: Self::Point) -> SqDist {
        vstd::pervasive::arbitrary()
    }

    /// The displacement from `from` to `to`.
    open spec fn spec_delta(from: Self::Point, to: Self::Point) -> Self::Vector {
        vstd::pervasive::arbitrary()
    }

    /// The sum of two displacements.
    open spec fn spec_add_vec(a: Self::Vector, b: Self::Vector) -> Self::Vector {
        vstd::pervasive::arbitrary()
    }

    /// The displacement `v` scaled by `s`.
    open spec fn spec_scale(v: Self::Vector, s: Self::Scalar) -> Self::Vector {
        vstd::pervasive::arbitrary()
    }

    /// The displacement `v` brought to unit length.
    ///
    /// What a zero displacement normalizes to is the implementation's
    /// choice (for floating-point vectors it is typically not finite);
    /// the engine passes the result through unchanged, so the policy for
    /// the degenerate case — pulls that cancel exactly — rests with the
    /// caller's implementation.
    open spec fn spec_normalize(v: Self::Vector) -> Self::Vector {
        vstd::pervasive::arbitrary()
    }

    /// The point `p` moved by the displacement `v`.
    open spec fn spec_translate(p: Self::Point, v: Self::Vector) -> Self::Point {
        vstd::pervasive::arbitrary()
    }

    /// The additive identity displacement.
    open spec fn spec_zero() -> Self::Vector {
        vstd::pervasive::arbitrary()
    }

    /// The unit scalar, used as the default attractor strength.
    open spec fn spec_one() -> Self::Scalar {
        vstd::pervasive::arbitrary()
    }

    fn sqdist(a: &Self::Point, b: &Self::Point) -> (r: SqDist)
        ensures
            r == Self::spec_sqdist(*a, *b),
    ;

    fn delta(from: &Self::Point, to: &Self::Point) -> (r: Self::Vector)
        ensures
            r == Self::spec_delta(*from, *to),
    ;

    fn add_vec(a: &Self::Vector, b: &Self::Vector) -> (r: Self::Vector)
        ensures
            r == Self::spec_add_vec(*a, *b),
    ;

    fn scale(v: &Self::Vector, s: &Self::Scalar) -> (r: Self::Vector)
        ensures
            r == Self::spec_scale(*v, *s),
    ;

    fn normalize(v: &Self::Vector) -> (r: Self::Vector)
        ensures
            r == Self::spec_normalize(*v),
    ;

    fn translate(p: &Self::Point, v: &Self::Vector) -> (r: Self::Point)
        ensures
            r == Self::spec_translate(*p, *v),
    ;

    fn zero() -> (r: Self::Vector)
        ensures
            r == Self::spec_zero(),
    ;

    fn one() -> (r: Self::Scalar)
        ensures
            r == Self::spec_one(),
    ;
}

} // verus!
