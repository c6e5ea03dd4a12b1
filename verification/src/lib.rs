//! Noise over a lattice: for a point of a line, a plane or a space, a number that looks
//! random and is the same whenever it is asked for.
//!
//! There are four kinds. Constant noise has one value everywhere. Integer noise gives every
//! cell of the lattice a hash of its corner. Value noise blends the hashes of the corners of
//! a cell. Gradient noise blends gradients that a shuffled table deals out to the corners.
//! All of them compute with any number type that keeps the laws of `Real`; `Fixed` is such a
//! type, and with it every sample is the same to the bit on every machine.

use vstd::prelude::*;

pub mod constant;
pub mod fixed;
pub mod gradient;
pub mod integer;
pub mod scalar;
pub mod util;
pub mod value;

pub use crate::constant::ConstantNoise;
pub use crate::fixed::Fixed;
pub use crate::gradient::GradientNoise;
pub use crate::integer::IntegerNoise;
pub use crate::scalar::Real;
pub use crate::value::ValueNoise;

use crate::scalar::is_whole;
use crate::util::{lemma_scurve_one, lemma_scurve_zero, scurve3, scurve3_spec, scurve5, scurve5_spec};

verus! {

/// A source of noise: a value for every point of a line, a plane or a space.
///
/// Sampling never changes the source, and the value at a point is a function of the source
/// and the point alone.
pub trait Noise<F: Real> {
    /// The value at the point `x` of a line.
    spec fn sample_1d_spec(&self, x: F) -> F;

    /// The value at the point `(x, y)` of a plane.
    spec fn sample_2d_spec(&self, x: F, y: F) -> F;

    /// The value at the point `(x, y, z)` of a space.
    spec fn sample_3d_spec(&self, x: F, y: F, z: F) -> F;

    /// The value at a point of a line.
    fn sample_1d(&self, x: F) -> (r: F)
        ensures
            r == self.sample_1d_spec(x),
    ;

    /// The value at a point of a plane.
    fn sample_2d(&self, x: F, y: F) -> (r: F)
        ensures
            r == self.sample_2d_spec(x, y),
    ;

    /// The value at a point of a space.
    fn sample_3d(&self, x: F, y: F, z: F) -> (r: F)
        ensures
            r == self.sample_3d_spec(x, y, z),
    ;
}

/// How the weight of a blend is shaped before the corners are mixed.
#[derive(Clone, Copy, Debug, PartialEq, Eq, Structural)]
pub enum Quality {
    /// The weight is the offset within the cell.
    Fast,
    /// The weight follows the cubic ease curve.
    Standard,
    /// The weight follows the quintic ease curve.
    Best,
}

impl Quality {
    /// The weight that `curve` gives to an offset.
    pub open spec fn curve_spec<F: Real>(self, t: F) -> F {
        match self {
            Quality::Fast => t,
            Quality::Standard => scurve3_spec(t),
            Quality::Best => scurve5_spec(t),
        }
    }

    /// The weight of a blend, from the offset within the cell.
    pub fn curve<F: Real>(self, t: F) -> (r: F)
        ensures
            r == self.curve_spec(t),
    {
        match self {
            Quality::Fast => t,
            Quality::Standard => scurve3(t),
            Quality::Best => scurve5(t),
        }
    }

    /// Whatever the quality, the offset zero gets the weight zero and the offset one the
    /// weight one.
    pub proof fn lemma_curve_ends<F: Real>(self, t: F)
        ensures
            is_whole(t, 0) ==> is_whole(self.curve_spec(t), 0),
            is_whole(t, 1) ==> is_whole(self.curve_spec(t), 1),
    {
        if is_whole(t, 0) {
            lemma_scurve_zero(t);
        }
        if is_whole(t, 1) {
            lemma_scurve_one(t);
        }
    }
}

} // verus!
