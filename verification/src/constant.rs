use vstd::prelude::*;
use crate::scalar::Real;
use crate::Noise;

verus! {

/// Noise that has one value everywhere.
pub struct ConstantNoise<F: Real> {
    value: F,
}

impl<F: Real> ConstantNoise<F> {
    /// The value at every point.
    pub closed spec fn value(&self) -> F {
        self.value
    }

    /// Noise with the given value at every point.
    pub fn new(value: F) -> (r: ConstantNoise<F>)
        ensures
            r.value() == value,
    {
        ConstantNoise { value }
    }
}

/// Whatever the coordinates, a sample is the value that the noise was made with.
impl<F: Real> Noise<F> for ConstantNoise<F> {
    open spec fn sample_1d_spec(&self, x: F) -> F {
        self.value()
    }

    open spec fn sample_2d_spec(&self, x: F, y: F) -> F {
        self.value()
    }

    open spec fn sample_3d_spec(&self, x: F, y: F, z: F) -> F {
        self.value()
    }

    fn sample_1d(&self, x: F) -> (r: F) {
        self.value
    }

    fn sample_2d(&self, x: F, y: F) -> (r: F) {
        self.value
    }

    fn sample_3d(&self, x: F, y: F, z: F) -> (r: F) {
        self.value
    }
}

} // verus!
