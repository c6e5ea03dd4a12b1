use vstd::prelude::*;
use crate::integer::IntegerNoise;
use crate::scalar::{lemma_floor_whole, offset, within, Real};
use crate::util::{
    bilerp, bilerp_spec, lemma_bilerp_zero_within, lemma_lerp_zero_within,
    lemma_trilerp_zero_within, lerp, lerp_spec, trilerp, trilerp_spec,
};
use crate::{Noise, Quality};

verus! {

/// Noise that blends the values which integer noise gives to the corners of a cell.
#[derive(Clone, Copy, Debug, PartialEq, Eq, Structural)]
pub struct ValueNoise {
    source: IntegerNoise,
    quality: Quality,
}

impl ValueNoise {
    /// The integer noise that gives the corners their values.
    pub closed spec fn source(&self) -> IntegerNoise {
        self.source
    }

    /// The quality that the noise was made with.
    pub closed spec fn quality(&self) -> Quality {
        self.quality
    }

    /// Value noise over integer noise with the given seed.
    pub fn new(seed: i64, quality: Quality) -> (r: ValueNoise)
        ensures
            r.source().seed() == seed,
            r.quality() == quality,
    {
        ValueNoise { source: IntegerNoise::new(seed), quality }
    }
}

impl<F: Real> Noise<F> for ValueNoise {
    /// The values of the two corners of the cell, blended by the shaped offset.
    open spec fn sample_1d_spec(&self, x: F) -> F {
        let one = F::from_int_spec(1);
        let x1 = x.add_spec(one);
        let s = self.source();
        lerp_spec(s.sample_1d_spec(x), s.sample_1d_spec(x1), self.quality().curve_spec(offset(x)))
    }

    /// The values of the four corners of the cell, blended by the shaped offsets.
    open spec fn sample_2d_spec(&self, x: F, y: F) -> F {
        let one = F::from_int_spec(1);
        let x1 = x.add_spec(one);
        let y1 = y.add_spec(one);
        let s = self.source();
        bilerp_spec(
            s.sample_2d_spec(x, y),
            s.sample_2d_spec(x1, y),
            s.sample_2d_spec(x, y1),
            s.sample_2d_spec(x1, y1),
            self.quality().curve_spec(offset(x)),
            self.quality().curve_spec(offset(y)),
        )
    }

    /// The values of the eight corners of the cell, blended by the shaped offsets.
    open spec fn sample_3d_spec(&self, x: F, y: F, z: F) -> F {
        let one = F::from_int_spec(1);
        let x1 = x.add_spec(one);
        let y1 = y.add_spec(one);
        let z1 = z.add_spec(one);
        let s = self.source();
        trilerp_spec(
            s.sample_3d_spec(x, y, z),
            s.sample_3d_spec(x1, y, z),
            s.sample_3d_spec(x, y1, z),
            s.sample_3d_spec(x1, y1, z),
            s.sample_3d_spec(x, y, z1),
            s.sample_3d_spec(x1, y, z1),
            s.sample_3d_spec(x, y1, z1),
            s.sample_3d_spec(x1, y1, z1),
            self.quality().curve_spec(offset(x)),
            self.quality().curve_spec(offset(y)),
            self.quality().curve_spec(offset(z)),
        )
    }

    fn sample_1d(&self, x: F) -> (r: F) {
        let u = self.quality.curve(x.sub(x.floor()));

        let one = F::from_int(1);
        let f0 = self.source.sample_1d(x);
        let f1 = self.source.sample_1d(x.add(one));

        lerp(f0, f1, u)
    }

    fn sample_2d(&self, x: F, y: F) -> (r: F) {
        let u = self.quality.curve(x.sub(x.floor()));
        let v = self.quality.curve(y.sub(y.floor()));

        let one = F::from_int(1);
        let f00 = self.source.sample_2d(x, y);
        let f10 = self.source.sample_2d(x.add(one), y);
        let f01 = self.source.sample_2d(x, y.add(one));
        let f11 = self.source.sample_2d(x.add(one), y.add(one));

        bilerp(f00, f10, f01, f11, u, v)
    }

    fn sample_3d(&self, x: F, y: F, z: F) -> (r: F) {
        let u = self.quality.curve(x.sub(x.floor()));
        let v = self.quality.curve(y.sub(y.floor()));
        let w = self.quality.curve(z.sub(z.floor()));

        let one = F::from_int(1);
        let f000 = self.source.sample_3d(x, y, z);
        let f100 = self.source.sample_3d(x.add(one), y, z);
        let f010 = self.source.sample_3d(x, y.add(one), z);
        let f110 = self.source.sample_3d(x.add(one), y.add(one), z);
        let f001 = self.source.sample_3d(x, y, z.add(one));
        let f101 = self.source.sample_3d(x.add(one), y, z.add(one));
        let f011 = self.source.sample_3d(x, y.add(one), z.add(one));
        let f111 = self.source.sample_3d(x.add(one), y.add(one), z.add(one));

        trilerp(f000, f100, f010, f110, f001, f101, f011, f111, u, v, w)
    }
}

impl ValueNoise {
    /// At a point of the lattice of a line, whatever the quality, value noise has the value
    /// that its integer noise gives to that point: nothing is blended in.
    pub proof fn lemma_lattice_1d<F: Real>(self, x: F)
        requires
            x.finite(),
            x.val() == x.val().floor() as real,
        ensures
            within(self.sample_1d_spec(x), 1),
            self.sample_1d_spec(x).val() == self.source().sample_1d_spec(x).val(),
    {
        let one = F::from_int_spec(1);
        let x1 = x.add_spec(one);
        let s = self.source();
        lemma_floor_whole(x);
        self.quality().lemma_curve_ends(offset(x));
        s.lemma_range(x, x, x);
        s.lemma_range(x1, x, x);
        lemma_lerp_zero_within(
            s.sample_1d_spec(x),
            s.sample_1d_spec(x1),
            self.quality().curve_spec(offset(x)),
            1,
        );
    }

    /// At a point of the lattice of a plane, whatever the quality, value noise has the value
    /// that its integer noise gives to that point.
    pub proof fn lemma_lattice_2d<F: Real>(self, x: F, y: F)
        requires
            x.finite(),
            y.finite(),
            x.val() == x.val().floor() as real,
            y.val() == y.val().floor() as real,
        ensures
            within(self.sample_2d_spec(x, y), 1),
            self.sample_2d_spec(x, y).val() == self.source().sample_2d_spec(x, y).val(),
    {
        let one = F::from_int_spec(1);
        let x1 = x.add_spec(one);
        let y1 = y.add_spec(one);
        let s = self.source();
        lemma_floor_whole(x);
        lemma_floor_whole(y);
        self.quality().lemma_curve_ends(offset(x));
        self.quality().lemma_curve_ends(offset(y));
        s.lemma_range(x, y, x);
        s.lemma_range(x1, y, x);
        s.lemma_range(x, y1, x);
        s.lemma_range(x1, y1, x);
        lemma_bilerp_zero_within(
            s.sample_2d_spec(x, y),
            s.sample_2d_spec(x1, y),
            s.sample_2d_spec(x, y1),
            s.sample_2d_spec(x1, y1),
            self.quality().curve_spec(offset(x)),
            self.quality().curve_spec(offset(y)),
            1,
        );
    }

    /// At a point of the lattice of a space, whatever the quality, value noise has the value
    /// that its integer noise gives to that point.
    pub proof fn lemma_lattice_3d<F: Real>(self, x: F, y: F, z: F)
        requires
            x.finite(),
            y.finite(),
            z.finite(),
            x.val() == x.val().floor() as real,
            y.val() == y.val().floor() as real,
            z.val() == z.val().floor() as real,
        ensures
            within(self.sample_3d_spec(x, y, z), 1),
            self.sample_3d_spec(x, y, z).val() == self.source().sample_3d_spec(x, y, z).val(),
    {
        let one = F::from_int_spec(1);
        let x1 = x.add_spec(one);
        let y1 = y.add_spec(one);
        let z1 = z.add_spec(one);
        let s = self.source();
        lemma_floor_whole(x);
        lemma_floor_whole(y);
        lemma_floor_whole(z);
        self.quality().lemma_curve_ends(offset(x));
        self.quality().lemma_curve_ends(offset(y));
        self.quality().lemma_curve_ends(offset(z));
        s.lemma_range(x, y, z);
        s.lemma_range(x1, y, z);
        s.lemma_range(x, y1, z);
        s.lemma_range(x1, y1, z);
        s.lemma_range(x, y, z1);
        s.lemma_range(x1, y, z1);
        s.lemma_range(x, y1, z1);
        s.lemma_range(x1, y1, z1);
        lemma_trilerp_zero_within(
            s.sample_3d_spec(x, y, z),
            s.sample_3d_spec(x1, y, z),
            s.sample_3d_spec(x, y1, z),
            s.sample_3d_spec(x1, y1, z),
            s.sample_3d_spec(x, y, z1),
            s.sample_3d_spec(x1, y, z1),
            s.sample_3d_spec(x, y1, z1),
            s.sample_3d_spec(x1, y1, z1),
            self.quality().curve_spec(offset(x)),
            self.quality().curve_spec(offset(y)),
            self.quality().curve_spec(offset(z)),
            1,
        );
    }
}

} // verus!
