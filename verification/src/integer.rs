use vstd::arithmetic::div_mod::{lemma_add_mod_noop, lemma_mul_mod_noop};
use vstd::prelude::*;
use crate::scalar::{holds, is_whole, lattice, lemma_holds_short, within, Real};
use crate::Noise;

verus! {

/// The multiplier of the first lattice coordinate in the sum that is hashed.
pub const X_NOISE_GEN: i64 = 1619;

/// The multiplier of the second lattice coordinate.
pub const Y_NOISE_GEN: i64 = 31337;

/// The multiplier of the third lattice coordinate.
pub const Z_NOISE_GEN: i64 = 6971;

/// The multiplier of the seed.
pub const SEED_NOISE_GEN: i64 = 1013;

/// By how many bits the sum is shifted down before it is folded onto itself.
pub const SHIFT_NOISE_GEN: u32 = 8;

/// The low 31 bits of an integer: its remainder by 2^31, which is never negative.
pub open spec fn low31(n: int) -> int {
    n % 0x8000_0000
}

/// The hash of a lattice point, from the sum `n` that stands for the point and the seed.
/// The low 31 bits of the sum are folded onto themselves eight bits down, and the result is
/// put through a cubic polynomial, of which the low 31 bits are kept.
pub open spec fn scramble(n: int) -> int {
    let a = low31(n) as i64;
    let v = (a ^ (a >> SHIFT_NOISE_GEN)) as int;
    low31(v * (v * v * 60493 + 19990303) + 1376312589)
}

/// The hash of a point of a line.
pub open spec fn hash_1d(seed: i64, ix: i64) -> int {
    scramble(X_NOISE_GEN * ix + SEED_NOISE_GEN * seed)
}

/// The hash of a point of a plane.
pub open spec fn hash_2d(seed: i64, ix: i64, iy: i64) -> int {
    scramble(X_NOISE_GEN * ix + Y_NOISE_GEN * iy + SEED_NOISE_GEN * seed)
}

/// The hash of a point of a space.
pub open spec fn hash_3d(seed: i64, ix: i64, iy: i64, iz: i64) -> int {
    scramble(X_NOISE_GEN * ix + Y_NOISE_GEN * iy + Z_NOISE_GEN * iz + SEED_NOISE_GEN * seed)
}

/// A hash of 31 bits as a number from -1 to 1: one less the hash over 2^30.
pub open spec fn unit_spec<F: Real>(hash: int) -> F {
    F::from_int_spec(1).sub_spec(
        F::from_int_spec(hash as i64).div_spec(F::from_int_spec(0x4000_0000)),
    )
}

/// A hash is a number of 31 bits.
pub proof fn lemma_scramble_range(n: int)
    ensures
        0 <= scramble(n) < 0x8000_0000,
{
}

/// A sum that has wrapped round in 64 bits keeps its low 31 bits.
proof fn lemma_low31_wrapped(exact: int, wrapped: int, k: int)
    requires
        wrapped == exact + k * 0x1_0000_0000_0000_0000,
    ensures
        low31(wrapped) == low31(exact),
{
    assert((exact + k * 0x1_0000_0000_0000_0000) % 0x8000_0000 == exact % 0x8000_0000)
        by (nonlinear_arith);
}

/// The low 31 bits of a wrapping product are those of the product.
proof fn lemma_low31_mul(x: i64, y: i64)
    ensures
        low31(x.wrapping_mul(y) as int) == low31(x * y),
{
    let p = x * y;
    let m = p % 0x1_0000_0000_0000_0000;
    let k = p / 0x1_0000_0000_0000_0000;
    assert(p == 0x1_0000_0000_0000_0000 * k + m) by (nonlinear_arith)
        requires
            m == p % 0x1_0000_0000_0000_0000,
            k == p / 0x1_0000_0000_0000_0000,
    ;
    if m > i64::MAX {
        lemma_low31_wrapped(p, x.wrapping_mul(y) as int, -k - 1);
    } else {
        lemma_low31_wrapped(p, x.wrapping_mul(y) as int, -k);
    }
}

/// The low 31 bits of a wrapping sum are those of the sum of any two integers with the same
/// low 31 bits as the terms.
proof fn lemma_low31_add(x: i64, y: i64, p: int, q: int)
    requires
        low31(x as int) == low31(p),
        low31(y as int) == low31(q),
    ensures
        low31(x.wrapping_add(y) as int) == low31(p + q),
{
    if x + y > i64::MAX {
        lemma_low31_wrapped(x + y, x.wrapping_add(y) as int, -1);
    } else if x + y < i64::MIN {
        lemma_low31_wrapped(x + y, x.wrapping_add(y) as int, 1);
    }
    lemma_add_mod_noop(x as int, y as int, 0x8000_0000);
    lemma_add_mod_noop(p, q, 0x8000_0000);
}

/// The low 31 bits of a wrapping product are those of the product of any two integers with
/// the same low 31 bits as the factors.
proof fn lemma_low31_mul_of(x: i64, y: i64, p: int, q: int)
    requires
        low31(x as int) == low31(p),
        low31(y as int) == low31(q),
    ensures
        low31(x.wrapping_mul(y) as int) == low31(p * q),
{
    lemma_low31_mul(x, y);
    lemma_mul_mod_noop(x as int, y as int, 0x8000_0000);
    lemma_mul_mod_noop(p, q, 0x8000_0000);
}

/// The hash, from a sum that may have wrapped round in 64 bits.
fn scramble_sum(sum: i64, Ghost(exact): Ghost<int>) -> (r: i64)
    requires
        low31(sum as int) == low31(exact),
    ensures
        r == scramble(exact),
{
    assert(sum & 0x7fff_ffff == sum % 0x8000_0000) by (bit_vector);
    let a: i64 = sum & 0x7fff_ffff;
    assert(0 <= a ^ (a >> 8) < 0x8000_0000) by (bit_vector)
        requires
            0 <= a < 0x8000_0000,
    ;
    let v: i64 = a ^ (a >> SHIFT_NOISE_GEN);
    let square = v.wrapping_mul(v);
    let cubic = square.wrapping_mul(60493).wrapping_add(19990303);
    let poly = v.wrapping_mul(cubic).wrapping_add(1376312589);
    proof {
        lemma_low31_mul_of(v, v, v as int, v as int);
        lemma_low31_mul_of(square, 60493, v * v, 60493);
        lemma_low31_add(square.wrapping_mul(60493), 19990303, v * v * 60493, 19990303);
        lemma_low31_mul_of(v, cubic, v as int, v * v * 60493 + 19990303);
        lemma_low31_add(
            v.wrapping_mul(cubic),
            1376312589,
            v * (v * v * 60493 + 19990303),
            1376312589,
        );
    }
    assert(poly & 0x7fff_ffff == poly % 0x8000_0000) by (bit_vector);
    poly & 0x7fff_ffff
}

/// A hash of 31 bits as a number from -1 to 1.
fn unit<F: Real>(hash: i64) -> (r: F)
    ensures
        r == unit_spec::<F>(hash as int),
{
    let f_value = F::from_int(hash);
    let scale = F::from_int(1073741824);
    F::from_int(1).sub(f_value.div(scale))
}

/// Noise that gives every cell of the integer lattice a value of its own, with no relation
/// to the values of the cells next to it.
#[derive(Clone, Copy, Debug, PartialEq, Eq, Structural)]
pub struct IntegerNoise {
    seed: i64,
}

impl IntegerNoise {
    /// The seed that the noise was made with.
    pub closed spec fn seed(&self) -> i64 {
        self.seed
    }

    /// Integer noise with the given seed.
    pub fn new(seed: i64) -> (r: IntegerNoise)
        ensures
            r.seed() == seed,
    {
        IntegerNoise { seed }
    }
}

impl<F: Real> Noise<F> for IntegerNoise {
    /// The hash of the lattice point below `x` and of the seed, as a number from -1 to 1.
    open spec fn sample_1d_spec(&self, x: F) -> F {
        unit_spec::<F>(hash_1d(self.seed(), lattice(x)))
    }

    /// The hash of the lattice point below `(x, y)` and of the seed, as a number from -1
    /// to 1.
    open spec fn sample_2d_spec(&self, x: F, y: F) -> F {
        unit_spec::<F>(hash_2d(self.seed(), lattice(x), lattice(y)))
    }

    /// The hash of the lattice point below `(x, y, z)` and of the seed, as a number from
    /// -1 to 1.
    open spec fn sample_3d_spec(&self, x: F, y: F, z: F) -> F {
        unit_spec::<F>(hash_3d(self.seed(), lattice(x), lattice(y), lattice(z)))
    }

    fn sample_1d(&self, x: F) -> (r: F) {
        let ix = x.floor().to_int();

        let sum = X_NOISE_GEN.wrapping_mul(ix).wrapping_add(SEED_NOISE_GEN.wrapping_mul(self.seed));
        proof {
            lemma_low31_mul(X_NOISE_GEN, ix);
            lemma_low31_mul(SEED_NOISE_GEN, self.seed);
            lemma_low31_add(
                X_NOISE_GEN.wrapping_mul(ix),
                SEED_NOISE_GEN.wrapping_mul(self.seed),
                X_NOISE_GEN * ix,
                SEED_NOISE_GEN * self.seed,
            );
        }
        let value = scramble_sum(sum, Ghost(X_NOISE_GEN * ix + SEED_NOISE_GEN * self.seed));

        unit(value)
    }

    fn sample_2d(&self, x: F, y: F) -> (r: F) {
        let ix = x.floor().to_int();
        let iy = y.floor().to_int();

        let xy = X_NOISE_GEN.wrapping_mul(ix).wrapping_add(Y_NOISE_GEN.wrapping_mul(iy));
        let sum = xy.wrapping_add(SEED_NOISE_GEN.wrapping_mul(self.seed));
        proof {
            lemma_low31_mul(X_NOISE_GEN, ix);
            lemma_low31_mul(Y_NOISE_GEN, iy);
            lemma_low31_mul(SEED_NOISE_GEN, self.seed);
            lemma_low31_add(
                X_NOISE_GEN.wrapping_mul(ix),
                Y_NOISE_GEN.wrapping_mul(iy),
                X_NOISE_GEN * ix,
                Y_NOISE_GEN * iy,
            );
            lemma_low31_add(
                xy,
                SEED_NOISE_GEN.wrapping_mul(self.seed),
                X_NOISE_GEN * ix + Y_NOISE_GEN * iy,
                SEED_NOISE_GEN * self.seed,
            );
        }
        let value = scramble_sum(
            sum,
            Ghost(X_NOISE_GEN * ix + Y_NOISE_GEN * iy + SEED_NOISE_GEN * self.seed),
        );

        unit(value)
    }

    fn sample_3d(&self, x: F, y: F, z: F) -> (r: F) {
        let ix = x.floor().to_int();
        let iy = y.floor().to_int();
        let iz = z.floor().to_int();

        let xy = X_NOISE_GEN.wrapping_mul(ix).wrapping_add(Y_NOISE_GEN.wrapping_mul(iy));
        let xyz = xy.wrapping_add(Z_NOISE_GEN.wrapping_mul(iz));
        let sum = xyz.wrapping_add(SEED_NOISE_GEN.wrapping_mul(self.seed));
        proof {
            lemma_low31_mul(X_NOISE_GEN, ix);
            lemma_low31_mul(Y_NOISE_GEN, iy);
            lemma_low31_mul(Z_NOISE_GEN, iz);
            lemma_low31_mul(SEED_NOISE_GEN, self.seed);
            lemma_low31_add(
                X_NOISE_GEN.wrapping_mul(ix),
                Y_NOISE_GEN.wrapping_mul(iy),
                X_NOISE_GEN * ix,
                Y_NOISE_GEN * iy,
            );
            lemma_low31_add(
                xy,
                Z_NOISE_GEN.wrapping_mul(iz),
                X_NOISE_GEN * ix + Y_NOISE_GEN * iy,
                Z_NOISE_GEN * iz,
            );
            lemma_low31_add(
                xyz,
                SEED_NOISE_GEN.wrapping_mul(self.seed),
                X_NOISE_GEN * ix + Y_NOISE_GEN * iy + Z_NOISE_GEN * iz,
                SEED_NOISE_GEN * self.seed,
            );
        }
        let value = scramble_sum(
            sum,
            Ghost(
                X_NOISE_GEN * ix + Y_NOISE_GEN * iy + Z_NOISE_GEN * iz + SEED_NOISE_GEN
                    * self.seed,
            ),
        );

        unit(value)
    }
}

/// A hash of 31 bits gives a number from -1 to 1, however the type rounds.
pub proof fn lemma_unit_range<F: Real>(hash: int)
    requires
        0 <= hash < 0x8000_0000,
    ensures
        within(unit_spec::<F>(hash), 1),
{
    lemma_holds_short::<F>(-1);
    lemma_holds_short::<F>(0);
    lemma_holds_short::<F>(1);
    lemma_holds_short::<F>(2);
    lemma_holds_short::<F>(0x4000_0000);
    lemma_holds_short::<F>(0x8000_0000);
    let value = F::from_int_spec(hash as i64);
    let scale = F::from_int_spec(0x4000_0000);
    F::lemma_from_int(hash as i64, F::from_int_spec(0), F::from_int_spec(0x8000_0000));
    F::lemma_div(value, scale, F::from_int_spec(0), F::from_int_spec(2));
    F::lemma_sub(
        F::from_int_spec(1),
        value.div_spec(scale),
        F::from_int_spec(-1i64),
        F::from_int_spec(1),
    );
}

/// A hash gives one less the hash over 2^30 exactly, in a type that holds the hash, the
/// quotient and the result.
pub proof fn lemma_unit_is_exact<F: Real>(hash: int)
    requires
        0 <= hash < 0x8000_0000,
        holds::<F>(hash as real),
        holds::<F>(hash as real / 1073741824real),
        holds::<F>(1real - hash as real / 1073741824real),
    ensures
        unit_spec::<F>(hash).finite(),
        unit_spec::<F>(hash).val() == 1real - hash as real / 1073741824real,
{
    lemma_holds_short::<F>(1);
    lemma_holds_short::<F>(0x4000_0000);
    let value = F::from_int_spec(hash as i64);
    let scale = F::from_int_spec(0x4000_0000);
    let h = choose|c: F| #[trigger] c.finite() && c.val() == hash as real;
    F::lemma_from_int(hash as i64, h, h);
    let q = choose|c: F| #[trigger] c.finite() && c.val() == hash as real / 1073741824real;
    F::lemma_div(value, scale, q, q);
    let r = choose|c: F| #[trigger] c.finite() && c.val() == 1real - hash as real / 1073741824real;
    F::lemma_sub(F::from_int_spec(1), value.div_spec(scale), r, r);
}

impl IntegerNoise {
    /// Whatever the seed and the point, finite or not, integer noise gives a number from -1
    /// to 1.
    pub proof fn lemma_range<F: Real>(self, x: F, y: F, z: F)
        ensures
            within(self.sample_1d_spec(x), 1),
            within(self.sample_2d_spec(x, y), 1),
            within(self.sample_3d_spec(x, y, z), 1),
    {
        lemma_unit_range::<F>(hash_1d(self.seed(), lattice(x)));
        lemma_unit_range::<F>(hash_2d(self.seed(), lattice(x), lattice(y)));
        lemma_unit_range::<F>(hash_3d(self.seed(), lattice(x), lattice(y), lattice(z)));
    }
}

} // verus!
