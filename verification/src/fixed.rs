use vstd::prelude::*;
use crate::integer::unit_spec;
use crate::scalar::{holds, is_short, within, Real};
use crate::util::{lerp_exact, lerp_spec};

verus! {

/// A signed fixed-point number of 64 bits, 30 of them behind the point.
///
/// Sums, differences and negations wrap round; products and quotients are rounded down to the
/// next multiple of 2^-30 and then wrap round; a quotient by zero is zero.
#[derive(Clone, Copy, Debug, PartialEq, Eq, Hash, Structural)]
pub struct Fixed {
    /// The number as a count of steps of 2^-30.
    pub bits: i64,
}

/// The number of steps of a `Fixed` in one unit: 2^30.
pub const ONE_BITS: i64 = 0x4000_0000;

/// The 64-bit integer that has the low 64 bits of `n` in two's complement.
pub open spec fn wrap(n: int) -> i64 {
    n as i64
}

impl Real for Fixed {
    open spec fn finite(self) -> bool {
        true
    }

    open spec fn val(self) -> real {
        self.bits as real / 1073741824real
    }

    open spec fn add_spec(self, rhs: Fixed) -> Fixed {
        Fixed { bits: wrap(self.bits + rhs.bits) }
    }

    open spec fn sub_spec(self, rhs: Fixed) -> Fixed {
        Fixed { bits: wrap(self.bits - rhs.bits) }
    }

    open spec fn mul_spec(self, rhs: Fixed) -> Fixed {
        Fixed { bits: wrap((self.bits * rhs.bits) / (ONE_BITS as int)) }
    }

    open spec fn div_spec(self, rhs: Fixed) -> Fixed {
        if rhs.bits == 0 {
            Fixed { bits: 0 }
        } else {
            Fixed { bits: wrap((self.bits * ONE_BITS) / (rhs.bits as int)) }
        }
    }

    open spec fn neg_spec(self) -> Fixed {
        Fixed { bits: wrap(-self.bits) }
    }

    open spec fn floor_spec(self) -> Fixed {
        Fixed { bits: wrap(self.bits - self.bits % ONE_BITS) }
    }

    open spec fn to_int_spec(self) -> i64 {
        wrap(self.bits / ONE_BITS)
    }

    open spec fn from_int_spec(n: i64) -> Fixed {
        Fixed { bits: wrap(n * ONE_BITS) }
    }

    fn add(self, rhs: Fixed) -> (r: Fixed) {
        proof {
            lemma_wrapping_add(self.bits, rhs.bits);
        }
        Fixed { bits: self.bits.wrapping_add(rhs.bits) }
    }

    fn sub(self, rhs: Fixed) -> (r: Fixed) {
        proof {
            lemma_wrapping_sub(self.bits, rhs.bits);
        }
        Fixed { bits: self.bits.wrapping_sub(rhs.bits) }
    }

    fn mul(self, rhs: Fixed) -> (r: Fixed) {
        proof {
            lemma_product_fits(self.bits, rhs.bits);
        }
        let p: i128 = (self.bits as i128) * (rhs.bits as i128);
        assert(p >> 30 == p / 0x4000_0000) by (bit_vector);
        let q: i128 = p >> 30;
        Fixed { bits: #[verifier::truncate] (q as i64) }
    }

    fn div(self, rhs: Fixed) -> (r: Fixed) {
        if rhs.bits == 0 {
            Fixed { bits: 0 }
        } else {
            let p: i128 = (self.bits as i128) * 0x4000_0000i128;
            proof {
                lemma_quotient_fits(p as int, rhs.bits as int);
            }
            match p.checked_div_euclid(rhs.bits as i128) {
                Some(q) => Fixed { bits: #[verifier::truncate] (q as i64) },
                None => Fixed { bits: 0 },
            }
        }
    }

    fn neg(self) -> (r: Fixed) {
        proof {
            lemma_wrapping_sub(0, self.bits);
        }
        Fixed { bits: 0i64.wrapping_sub(self.bits) }
    }

    fn floor(self) -> (r: Fixed) {
        let b = self.bits;
        assert((b & !0x3fff_ffffi64) == b - (b & 0x3fff_ffff)) by (bit_vector);
        assert((b & 0x3fff_ffff) == b % 0x4000_0000) by (bit_vector);
        Fixed { bits: b & !0x3fff_ffffi64 }
    }

    fn to_int(self) -> (r: i64) {
        let b = self.bits;
        assert(b >> 30 == b / 0x4000_0000) by (bit_vector);
        b >> 30
    }

    fn from_int(n: i64) -> (r: Fixed) {
        proof {
            lemma_wrapping_scale(n);
        }
        Fixed { bits: n.wrapping_mul(ONE_BITS) }
    }

    proof fn lemma_add(a: Fixed, b: Fixed, lo: Fixed, hi: Fixed) {
        lemma_val_order(lo.bits as int, a.bits + b.bits);
        lemma_val_order(a.bits + b.bits, hi.bits as int);
    }

    proof fn lemma_sub(a: Fixed, b: Fixed, lo: Fixed, hi: Fixed) {
        lemma_val_order(lo.bits as int, a.bits - b.bits);
        lemma_val_order(a.bits - b.bits, hi.bits as int);
    }

    #[verifier::spinoff_prover]
    proof fn lemma_mul(a: Fixed, b: Fixed, lo: Fixed, hi: Fixed) {
        let p = a.bits * b.bits;
        let q = p / (ONE_BITS as int);
        assert(a.val() * b.val() == p as real / (1073741824real * 1073741824real)) by (nonlinear_arith)
            requires
                a.val() == a.bits as real / 1073741824real,
                b.val() == b.bits as real / 1073741824real,
                p == a.bits * b.bits,
        ;
        assert(lo.bits * ONE_BITS <= p <= hi.bits * ONE_BITS) by (nonlinear_arith)
            requires
                lo.bits as real / 1073741824real <= p as real / (1073741824real * 1073741824real),
                p as real / (1073741824real * 1073741824real) <= hi.bits as real / 1073741824real,
        ;
        assert(lo.bits <= q <= hi.bits) by (nonlinear_arith)
            requires
                lo.bits * ONE_BITS <= p <= hi.bits * ONE_BITS,
                q == p / (ONE_BITS as int),
        ;
        lemma_val_order(lo.bits as int, q);
        lemma_val_order(q, hi.bits as int);
    }

    #[verifier::spinoff_prover]
    proof fn lemma_div(a: Fixed, b: Fixed, lo: Fixed, hi: Fixed) {
        let p = a.bits * ONE_BITS;
        let d = b.bits as int;
        let q = p / d;
        assert(d != 0);
        assert(a.val() / b.val() == p as real / (d as real * 1073741824real)) by (nonlinear_arith)
            requires
                a.val() == a.bits as real / 1073741824real,
                b.val() == d as real / 1073741824real,
                p == a.bits * ONE_BITS,
                d != 0,
        ;
        lemma_quotient_between(p, d, lo.bits as int, hi.bits as int);
        lemma_val_order(lo.bits as int, q);
        lemma_val_order(q, hi.bits as int);
    }

    proof fn lemma_neg(a: Fixed, c: Fixed) {
        lemma_val_order(c.bits as int, -a.bits);
        lemma_val_order(-a.bits, c.bits as int);
    }

    proof fn lemma_floor(a: Fixed, c: Fixed) {
        lemma_floor_of_val(a.bits as int);
    }

    proof fn lemma_to_int(a: Fixed) {
        lemma_floor_of_val(a.bits as int);
    }

    proof fn lemma_from_int(n: i64, lo: Fixed, hi: Fixed) {
        lemma_val_order(lo.bits as int, n * ONE_BITS);
        lemma_val_order(n * ONE_BITS, hi.bits as int);
    }

    proof fn lemma_from_short_int(n: i64) {
    }
}

/// `wrapping_add` keeps the low 64 bits of the sum.
proof fn lemma_wrapping_add(x: i64, y: i64)
    ensures
        x.wrapping_add(y) == wrap(x + y),
{
    if x + y > i64::MAX {
        assert((x + y) as i64 == (x + y - 0x1_0000_0000_0000_0000) as i64) by (bit_vector);
    } else if x + y < i64::MIN {
        assert((x + y) as i64 == (x + y + 0x1_0000_0000_0000_0000) as i64) by (bit_vector);
    }
}

/// `wrapping_sub` keeps the low 64 bits of the difference.
proof fn lemma_wrapping_sub(x: i64, y: i64)
    ensures
        x.wrapping_sub(y) == wrap(x - y),
{
    if x - y > i64::MAX {
        assert((x - y) as i64 == (x - y - 0x1_0000_0000_0000_0000) as i64) by (bit_vector);
    } else if x - y < i64::MIN {
        assert((x - y) as i64 == (x - y + 0x1_0000_0000_0000_0000) as i64) by (bit_vector);
    }
}

/// `wrapping_mul` by 2^30 keeps the low 64 bits of the product.
proof fn lemma_wrapping_scale(n: i64)
    ensures
        n.wrapping_mul(ONE_BITS) == wrap(n * ONE_BITS),
{
    assert((n * 0x4000_0000) as i64 == if ((n * 0x4000_0000) % 0x1_0000_0000_0000_0000)
        > 0x7fff_ffff_ffff_ffff {
        ((n * 0x4000_0000) % 0x1_0000_0000_0000_0000 - 0x1_0000_0000_0000_0000) as i64
    } else {
        ((n * 0x4000_0000) % 0x1_0000_0000_0000_0000) as i64
    }) by (bit_vector);
}

/// The product of two 64-bit integers fits in 128 bits.
proof fn lemma_product_fits(x: i64, y: i64)
    ensures
        i128::MIN <= x * y <= i128::MAX,
{
    assert(-0x4000_0000_0000_0000_0000_0000_0000_0000 <= x * y
        <= 0x4000_0000_0000_0000_0000_0000_0000_0000) by (nonlinear_arith)
        requires
            -0x8000_0000_0000_0000 <= x <= 0x8000_0000_0000_0000,
            -0x8000_0000_0000_0000 <= y <= 0x8000_0000_0000_0000,
    ;
}

/// A quotient is no larger in magnitude than the dividend.
#[verifier::spinoff_prover]
proof fn lemma_quotient_fits(p: int, d: int)
    requires
        d != 0,
    ensures
        p >= 0 ==> -p <= p / d <= p,
        p <= 0 ==> p <= p / d <= -p + 1,
{
    assert(p >= 0 ==> -p <= p / d <= p) by (nonlinear_arith)
        requires
            d != 0,
    ;
    assert(p <= 0 ==> p <= p / d <= -p + 1) by (nonlinear_arith)
        requires
            d != 0,
    ;
}

/// The order of two counts of steps is the order of the numbers they stand for.
proof fn lemma_val_order(x: int, y: int)
    ensures
        x <= y <==> x as real / 1073741824real <= y as real / 1073741824real,
        x == y <==> x as real / 1073741824real == y as real / 1073741824real,
{
}

/// A whole quotient lies between two integers that bound the exact quotient.
#[verifier::spinoff_prover]
proof fn lemma_quotient_between(p: int, d: int, lo: int, hi: int)
    requires
        d != 0,
        lo as real / 1073741824real <= p as real / (d as real * 1073741824real),
        p as real / (d as real * 1073741824real) <= hi as real / 1073741824real,
    ensures
        lo <= p / d <= hi,
{
    let q = p / d;
    let r = p % d;
    assert(p == d * q + r && 0 <= r && (d > 0 ==> r < d) && (d < 0 ==> r < -d)) by (nonlinear_arith)
        requires
            d != 0,
            q == p / d,
            r == p % d,
    ;
    if d > 0 {
        assert(lo * d <= p <= hi * d) by (nonlinear_arith)
            requires
                d > 0,
                lo as real / 1073741824real <= p as real / (d as real * 1073741824real),
                p as real / (d as real * 1073741824real) <= hi as real / 1073741824real,
        ;
        assert(lo <= q <= hi) by (nonlinear_arith)
            requires
                d > 0,
                lo * d <= p <= hi * d,
                p == d * q + r,
                0 <= r < d,
        ;
    } else {
        assert(hi * d <= p <= lo * d) by (nonlinear_arith)
            requires
                d < 0,
                lo as real / 1073741824real <= p as real / (d as real * 1073741824real),
                p as real / (d as real * 1073741824real) <= hi as real / 1073741824real,
        ;
        assert(lo <= q <= hi) by (nonlinear_arith)
            requires
                d < 0,
                hi * d <= p <= lo * d,
                p == d * q + r,
                0 <= r < -d,
        ;
    }
}

/// The whole part of a number, in counts of steps.
proof fn lemma_floor_of_val(x: int)
    ensures
        (x as real / 1073741824real).floor() == x / (ONE_BITS as int),
        x - x % (ONE_BITS as int) == (x / (ONE_BITS as int)) * ONE_BITS,
{
}

/// A `Fixed` holds every multiple of 2^-30 that fits in its 64 bits.
pub proof fn lemma_fixed_holds(bits: int)
    requires
        i64::MIN <= bits <= i64::MAX,
    ensures
        holds::<Fixed>(bits as real / 1073741824real),
{
    let c = Fixed { bits: bits as i64 };
    assert(c.finite() && c.val() == bits as real / 1073741824real);
}

/// On `Fixed`, `lerp` gives the first end for the weight 0 and the second for the weight 1,
/// to the bit and whatever the two ends are.
pub proof fn lemma_fixed_lerp_ends(f0: Fixed, f1: Fixed)
    ensures
        lerp_spec(f0, f1, (Fixed { bits: 0 })) == f0,
        lerp_spec(f0, f1, (Fixed { bits: ONE_BITS })) == f1,
{
    let d = f1.sub_spec(f0);
    lemma_wrapping_sub(f1.bits, f0.bits);
    lemma_wrapping_add(d.bits, f0.bits);
    assert((ONE_BITS * d.bits) / (ONE_BITS as int) == d.bits) by (nonlinear_arith);
    assert((0 * d.bits) / (ONE_BITS as int) == 0) by (nonlinear_arith);
}

/// On `Fixed`, a hash of 31 bits gives one less the hash over 2^30, with no rounding.
pub proof fn lemma_fixed_unit(hash: int)
    requires
        0 <= hash < 0x8000_0000,
    ensures
        unit_spec::<Fixed>(hash).bits == ONE_BITS - hash,
{
    let value = Fixed::from_int_spec(hash as i64);
    let scale = Fixed::from_int_spec(0x4000_0000);
    assert(value.bits == hash * ONE_BITS);
    assert(scale.bits == ONE_BITS * ONE_BITS);
    assert((hash * ONE_BITS * ONE_BITS) / (ONE_BITS * ONE_BITS) == hash) by (nonlinear_arith);
    assert(value.div_spec(scale).bits == hash);
}

/// On `Fixed`, with ends and weight below 2^15 in magnitude, `lerp` is less than one step
/// of 2^-30 below the exact point, and never above it.
#[verifier::spinoff_prover]
pub proof fn lemma_fixed_lerp_close(f0: Fixed, f1: Fixed, u: Fixed)
    requires
        within(f0, 0x8000),
        within(f1, 0x8000),
        within(u, 0x8000),
    ensures
        lerp_spec(f0, f1, u).val() <= lerp_exact(f0.val(), f1.val(), u.val()),
        lerp_exact(f0.val(), f1.val(), u.val()) < lerp_spec(f0, f1, u).val() + 1real
            / 1073741824real,
{
    let one = ONE_BITS as int;
    let d = f1.bits - f0.bits;
    let p = u.bits * d;
    let q = p / one;
    let r = p % one;
    assert(-0x8000 * one <= f0.bits <= 0x8000 * one);
    assert(-0x8000 * one <= f1.bits <= 0x8000 * one);
    assert(-0x8000 * one <= u.bits <= 0x8000 * one);
    assert(-0x8000_0000 * (one * one) <= p <= 0x8000_0000 * (one * one)) by (nonlinear_arith)
        requires
            p == u.bits * d,
            -0x8000 * one <= u.bits <= 0x8000 * one,
            -0x1_0000 * one <= d <= 0x1_0000 * one,
            one == 0x4000_0000,
    ;
    assert(p == one * q + r && 0 <= r < one) by (nonlinear_arith)
        requires
            q == p / one,
            r == p % one,
            one == 0x4000_0000,
    ;
    assert(-0x8000_0000 * one <= q <= 0x8000_0000 * one) by (nonlinear_arith)
        requires
            -0x8000_0000 * (one * one) <= p <= 0x8000_0000 * (one * one),
            p == one * q + r,
            0 <= r < one,
            one == 0x4000_0000,
    ;
    assert(lerp_spec(f0, f1, u).bits == q + f0.bits);
    assert(u.val() * (f1.val() - f0.val()) == p as real / (1073741824real * 1073741824real))
        by (nonlinear_arith)
        requires
            u.val() == u.bits as real / 1073741824real,
            f1.val() - f0.val() == d as real / 1073741824real,
            p == u.bits * d,
    ;
    assert(p as real == 1073741824real * q as real + r as real) by (nonlinear_arith)
        requires
            p == one * q + r,
            one == 0x4000_0000,
    ;
}

} // verus!
