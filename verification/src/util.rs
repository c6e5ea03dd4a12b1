use vstd::prelude::*;
use crate::scalar::{
    holds, is_short, is_whole, lemma_add_exact, lemma_holds_short, lemma_mul_exact,
    lemma_sub_exact, lemma_sub_within, within, Real,
};

verus! {

/// What `lerp` computes, with the rounding of the number type.
pub open spec fn lerp_spec<F: Real>(f0: F, f1: F, u: F) -> F {
    u.mul_spec(f1.sub_spec(f0)).add_spec(f0)
}

/// What `bilerp` computes: along the first axis at both ends of the second, then along the
/// second.
pub open spec fn bilerp_spec<F: Real>(f00: F, f10: F, f01: F, f11: F, u: F, v: F) -> F {
    lerp_spec(lerp_spec(f00, f10, u), lerp_spec(f01, f11, u), v)
}

/// What `trilerp` computes: over both faces of the third axis, then along that axis.
pub open spec fn trilerp_spec<F: Real>(
    f000: F,
    f100: F,
    f010: F,
    f110: F,
    f001: F,
    f101: F,
    f011: F,
    f111: F,
    u: F,
    v: F,
    w: F,
) -> F {
    lerp_spec(
        bilerp_spec(f000, f100, f010, f110, u, v),
        bilerp_spec(f001, f101, f011, f111, u, v),
        w,
    )
}

/// What `scurve3` computes, with the rounding of the number type.
pub open spec fn scurve3_spec<F: Real>(t: F) -> F {
    t.mul_spec(t).mul_spec(F::from_int_spec(3).sub_spec(t.mul_spec(F::from_int_spec(2))))
}

/// What `scurve5` computes, with the rounding of the number type.
pub open spec fn scurve5_spec<F: Real>(t: F) -> F {
    t.mul_spec(t).mul_spec(t).mul_spec(
        t.mul_spec(t.mul_spec(F::from_int_spec(6)).sub_spec(F::from_int_spec(15))).add_spec(
            F::from_int_spec(10),
        ),
    )
}

/// The point between `f0` and `f1` at the fraction `u` of the way, `u * (f1 - f0) + f0`.
/// A `u` outside 0 to 1 extrapolates.
#[inline]
pub fn lerp<F: Real>(f0: F, f1: F, u: F) -> (r: F)
    ensures
        r == lerp_spec(f0, f1, u),
{
    u.mul(f1.sub(f0)).add(f0)
}

/// Interpolation over a square, from the values at its four corners.
#[inline]
pub fn bilerp<F: Real>(f00: F, f10: F, f01: F, f11: F, u: F, v: F) -> (r: F)
    ensures
        r == bilerp_spec(f00, f10, f01, f11, u, v),
{
    lerp(lerp(f00, f10, u), lerp(f01, f11, u), v)
}

/// Interpolation over a cube, from the values at its eight corners.
#[inline]
pub fn trilerp<F: Real>(
    f000: F,
    f100: F,
    f010: F,
    f110: F,
    f001: F,
    f101: F,
    f011: F,
    f111: F,
    u: F,
    v: F,
    w: F,
) -> (r: F)
    ensures
        r == trilerp_spec(f000, f100, f010, f110, f001, f101, f011, f111, u, v, w),
{
    lerp(bilerp(f000, f100, f010, f110, u, v), bilerp(f001, f101, f011, f111, u, v), w)
}

/// The cubic ease curve `t * t * (3 - 2 * t)`.
#[inline]
pub fn scurve3<F: Real>(t: F) -> (r: F)
    ensures
        r == scurve3_spec(t),
{
    let three = F::from_int(3);
    let two = F::from_int(2);
    t.mul(t).mul(three.sub(t.mul(two)))
}

/// The quintic ease curve `t * t * t * (t * (t * 6 - 15) + 10)`.
#[inline]
pub fn scurve5<F: Real>(t: F) -> (r: F)
    ensures
        r == scurve5_spec(t),
{
    let six = F::from_int(6);
    let fifteen = F::from_int(15);
    let ten = F::from_int(10);
    t.mul(t).mul(t).mul(t.mul(t.mul(six).sub(fifteen)).add(ten))
}

/// The point between two real numbers that `lerp` approximates.
pub open spec fn lerp_exact(f0: real, f1: real, u: real) -> real {
    u * (f1 - f0) + f0
}

/// The cubic ease curve that `scurve3` approximates.
pub open spec fn curve3(t: real) -> real {
    t * t * (3real - 2real * t)
}

/// The quintic ease curve that `scurve5` approximates.
pub open spec fn curve5(t: real) -> real {
    t * t * t * (t * (t * 6real - 15real) + 10real)
}

/// The weight 0 gives the first end, the weight 1 the second.
pub proof fn lemma_lerp_exact_ends(f0: real, f1: real)
    ensures
        lerp_exact(f0, f1, 0real) == f0,
        lerp_exact(f0, f1, 1real) == f1,
{
}

/// The cubic curve goes from 0 to 1 through one half at one half.
pub proof fn lemma_curve3_marks()
    ensures
        curve3(0real) == 0real,
        curve3(1real / 2real) == 1real / 2real,
        curve3(1real) == 1real,
{
}

/// The quintic curve goes from 0 to 1 through one half at one half.
#[verifier::spinoff_prover]
pub proof fn lemma_curve5_marks()
    ensures
        curve5(0real) == 0real,
        curve5(1real / 2real) == 1real / 2real,
        curve5(1real) == 1real,
{
    let h = 1real / 2real;
    assert(h * h == 1real / 4real) by (nonlinear_arith)
        requires
            h == 1real / 2real,
    ;
    assert(h * h * h == 1real / 8real) by (nonlinear_arith)
        requires
            h == 1real / 2real,
            h * h == 1real / 4real,
    ;
    assert(h * (h * 6real - 15real) == -6real) by (nonlinear_arith)
        requires
            h == 1real / 2real,
    ;
    assert((1real / 8real) * 4real == 1real / 2real);
}

/// The cubic curve never falls between 0 and 1.
#[verifier::spinoff_prover]
pub proof fn lemma_curve3_monotone(s: real, t: real)
    requires
        0real <= s <= t <= 1real,
    ensures
        curve3(s) <= curve3(t),
{
    let q = 3real * (t + s) - 2real * (t * t + t * s + s * s);
    assert(t * t * (3real - 2real * t) - s * s * (3real - 2real * s) == (t - s) * (3real * (t
        + s) - 2real * (t * t + t * s + s * s))) by (nonlinear_arith);
    assert(t * t <= t && s * s <= s && 2real * (t * s) <= t + s) by (nonlinear_arith)
        requires
            0real <= s <= 1real,
            0real <= t <= 1real,
    ;
    assert((t - s) * q >= 0real) by (nonlinear_arith)
        requires
            t - s >= 0real,
            q >= 0real,
    ;
}

/// One more factor on two powers: the gap and the sum of the powers of `m + h` and `m - h`,
/// from the gap `d` and the sum `e` of the powers before.
#[verifier::spinoff_prover]
proof fn lemma_power_step(m: real, h: real, p: real, q: real, d: real, e: real)
    requires
        p - q == d,
        p + q == e,
    ensures
        p * (m + h) - q * (m - h) == m * d + h * e,
        p * (m + h) + q * (m - h) == m * e + h * d,
{
    assert(p * (m + h) - q * (m - h) == m * (p - q) + h * (p + q)) by (nonlinear_arith);
    assert(p * (m + h) + q * (m - h) == m * (p + q) + h * (p - q)) by (nonlinear_arith);
}

/// The gap and the sum of the second and third powers, in `a = m m` and `b = h h`.
#[verifier::spinoff_prover]
proof fn lemma_power_forms_3(m: real, h: real, a: real, b: real)
    requires
        a == m * m,
        b == h * h,
    ensures
        m * (2real * h) + h * (2real * m) == 4real * (m * h),
        m * (2real * m) + h * (2real * h) == 2real * a + 2real * b,
        m * (4real * (m * h)) + h * (2real * a + 2real * b) == 2real * h * (3real * a + b),
        m * (2real * a + 2real * b) + h * (4real * (m * h)) == 2real * m * (a + 3real * b),
{
    assert(m * (2real * h) + h * (2real * m) == 4real * (m * h)) by (nonlinear_arith);
    assert(m * (2real * m) + h * (2real * h) == 2real * (m * m) + 2real * (h * h))
        by (nonlinear_arith);
    assert(m * (4real * (m * h)) == 4real * ((m * m) * h)) by (nonlinear_arith);
    assert(h * (4real * (m * h)) == 4real * (m * (h * h))) by (nonlinear_arith);
    assert(4real * (a * h) + h * (2real * a + 2real * b) == 2real * h * (3real * a + b))
        by (nonlinear_arith);
    assert(m * (2real * a + 2real * b) + 4real * (m * b) == 2real * m * (a + 3real * b))
        by (nonlinear_arith);
}

/// The gap and the sum of the fourth powers and the gap of the fifth, in `a` and `b`.
#[verifier::spinoff_prover]
proof fn lemma_power_forms_5(m: real, h: real, a: real, b: real)
    requires
        a == m * m,
        b == h * h,
    ensures
        m * (2real * h * (3real * a + b)) + h * (2real * m * (a + 3real * b)) == 2real * h * (
        4real * (m * (a + b))),
        m * (2real * m * (a + 3real * b)) + h * (2real * h * (3real * a + b)) == 2real * (a * a)
            + 12real * (a * b) + 2real * (b * b),
        m * (2real * h * (4real * (m * (a + b)))) + h * (2real * (a * a) + 12real * (a * b)
            + 2real * (b * b)) == 2real * h * (5real * (a * a) + 10real * (a * b) + b * b),
{
    let x = a + 3real * b;
    let y = 3real * a + b;
    let z = a + b;
    assert(m * (2real * h * y) + h * (2real * m * x) == 2real * h * (m * (x + y)))
        by (nonlinear_arith);
    assert(m * ((a + 3real * b) + (3real * a + b)) == 4real * (m * (a + b)))
        by (nonlinear_arith);
    assert(m * (2real * m * x) == 2real * ((m * m) * x)) by (nonlinear_arith);
    assert(h * (2real * h * y) == 2real * ((h * h) * y)) by (nonlinear_arith);
    assert(2real * (a * (a + 3real * b)) + 2real * (b * (3real * a + b)) == 2real * (a * a)
        + 12real * (a * b) + 2real * (b * b)) by (nonlinear_arith);
    assert(m * (2real * h * (4real * (m * z))) == 8real * (h * ((m * m) * z)))
        by (nonlinear_arith);
    assert(h * (a * (a + b)) == h * (a * a) + h * (a * b)) by (nonlinear_arith);
    assert(h * (2real * (a * a) + 12real * (a * b) + 2real * (b * b)) == 2real * (h * (a * a))
        + 12real * (h * (a * b)) + 2real * (h * (b * b))) by (nonlinear_arith);
    assert(2real * h * (5real * (a * a) + 10real * (a * b) + b * b) == 10real * (h * (a * a))
        + 20real * (h * (a * b)) + 2real * (h * (b * b))) by (nonlinear_arith);
}

/// The gaps between the third, fourth and fifth powers of `m + h` and of `m - h`.
#[verifier::spinoff_prover]
proof fn lemma_power_gaps(m: real, h: real)
    ensures
        ({
            let t = m + h;
            let s = m - h;
            let a = m * m;
            let b = h * h;
            &&& t * t * t - s * s * s == 2real * h * (3real * a + b)
            &&& t * t * t * t - s * s * s * s == 2real * h * (4real * (m * (a + b)))
            &&& t * t * t * t * t - s * s * s * s * s == 2real * h * (5real * (a * a) + 10real * (a
                * b) + b * b)
        }),
{
    let t = m + h;
    let s = m - h;
    let a = m * m;
    let b = h * h;
    lemma_power_forms_3(m, h, a, b);
    lemma_power_forms_5(m, h, a, b);
    lemma_power_step(m, h, t, s, 2real * h, 2real * m);
    lemma_power_step(m, h, t * t, s * s, 4real * (m * h), 2real * a + 2real * b);
    lemma_power_step(
        m,
        h,
        t * t * t,
        s * s * s,
        2real * h * (3real * a + b),
        2real * m * (a + 3real * b),
    );
    lemma_power_step(
        m,
        h,
        t * t * t * t,
        s * s * s * s,
        2real * h * (4real * (m * (a + b))),
        2real * (a * a) + 12real * (a * b) + 2real * (b * b),
    );
}

/// The bracket of the rise of the quintic curve, as a square and a rest.
#[verifier::spinoff_prover]
proof fn lemma_curve5_bracket(m: real, a: real, b: real)
    requires
        a == m * m,
    ensures
        6real * (5real * (a * a) + 10real * (a * b) + b * b) - 15real * (4real * (m * (a + b)))
            + 10real * (3real * a + b) == 30real * ((m - a - b) * (m - a - b)) + 2real * b * (
        5real - 12real * b),
{
    assert((m - a - b) * (m - a - b) == m * m + a * a + b * b - 2real * (m * a) - 2real * (m * b)
        + 2real * (a * b)) by (nonlinear_arith);
    assert(4real * (m * (a + b)) == 4real * (m * a) + 4real * (m * b)) by (nonlinear_arith);
    assert(2real * b * (5real - 12real * b) == 10real * b - 24real * (b * b))
        by (nonlinear_arith);
}

/// The rise of the quintic curve over the stretch of half-width `h` about `m`.
#[verifier::spinoff_prover]
proof fn lemma_curve5_rise(m: real, h: real)
    ensures
        curve5(m + h) - curve5(m - h) == 2real * h * (30real * ((m - m * m - h * h) * (m - m * m
            - h * h)) + 2real * (h * h) * (5real - 12real * (h * h))),
{
    let t = m + h;
    let s = m - h;
    let a = m * m;
    let b = h * h;
    assert(t * t * t * (t * (t * 6real - 15real) + 10real) == 6real * (t * t * t * t * t) - 15real
        * (t * t * t * t) + 10real * (t * t * t)) by (nonlinear_arith);
    assert(s * s * s * (s * (s * 6real - 15real) + 10real) == 6real * (s * s * s * s * s) - 15real
        * (s * s * s * s) + 10real * (s * s * s)) by (nonlinear_arith);
    lemma_power_gaps(m, h);
    lemma_curve5_bracket(m, a, b);
    let x3 = 3real * a + b;
    let x4 = 4real * (m * (a + b));
    let x5 = 5real * (a * a) + 10real * (a * b) + b * b;
    assert(6real * (2real * h * x5) - 15real * (2real * h * x4) + 10real * (2real * h * x3)
        == 2real * h * (6real * x5 - 15real * x4 + 10real * x3)) by (nonlinear_arith);
}

/// The quintic curve never falls between 0 and 1.
#[verifier::spinoff_prover]
pub proof fn lemma_curve5_monotone(s: real, t: real)
    requires
        0real <= s <= t <= 1real,
    ensures
        curve5(s) <= curve5(t),
{
    let m = (s + t) / 2real;
    let h = (t - s) / 2real;
    let u = m - m * m - h * h;
    lemma_curve5_rise(m, h);
    assert(m + h == t && m - h == s);
    assert(u * u >= 0real) by (nonlinear_arith);
    assert(h * h >= 0real && 5real - 12real * (h * h) >= 0real) by (nonlinear_arith)
        requires
            0real <= h <= 1real / 2real,
    ;
    assert(2real * h * (30real * (u * u) + 2real * (h * h) * (5real - 12real * (h * h))) >= 0real)
        by (nonlinear_arith)
        requires
            h >= 0real,
            u * u >= 0real,
            h * h >= 0real,
            5real - 12real * (h * h) >= 0real,
    ;
}

/// With the weight zero, `lerp` gives the value of the first end, as long as the difference
/// of the two ends is finite.
pub proof fn lemma_lerp_zero<F: Real>(f0: F, f1: F, u: F)
    requires
        f0.finite(),
        f1.sub_spec(f0).finite(),
        is_whole(u, 0),
    ensures
        lerp_spec(f0, f1, u).finite(),
        lerp_spec(f0, f1, u).val() == f0.val(),
{
    let d = f1.sub_spec(f0);
    assert(u.val() * d.val() == 0real) by (nonlinear_arith)
        requires
            u.val() == 0real,
    ;
    F::lemma_mul(u, d, u, u);
    F::lemma_add(u.mul_spec(d), f0, f0, f0);
}

/// With the weight one, `lerp` gives the value of the second end, as long as the type holds
/// the difference of the two ends.
pub proof fn lemma_lerp_one<F: Real>(f0: F, f1: F, u: F)
    requires
        f0.finite(),
        f1.finite(),
        holds::<F>(f1.val() - f0.val()),
        is_whole(u, 1),
    ensures
        lerp_spec(f0, f1, u).finite(),
        lerp_spec(f0, f1, u).val() == f1.val(),
{
    lemma_sub_exact(f1, f0);
    let d = f1.sub_spec(f0);
    assert(u.val() * d.val() == d.val()) by (nonlinear_arith)
        requires
            u.val() == 1real,
    ;
    F::lemma_mul(u, d, d, d);
    F::lemma_add(u.mul_spec(d), f0, f1, f1);
}

/// `lerp` is exact wherever the type holds the difference, the product and the result.
pub proof fn lemma_lerp_is_exact<F: Real>(f0: F, f1: F, u: F)
    requires
        f0.finite(),
        f1.finite(),
        u.finite(),
        holds::<F>(f1.val() - f0.val()),
        holds::<F>(u.val() * (f1.val() - f0.val())),
        holds::<F>(lerp_exact(f0.val(), f1.val(), u.val())),
    ensures
        lerp_spec(f0, f1, u).finite(),
        lerp_spec(f0, f1, u).val() == lerp_exact(f0.val(), f1.val(), u.val()),
{
    lemma_sub_exact(f1, f0);
    lemma_mul_exact(u, f1.sub_spec(f0));
    lemma_add_exact(u.mul_spec(f1.sub_spec(f0)), f0);
}

/// `scurve3` is on the cubic curve wherever the type holds each step on the way: the
/// square, the double, the second factor and the result.
pub proof fn lemma_scurve3_is_exact<F: Real>(t: F)
    requires
        t.finite(),
        holds::<F>(t.val() * t.val()),
        holds::<F>(t.val() * 2real),
        holds::<F>(3real - t.val() * 2real),
        holds::<F>(curve3(t.val())),
    ensures
        scurve3_spec(t).finite(),
        scurve3_spec(t).val() == curve3(t.val()),
{
    lemma_holds_short::<F>(2);
    lemma_holds_short::<F>(3);
    let two = F::from_int_spec(2);
    let three = F::from_int_spec(3);
    lemma_mul_exact(t, t);
    lemma_mul_exact(t, two);
    lemma_sub_exact(three, t.mul_spec(two));
    let v = t.val();
    assert((v * v) * (3real - v * 2real) == v * v * (3real - 2real * v)) by (nonlinear_arith);
    lemma_mul_exact(t.mul_spec(t), three.sub_spec(t.mul_spec(two)));
}

/// `scurve5` is on the quintic curve wherever the type holds each step on the way.
pub proof fn lemma_scurve5_is_exact<F: Real>(t: F)
    requires
        t.finite(),
        holds::<F>(t.val() * t.val()),
        holds::<F>(t.val() * t.val() * t.val()),
        holds::<F>(t.val() * 6real),
        holds::<F>(t.val() * 6real - 15real),
        holds::<F>(t.val() * (t.val() * 6real - 15real)),
        holds::<F>(t.val() * (t.val() * 6real - 15real) + 10real),
        holds::<F>(curve5(t.val())),
    ensures
        scurve5_spec(t).finite(),
        scurve5_spec(t).val() == curve5(t.val()),
{
    lemma_holds_short::<F>(6);
    lemma_holds_short::<F>(15);
    lemma_holds_short::<F>(10);
    let six = F::from_int_spec(6);
    let fifteen = F::from_int_spec(15);
    let ten = F::from_int_spec(10);
    lemma_mul_exact(t, t);
    lemma_mul_exact(t.mul_spec(t), t);
    lemma_mul_exact(t, six);
    lemma_sub_exact(t.mul_spec(six), fifteen);
    lemma_mul_exact(t, t.mul_spec(six).sub_spec(fifteen));
    lemma_add_exact(t.mul_spec(t.mul_spec(six).sub_spec(fifteen)), ten);
    lemma_mul_exact(
        t.mul_spec(t).mul_spec(t),
        t.mul_spec(t.mul_spec(six).sub_spec(fifteen)).add_spec(ten),
    );
}

/// At zero, both ease curves give zero.
pub proof fn lemma_scurve_zero<F: Real>(t: F)
    requires
        is_whole(t, 0),
    ensures
        is_whole(scurve3_spec(t), 0),
        is_whole(scurve5_spec(t), 0),
{
    lemma_holds_short::<F>(0);
    lemma_holds_short::<F>(3);
    lemma_holds_short::<F>(-15);
    lemma_holds_short::<F>(10);
    lemma_scurve3_is_exact(t);
    lemma_scurve5_is_exact(t);
}

/// At one, both ease curves give one.
pub proof fn lemma_scurve_one<F: Real>(t: F)
    requires
        is_whole(t, 1),
    ensures
        is_whole(scurve3_spec(t), 1),
        is_whole(scurve5_spec(t), 1),
{
    lemma_holds_short::<F>(1);
    lemma_holds_short::<F>(2);
    lemma_holds_short::<F>(6);
    lemma_holds_short::<F>(-9);
    lemma_scurve3_is_exact(t);
    lemma_scurve5_is_exact(t);
}

/// At one half, both ease curves give one half, in a type that holds a quarter and an
/// eighth.
pub proof fn lemma_scurve_half<F: Real>(t: F)
    requires
        t.finite(),
        t.val() == 1real / 2real,
        holds::<F>(1real / 4real),
        holds::<F>(1real / 8real),
    ensures
        scurve3_spec(t).finite(),
        scurve3_spec(t).val() == 1real / 2real,
        scurve5_spec(t).finite(),
        scurve5_spec(t).val() == 1real / 2real,
{
    lemma_holds_short::<F>(1);
    lemma_holds_short::<F>(2);
    lemma_holds_short::<F>(3);
    lemma_holds_short::<F>(-12);
    lemma_holds_short::<F>(-6);
    lemma_holds_short::<F>(4);
    lemma_scurve3_is_exact(t);
    lemma_scurve5_is_exact(t);
}

/// With the weight zero, `lerp` gives the value of the first end, whatever the second, of
/// two ends within a bound that the type can double.
pub proof fn lemma_lerp_zero_within<F: Real>(f0: F, f1: F, u: F, b: int)
    requires
        within(f0, b),
        within(f1, b),
        is_whole(u, 0),
        0 <= b,
        is_short(2 * b),
    ensures
        within(lerp_spec(f0, f1, u), b),
        lerp_spec(f0, f1, u).val() == f0.val(),
{
    lemma_sub_within(f1, f0, b);
    lemma_lerp_zero(f0, f1, u);
}

/// With both weights zero, `bilerp` gives the value of the first corner.
pub proof fn lemma_bilerp_zero_within<F: Real>(f00: F, f10: F, f01: F, f11: F, u: F, v: F, b: int)
    requires
        within(f00, b),
        within(f10, b),
        within(f01, b),
        within(f11, b),
        is_whole(u, 0),
        is_whole(v, 0),
        0 <= b,
        is_short(2 * b),
    ensures
        within(bilerp_spec(f00, f10, f01, f11, u, v), b),
        bilerp_spec(f00, f10, f01, f11, u, v).val() == f00.val(),
{
    lemma_lerp_zero_within(f00, f10, u, b);
    lemma_lerp_zero_within(f01, f11, u, b);
    lemma_lerp_zero_within(lerp_spec(f00, f10, u), lerp_spec(f01, f11, u), v, b);
}

/// With all three weights zero, `trilerp` gives the value of the first corner.
pub proof fn lemma_trilerp_zero_within<F: Real>(
    f000: F,
    f100: F,
    f010: F,
    f110: F,
    f001: F,
    f101: F,
    f011: F,
    f111: F,
    u: F,
    v: F,
    w: F,
    b: int,
)
    requires
        within(f000, b),
        within(f100, b),
        within(f010, b),
        within(f110, b),
        within(f001, b),
        within(f101, b),
        within(f011, b),
        within(f111, b),
        is_whole(u, 0),
        is_whole(v, 0),
        is_whole(w, 0),
        0 <= b,
        is_short(2 * b),
    ensures
        within(trilerp_spec(f000, f100, f010, f110, f001, f101, f011, f111, u, v, w), b),
        trilerp_spec(f000, f100, f010, f110, f001, f101, f011, f111, u, v, w).val()
            == f000.val(),
{
    lemma_bilerp_zero_within(f000, f100, f010, f110, u, v, b);
    lemma_bilerp_zero_within(f001, f101, f011, f111, u, v, b);
    lemma_lerp_zero_within(
        bilerp_spec(f000, f100, f010, f110, u, v),
        bilerp_spec(f001, f101, f011, f111, u, v),
        w,
        b,
    );
}

} // verus!
