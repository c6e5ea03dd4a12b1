use noise::util::{bilerp, lerp, scurve3, scurve5, trilerp};
use noise::{Fixed, Quality};

const ONE: i64 = 1 << 30;

/// The `Fixed` for a float that is a multiple of 2^-30.
fn fx(x: f64) -> Fixed {
    let bits = x * 1073741824.0;
    assert_eq!(bits, bits.floor());
    Fixed { bits: bits as i64 }
}

fn raw(bits: i64) -> Fixed {
    Fixed { bits }
}

#[test]
fn lerp_midpoint() {
    assert_eq!(lerp(fx(1.0), fx(3.0), fx(0.5)), fx(2.0));
    assert_eq!(lerp(fx(-7.25), fx(1234.5), fx(0.375)), fx(458.40625));
}

#[test]
fn lerp_gives_the_ends_at_zero_and_one() {
    let ends = [
        (fx(0.0), fx(0.0)),
        (fx(1.0), fx(3.0)),
        (fx(-7.25), fx(1234.5)),
        (raw(5), raw(1000000007)),
        (raw(i64::MAX), raw(i64::MIN)),
        (raw(i64::MIN), raw(i64::MAX)),
        (raw(i64::MAX), raw(-1)),
    ];
    for (a, b) in ends {
        assert_eq!(lerp(a, b, fx(0.0)), a);
        assert_eq!(lerp(a, b, fx(1.0)), b);
    }
}

#[test]
fn lerp_goes_on_beyond_the_ends() {
    assert_eq!(lerp(fx(1.0), fx(3.0), fx(2.0)), fx(5.0));
    assert_eq!(lerp(fx(1.0), fx(3.0), fx(-1.0)), fx(-1.0));
}

#[test]
fn lerp_rounds_the_product_down() {
    assert_eq!(lerp(raw(0), raw(1), fx(0.5)), raw(0));
    assert_eq!(lerp(raw(0), raw(-1), fx(0.5)), raw(-1));
    assert_eq!(lerp(raw(5), raw(1000000007), raw(715827882)), raw(666666672));
}

#[test]
fn bilerp_gives_the_corners() {
    let (f00, f10, f01, f11) = (fx(1.0), fx(-2.0), fx(4.0), fx(8.0));
    assert_eq!(bilerp(f00, f10, f01, f11, fx(0.0), fx(0.0)), f00);
    assert_eq!(bilerp(f00, f10, f01, f11, fx(1.0), fx(0.0)), f10);
    assert_eq!(bilerp(f00, f10, f01, f11, fx(0.0), fx(1.0)), f01);
    assert_eq!(bilerp(f00, f10, f01, f11, fx(1.0), fx(1.0)), f11);
}

#[test]
fn bilerp_inside() {
    assert_eq!(bilerp(fx(0.0), fx(1.0), fx(2.0), fx(3.0), fx(0.5), fx(0.5)), fx(1.5));
    assert_eq!(bilerp(fx(1.0), fx(-2.0), fx(4.0), fx(8.0), fx(0.25), fx(0.75)), fx(3.8125));
}

#[test]
fn bilerp_is_lerp_twice() {
    let (f00, f10, f01, f11) = (raw(11), raw(-987654321), raw(123456789012), raw(77));
    let (u, v) = (raw(333333333), raw(999999999));
    assert_eq!(bilerp(f00, f10, f01, f11, u, v), lerp(lerp(f00, f10, u), lerp(f01, f11, u), v));
}

#[test]
fn trilerp_gives_the_corners() {
    let f: Vec<Fixed> = (0..8).map(|k| fx(k as f64 * 1.5 - 4.0)).collect();
    for corner in 0..8 {
        let u = fx((corner & 1) as f64);
        let v = fx(((corner >> 1) & 1) as f64);
        let w = fx(((corner >> 2) & 1) as f64);
        let r = trilerp(f[0], f[1], f[2], f[3], f[4], f[5], f[6], f[7], u, v, w);
        assert_eq!(r, f[corner]);
    }
}

#[test]
fn trilerp_inside() {
    let f: Vec<Fixed> = (0..8).map(|k| fx(k as f64)).collect();
    let h = fx(0.5);
    assert_eq!(trilerp(f[0], f[1], f[2], f[3], f[4], f[5], f[6], f[7], h, h, h), fx(3.5));
    let g: Vec<Fixed> = (0..8).map(|k| fx((k * k) as f64)).collect();
    assert_eq!(
        trilerp(g[0], g[1], g[2], g[3], g[4], g[5], g[6], g[7], fx(0.25), fx(0.5), fx(0.75)),
        fx(22.25)
    );
}

#[test]
fn trilerp_is_bilerp_twice_and_lerp() {
    let f = [raw(3), raw(-5), raw(1 << 40), raw(9), raw(-(1 << 35)), raw(12345), raw(0), raw(-1)];
    let (u, v, w) = (raw(100000000), raw(500000000), raw(900000000));
    assert_eq!(
        trilerp(f[0], f[1], f[2], f[3], f[4], f[5], f[6], f[7], u, v, w),
        lerp(bilerp(f[0], f[1], f[2], f[3], u, v), bilerp(f[4], f[5], f[6], f[7], u, v), w)
    );
}

#[test]
fn scurve3_marks() {
    assert_eq!(scurve3(fx(0.0)), fx(0.0));
    assert_eq!(scurve3(fx(0.5)), fx(0.5));
    assert_eq!(scurve3(fx(1.0)), fx(1.0));
}

#[test]
fn scurve5_marks() {
    assert_eq!(scurve5(fx(0.0)), fx(0.0));
    assert_eq!(scurve5(fx(0.5)), fx(0.5));
    assert_eq!(scurve5(fx(1.0)), fx(1.0));
}

#[test]
fn scurve3_values() {
    assert_eq!(scurve3(fx(0.25)), fx(0.15625));
    assert_eq!(scurve3(fx(0.75)), fx(0.84375));
    assert_eq!(scurve3(fx(2.0)), fx(-4.0));
    assert_eq!(scurve3(fx(-1.0)), fx(5.0));
    assert_eq!(scurve3(raw(123456789)), raw(39320289));
    assert_eq!(scurve3(raw(1)), raw(0));
    assert_eq!(scurve3(raw(ONE - 1)), raw(ONE - 1));
}

#[test]
fn scurve5_values() {
    assert_eq!(scurve5(fx(0.25)), fx(0.103515625));
    assert_eq!(scurve5(fx(0.75)), fx(0.896484375));
    assert_eq!(scurve5(fx(2.0)), fx(32.0));
    assert_eq!(scurve5(raw(123456789)), raw(13635571));
    assert_eq!(scurve5(raw(ONE - 1)), raw(ONE - 1));
}

#[test]
fn scurves_are_on_their_curves_where_nothing_is_rounded() {
    for k in 0..=32 {
        let t = k as f64 / 32.0;
        assert_eq!(scurve3(fx(t)), fx(t * t * (3.0 - 2.0 * t)));
        assert_eq!(scurve5(fx(t)), fx(t * t * t * (t * (t * 6.0 - 15.0) + 10.0)));
    }
}

#[test]
fn scurves_never_fall_between_zero_and_one() {
    let mut last3 = scurve3(fx(0.0));
    let mut last5 = scurve5(fx(0.0));
    for k in 1..=64 {
        let t = fx(k as f64 / 64.0);
        assert!(last3.bits <= scurve3(t).bits);
        assert!(last5.bits <= scurve5(t).bits);
        last3 = scurve3(t);
        last5 = scurve5(t);
    }
    assert_eq!(last3, fx(1.0));
    assert_eq!(last5, fx(1.0));
}

#[test]
fn rounding_down_can_cost_the_last_step() {
    // On the exact curves a larger offset never gets a smaller weight. The products are
    // rounded down, so next to each other the last bit can go the other way.
    assert_eq!(scurve3(raw(450874518)), raw(408979563));
    assert_eq!(scurve3(raw(450874519)), raw(408979562));
    assert_eq!(scurve5(raw(253228484)), raw(95719665));
    assert_eq!(scurve5(raw(253228485)), raw(95719664));
}

#[test]
fn scurve5_is_flatter_than_scurve3_near_the_ends() {
    let t = fx(0.125);
    assert!(scurve5(t).bits < scurve3(t).bits);
    assert!(scurve3(t).bits < t.bits);
    let t = fx(0.875);
    assert!(scurve5(t).bits > scurve3(t).bits);
    assert!(scurve3(t).bits > t.bits);
}

#[test]
fn quality_picks_the_curve() {
    let t = fx(0.25);
    assert_eq!(Quality::Fast.curve(t), t);
    assert_eq!(Quality::Standard.curve(t), scurve3(t));
    assert_eq!(Quality::Best.curve(t), scurve5(t));
    assert_eq!(Quality::Standard.curve(t), fx(0.15625));
    assert_eq!(Quality::Best.curve(t), fx(0.103515625));
}
