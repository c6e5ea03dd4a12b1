use noise::util::{bilerp, lerp, scurve3, scurve5, trilerp};
use noise::{Fixed, IntegerNoise, Noise, Quality, ValueNoise};

const QUALITIES: [Quality; 3] = [Quality::Fast, Quality::Standard, Quality::Best];

/// The `Fixed` for a float that is a multiple of 2^-30.
fn fx(x: f64) -> Fixed {
    let bits = x * 1073741824.0;
    assert_eq!(bits, bits.floor());
    Fixed { bits: bits as i64 }
}

fn raw(bits: i64) -> Fixed {
    Fixed { bits }
}

#[test]
fn value_sample_1d_values() {
    let expected = [
        (Quality::Fast, 337628879, -186349993),
        (Quality::Standard, 337628879, -193335551),
        (Quality::Best, 337628879, -197264927),
    ];
    for (quality, at_half, at_quarter) in expected {
        let noise = ValueNoise::new(42, quality);
        assert_eq!(noise.sample_1d(fx(0.5)), raw(at_half));
        assert_eq!(noise.sample_1d(fx(3.25)), raw(at_quarter));
    }
}

#[test]
fn value_sample_2d_values() {
    let expected = [
        (Quality::Fast, 415089878),
        (Quality::Standard, 602671568),
        (Quality::Best, 711105812),
    ];
    for (quality, value) in expected {
        assert_eq!(ValueNoise::new(42, quality).sample_2d(fx(3.25), fx(-4.75)), raw(value));
    }
}

#[test]
fn value_sample_3d_values() {
    let expected = [
        (Quality::Fast, 633660379, 377556131),
        (Quality::Standard, 752164674, 380713792),
        (Quality::Best, 820644837, 381068272),
    ];
    for (quality, first, second) in expected {
        assert_eq!(
            ValueNoise::new(42, quality).sample_3d(fx(3.25), fx(-4.75), fx(0.5)),
            raw(first)
        );
        assert_eq!(
            ValueNoise::new(-7, quality).sample_3d(fx(-0.125), fx(100.875), fx(7.0)),
            raw(second)
        );
    }
}

#[test]
fn halfway_is_the_mean_of_the_two_corners() {
    let source = IntegerNoise::new(42);
    let f0 = source.sample_1d(fx(0.0));
    let f1 = source.sample_1d(fx(1.0));
    assert_eq!(f0, raw(984444103));
    assert_eq!(f1, raw(-309186345));
    for quality in QUALITIES {
        assert_eq!(ValueNoise::new(42, quality).sample_1d(fx(0.5)), raw((984444103 - 309186345) / 2));
    }
}

#[test]
fn value_sample_1d_blends_the_two_corners() {
    let source = IntegerNoise::new(9);
    let x = fx(-6.6875);
    let rel = fx(0.3125);
    let f0 = source.sample_1d(fx(-7.0));
    let f1 = source.sample_1d(fx(-6.0));
    assert_eq!(ValueNoise::new(9, Quality::Fast).sample_1d(x), lerp(f0, f1, rel));
    assert_eq!(ValueNoise::new(9, Quality::Standard).sample_1d(x), lerp(f0, f1, scurve3(rel)));
    assert_eq!(ValueNoise::new(9, Quality::Best).sample_1d(x), lerp(f0, f1, scurve5(rel)));
}

#[test]
fn value_sample_2d_blends_the_four_corners() {
    let source = IntegerNoise::new(9);
    let (u, v) = (fx(0.75), fx(0.125));
    let f00 = source.sample_2d(fx(2.0), fx(-1.0));
    let f10 = source.sample_2d(fx(3.0), fx(-1.0));
    let f01 = source.sample_2d(fx(2.0), fx(0.0));
    let f11 = source.sample_2d(fx(3.0), fx(0.0));
    assert_eq!(
        ValueNoise::new(9, Quality::Fast).sample_2d(fx(2.75), fx(-0.875)),
        bilerp(f00, f10, f01, f11, u, v)
    );
    assert_eq!(
        ValueNoise::new(9, Quality::Best).sample_2d(fx(2.75), fx(-0.875)),
        bilerp(f00, f10, f01, f11, scurve5(u), scurve5(v))
    );
}

#[test]
fn value_sample_3d_blends_the_eight_corners() {
    let source = IntegerNoise::new(-3);
    let (u, v, w) = (fx(0.5), fx(0.25), fx(0.875));
    let at = |dx: f64, dy: f64, dz: f64| source.sample_3d(fx(10.0 + dx), fx(-20.0 + dy), fx(dz));
    let expected = trilerp(
        at(0.0, 0.0, 0.0),
        at(1.0, 0.0, 0.0),
        at(0.0, 1.0, 0.0),
        at(1.0, 1.0, 0.0),
        at(0.0, 0.0, 1.0),
        at(1.0, 0.0, 1.0),
        at(0.0, 1.0, 1.0),
        at(1.0, 1.0, 1.0),
        scurve3(u),
        scurve3(v),
        scurve3(w),
    );
    assert_eq!(
        ValueNoise::new(-3, Quality::Standard).sample_3d(fx(10.5), fx(-19.75), fx(0.875)),
        expected
    );
}

#[test]
fn at_lattice_points_value_noise_is_integer_noise() {
    for seed in [0, 1, 42, -7, i64::MAX] {
        let source = IntegerNoise::new(seed);
        for quality in QUALITIES {
            let noise = ValueNoise::new(seed, quality);
            let mut k: i64 = -20;
            while k <= 20 {
                let x = Fixed { bits: k << 30 };
                let y = Fixed { bits: (3 * k - 1) << 30 };
                let z = Fixed { bits: (k * k) << 30 };
                assert_eq!(noise.sample_1d(x), source.sample_1d(x));
                assert_eq!(noise.sample_2d(x, y), source.sample_2d(x, y));
                assert_eq!(noise.sample_3d(x, y, z), source.sample_3d(x, y, z));
                k += 1;
            }
        }
    }
}

#[test]
fn value_lattice_values() {
    assert_eq!(ValueNoise::new(42, Quality::Best).sample_1d(fx(3.0)), raw(-204978147));
    assert_eq!(ValueNoise::new(42, Quality::Fast).sample_1d(fx(4.0)), raw(-130465529));
}

#[test]
fn value_noise_joins_up_across_a_lattice_point() {
    let noise = ValueNoise::new(5, Quality::Fast);
    let at = noise.sample_1d(fx(2.0));
    let before = noise.sample_1d(raw((2 << 30) - 1));
    let after = noise.sample_1d(raw((2 << 30) + 1));
    assert!((at.bits - before.bits).abs() <= 4);
    assert!((at.bits - after.bits).abs() <= 4);
}

#[test]
fn value_samples_repeat() {
    let noise = ValueNoise::new(77, Quality::Standard);
    let copy = noise;
    let (x, y, z) = (raw(123456789012), raw(-98765432109), raw(5));
    assert_eq!(noise.sample_3d(x, y, z), copy.sample_3d(x, y, z));
    assert_eq!(noise, ValueNoise::new(77, Quality::Standard));
    assert_ne!(noise, ValueNoise::new(77, Quality::Best));
}
