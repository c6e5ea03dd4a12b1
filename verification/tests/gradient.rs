use noise::gradient::{grad_1d, grad_2d, grad_3d, Rng};
use noise::util::{bilerp, lerp, scurve3, scurve5};
use noise::{Fixed, GradientNoise, Noise, Quality, Real};

const QUALITIES: [Quality; 3] = [Quality::Fast, Quality::Standard, Quality::Best];

/// The `Fixed` for a float that is a multiple of 2^-30.
fn fx(x: f64) -> Fixed {
    let bits = x * 1073741824.0;
    assert_eq!(bits, bits.floor());
    Fixed { bits: bits as i64 }
}

fn raw(bits: i64) -> Fixed {
    Fixed { bits }
}

/// A source that never swaps: it always draws the lowest number.
struct Lowest;

impl Rng for Lowest {
    fn gen_range(&mut self, low: usize, _high: usize) -> usize {
        low
    }
}

/// A source that always draws the highest number.
struct Highest;

impl Rng for Highest {
    fn gen_range(&mut self, _low: usize, high: usize) -> usize {
        high - 1
    }
}

/// A linear congruential generator.
struct Lcg {
    state: u64,
}

impl Rng for Lcg {
    fn gen_range(&mut self, low: usize, high: usize) -> usize {
        self.state = self.state.wrapping_mul(6364136223846793005).wrapping_add(1442695040888963407);
        low + ((self.state >> 33) % ((high - low) as u64)) as usize
    }
}

/// A source that writes down what it is asked for.
struct Recorder {
    asked: Vec<(usize, usize)>,
}

impl Rng for Recorder {
    fn gen_range(&mut self, low: usize, high: usize) -> usize {
        self.asked.push((low, high));
        low + (high - low) / 2
    }
}

fn identity_swaps() -> [usize; 256] {
    let mut swaps = [0usize; 256];
    for i in 0..256 {
        swaps[i] = i;
    }
    swaps
}

fn assert_valid(table: &[usize; 512]) {
    let mut seen = [false; 256];
    for i in 0..256 {
        assert!(table[i] < 256);
        assert!(!seen[table[i]]);
        seen[table[i]] = true;
        assert_eq!(table[i + 256], table[i]);
    }
    for i in 0..512 {
        assert!(table[i] <= 255);
    }
}

#[test]
fn grad_1d_keeps_the_offset_for_an_even_hash_and_turns_it_for_an_odd_one() {
    for x in [fx(0.5), fx(-0.5), fx(0.0), fx(3.25), raw(1), raw(-1), raw(i64::MAX)] {
        for hash in [0usize, 2, 4, 100, 254, 256, usize::MAX - 1] {
            assert_eq!(grad_1d(hash, x), x);
        }
        for hash in [1usize, 3, 5, 101, 255, 257, usize::MAX] {
            assert_eq!(grad_1d(hash, x), x.neg());
        }
    }
    assert_eq!(grad_1d(7, fx(0.5)), fx(-0.5));
    assert_eq!(grad_1d(7, fx(-0.5)), fx(0.5));
    assert_eq!(grad_1d(8, fx(-0.5)), fx(-0.5));
}

#[test]
fn grad_1d_does_not_follow_the_sign_of_the_offset() {
    // With an even hash the gradient of x and of -x differ by the sign, so they are not
    // equal unless x is zero.
    assert_ne!(grad_1d(2, fx(0.5)), grad_1d(2, fx(-0.5)).neg().neg());
    assert_eq!(grad_1d(2, fx(0.5)), grad_1d(2, fx(-0.5)).neg());
    assert_eq!(grad_1d(3, fx(0.5)), grad_1d(2, fx(-0.5)));
}

#[test]
fn grad_2d_has_four_directions() {
    let (x, y) = (fx(1.0), fx(2.0));
    let expected = [3.0, -1.0, 1.0, -3.0];
    for hash in 0..64usize {
        assert_eq!(grad_2d(hash, x, y), fx(expected[hash % 4]));
    }
    assert_eq!(grad_2d(0, fx(0.25), fx(-0.5)), fx(-0.25));
    assert_eq!(grad_2d(1, fx(0.25), fx(-0.5)), fx(0.75));
    assert_eq!(grad_2d(2, fx(0.25), fx(-0.5)), fx(-0.75));
    assert_eq!(grad_2d(3, fx(0.25), fx(-0.5)), fx(0.25));
}

#[test]
fn grad_3d_has_twelve_directions() {
    let (x, y, z) = (fx(1.0), fx(2.0), fx(4.0));
    let expected = [
        3.0, 1.0, -1.0, -3.0, 5.0, 3.0, -3.0, -5.0, 6.0, 2.0, -2.0, -6.0, 3.0, 2.0, 1.0, -6.0,
    ];
    for hash in 0..256usize {
        assert_eq!(grad_3d(hash, x, y, z), fx(expected[hash % 16]));
    }
    let mut distinct: Vec<f64> = Vec::new();
    for hash in 0..16usize {
        let v = grad_3d(hash, fx(1.0), fx(8.0), fx(64.0)).bits as f64 / 1073741824.0;
        if !distinct.contains(&v) {
            distinct.push(v);
        }
    }
    assert_eq!(distinct.len(), 12);
}

#[test]
fn the_shuffle_without_swaps_leaves_the_identity() {
    let noise = GradientNoise::with_swaps(&identity_swaps(), Quality::Fast);
    let table = noise.permutations();
    for i in 0..256 {
        assert_eq!(table[i], i);
        assert_eq!(table[i + 256], i);
    }
    let drawn = GradientNoise::new(&mut Lowest, Quality::Fast);
    assert_eq!(drawn.permutations(), table);
}

#[test]
fn the_shuffle_that_always_swaps_with_the_last_turns_the_table_by_one() {
    let noise = GradientNoise::new(&mut Highest, Quality::Best);
    let table = noise.permutations();
    assert_eq!(table[0], 255);
    for i in 1..256 {
        assert_eq!(table[i], i - 1);
    }
    assert_valid(table);
    let swaps = [255usize; 256];
    assert_eq!(GradientNoise::with_swaps(&swaps, Quality::Best).permutations(), table);
}

#[test]
fn the_shuffle_asks_for_one_number_for_each_entry_not_yet_fixed() {
    let mut recorder = Recorder { asked: Vec::new() };
    let noise = GradientNoise::new(&mut recorder, Quality::Standard);
    assert_eq!(recorder.asked.len(), 256);
    for i in 0..256 {
        assert_eq!(recorder.asked[i], (0, 256 - i));
    }
    assert_valid(noise.permutations());
    let mut swaps = [0usize; 256];
    for i in 0..256 {
        swaps[i] = i + (256 - i) / 2;
    }
    assert_eq!(
        GradientNoise::with_swaps(&swaps, Quality::Standard).permutations(),
        noise.permutations()
    );
}

#[test]
fn a_drawn_table_is_a_permutation_twice_over() {
    for seed in [0u64, 1, 2014, 0xdead_beef, u64::MAX] {
        let noise = GradientNoise::new(&mut Lcg { state: seed }, Quality::Fast);
        assert_valid(noise.permutations());
    }
}

#[test]
fn the_same_draws_give_the_same_table() {
    let first = GradientNoise::new(&mut Lcg { state: 2014 }, Quality::Fast);
    let second = GradientNoise::new(&mut Lcg { state: 2014 }, Quality::Fast);
    let other = GradientNoise::new(&mut Lcg { state: 2015 }, Quality::Fast);
    assert_eq!(first.permutations(), second.permutations());
    assert_ne!(first.permutations(), other.permutations());
    let table = first.permutations();
    assert_eq!(table[..8], [239, 84, 155, 13, 86, 60, 75, 66]);
    assert_eq!(table[250..256], [130, 211, 170, 53, 54, 221]);
    let mut sum = 0;
    for i in 0..256 {
        sum += i * table[i];
    }
    assert_eq!(sum, 4098285);
}

#[test]
fn with_the_identity_table_half_way_along_the_first_cell() {
    let noise = GradientNoise::new(&mut Lowest, Quality::Fast);
    let table = noise.permutations();
    let expected = lerp(grad_1d(table[0], fx(0.5)), grad_1d(table[1], fx(-0.5)), fx(0.5));
    assert_eq!(noise.sample_1d(fx(0.5)), expected);
    assert_eq!(noise.sample_1d(fx(0.5)), fx(0.5));
}

#[test]
fn gradient_sample_1d_blends_the_two_corners() {
    let noise = GradientNoise::new(&mut Lcg { state: 99 }, Quality::Standard);
    let table = noise.permutations();
    let x = fx(-6.6875);
    let rel = fx(0.3125);
    let cell = 256 - 7;
    let f0 = grad_1d(table[cell], rel);
    let f1 = grad_1d(table[cell + 1], rel.sub(fx(1.0)));
    assert_eq!(noise.sample_1d(x), lerp(f0, f1, scurve3(rel)));
}

#[test]
fn gradient_sample_2d_blends_the_four_corners() {
    let noise = GradientNoise::new(&mut Lcg { state: 99 }, Quality::Best);
    let table = noise.permutations();
    let (rx, ry) = (fx(0.75), fx(0.125));
    let (cx, cy) = (2usize, 255usize);
    let a = table[cx] + cy;
    let b = table[cx + 1] + cy;
    let one = fx(1.0);
    let expected = bilerp(
        grad_2d(table[a], rx, ry),
        grad_2d(table[b], rx.sub(one), ry),
        grad_2d(table[a + 1], rx, ry.sub(one)),
        grad_2d(table[b + 1], rx.sub(one), ry.sub(one)),
        scurve5(rx),
        scurve5(ry),
    );
    assert_eq!(noise.sample_2d(fx(2.75), fx(-0.875)), expected);
}

#[test]
fn values_with_the_identity_table() {
    let expected = [
        (Quality::Fast, [536870912, -402653184, -402653184, 134217728, -67108864, 67108864, 22020096]),
        (Quality::Standard, [536870912, -352321536, -352321536, 83886080, -23068672, -112197632, 8279040]),
        (Quality::Best, [536870912, -324009984, -324009984, 55574528, -8617984, -237940736, 3179867]),
    ];
    for (quality, v) in expected {
        let noise = GradientNoise::with_swaps(&identity_swaps(), quality);
        assert_eq!(noise.sample_1d(fx(0.5)), raw(v[0]));
        assert_eq!(noise.sample_1d(fx(1.25)), raw(v[1]));
        assert_eq!(noise.sample_1d(fx(-0.75)), raw(v[2]));
        assert_eq!(noise.sample_2d(fx(0.5), fx(0.25)), raw(v[3]));
        assert_eq!(noise.sample_2d(fx(-3.5), fx(7.875)), raw(v[4]));
        assert_eq!(noise.sample_3d(fx(0.5), fx(0.25), fx(0.75)), raw(v[5]));
        assert_eq!(noise.sample_3d(fx(10.125), fx(-20.5), fx(300.875)), raw(v[6]));
    }
}

#[test]
fn values_with_a_drawn_table() {
    let expected = [
        (Quality::Fast, [-536870912, 402653184, -469762048, 117440512, 226492416, -583008256, -268435456, 0]),
        (Quality::Standard, [-536870912, 352321536, -494927872, 128450560, 244187136, -563138560, -268435456, 0]),
        (Quality::Best, [-536870912, 324009984, -509083648, 132063232, 253103616, -547959781, -268435456, 0]),
    ];
    for (quality, v) in expected {
        let noise = GradientNoise::new(&mut Lcg { state: 2014 }, quality);
        assert_eq!(noise.sample_1d(fx(0.5)), raw(v[0]));
        assert_eq!(noise.sample_1d(fx(1.25)), raw(v[1]));
        assert_eq!(noise.sample_2d(fx(0.5), fx(0.25)), raw(v[2]));
        assert_eq!(noise.sample_2d(fx(-3.5), fx(7.875)), raw(v[3]));
        assert_eq!(noise.sample_3d(fx(0.5), fx(0.25), fx(0.75)), raw(v[4]));
        assert_eq!(noise.sample_3d(fx(10.125), fx(-20.5), fx(300.875)), raw(v[5]));
        assert_eq!(noise.sample_3d(fx(255.5), fx(255.5), fx(255.5)), raw(v[6]));
        assert_eq!(noise.sample_1d(fx(255.5)), raw(v[7]));
    }
}

#[test]
fn gradient_noise_is_zero_at_lattice_points() {
    for seed in [3u64, 2014] {
        for quality in QUALITIES {
            let noise = GradientNoise::new(&mut Lcg { state: seed }, quality);
            let mut k: i64 = -300;
            while k <= 300 {
                let x = Fixed { bits: k << 30 };
                let y = Fixed { bits: (7 * k + 1) << 30 };
                let z = Fixed { bits: (k * k) << 30 };
                assert_eq!(noise.sample_1d(x), fx(0.0));
                assert_eq!(noise.sample_2d(x, y), fx(0.0));
                assert_eq!(noise.sample_3d(x, y, z), fx(0.0));
                k += 13;
            }
        }
    }
}

#[test]
fn gradient_noise_repeats_every_256_cells() {
    let noise = GradientNoise::new(&mut Lcg { state: 5 }, Quality::Standard);
    let (x, y, z) = (fx(3.25), fx(-17.5), fx(200.125));
    let far = |v: Fixed, cells: i64| Fixed { bits: v.bits + ((256 * cells) << 30) };
    assert_eq!(noise.sample_1d(far(x, 1)), noise.sample_1d(x));
    assert_eq!(noise.sample_2d(far(x, -2), far(y, 3)), noise.sample_2d(x, y));
    assert_eq!(noise.sample_3d(far(x, 5), far(y, -1), far(z, 1000)), noise.sample_3d(x, y, z));
}

#[test]
fn sampling_leaves_the_noise_as_it_was() {
    let noise = GradientNoise::new(&mut Lcg { state: 8 }, Quality::Best);
    let before = *noise.permutations();
    let first = noise.sample_3d(fx(1.5), fx(2.5), fx(3.5));
    let second = noise.sample_3d(fx(1.5), fx(2.5), fx(3.5));
    assert_eq!(first, second);
    assert_eq!(*noise.permutations(), before);
}
