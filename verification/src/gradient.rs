use vstd::prelude::*;
use crate::scalar::{
    is_whole, lattice, lemma_add_whole, lemma_floor_whole, lemma_holds_short, lemma_neg_whole,
    lemma_sub_whole, offset, Real,
};
use crate::util::{
    bilerp, bilerp_spec, lemma_bilerp_zero_within, lemma_lerp_zero_within,
    lemma_trilerp_zero_within, lerp, lerp_spec, trilerp, trilerp_spec,
};
use crate::{Noise, Quality};

verus! {

/// A source of uniform random integers.
pub trait Rng {
    /// An integer drawn from `low` up to, but not including, `high`.
    fn gen_range(&mut self, low: usize, high: usize) -> (r: usize)
        requires
            low < high,
        ensures
            low <= r < high,
    ;
}

/// The table before the shuffle: every index holds itself.
pub open spec fn identity_table() -> Seq<usize> {
    Seq::new(256, |i: int| i as usize)
}

/// The table with the entries at `i` and `j` exchanged.
pub open spec fn swapped(t: Seq<usize>, i: int, j: int) -> Seq<usize> {
    t.update(i, t[j]).update(j, t[i])
}

/// The swap positions of a shuffle: one for each index, at or behind that index.
pub open spec fn valid_swaps(swaps: Seq<usize>) -> bool {
    &&& swaps.len() == 256
    &&& forall|i: int| 0 <= i < 256 ==> i <= #[trigger] swaps[i] < 256
}

/// The table after the first `n` steps of the shuffle: step `i` exchanges the entry at `i`
/// with the entry at `swaps[i]`.
pub open spec fn shuffled(swaps: Seq<usize>, n: nat) -> Seq<usize>
    decreases n,
{
    if n == 0 {
        identity_table()
    } else {
        swapped(shuffled(swaps, (n - 1) as nat), n - 1, swaps[n - 1] as int)
    }
}

/// The whole table that a shuffle leaves: the shuffled entries, twice over.
pub open spec fn table_of(swaps: Seq<usize>) -> Seq<usize> {
    shuffled(swaps, 256) + shuffled(swaps, 256)
}

/// A permutation of 0 to 255: 256 entries below 256, no two of them equal.
pub open spec fn is_permutation(t: Seq<usize>) -> bool {
    &&& t.len() == 256
    &&& forall|i: int| 0 <= i < 256 ==> #[trigger] t[i] < 256
    &&& forall|i: int, j: int| 0 <= i < j < 256 ==> t[i] != t[j]
}

/// A table that sampling can walk without a check: 512 entries, the first 256 a permutation
/// of 0 to 255, the other 256 the same once more.
pub open spec fn valid_table(t: Seq<usize>) -> bool {
    &&& t.len() == 512
    &&& is_permutation(t.subrange(0, 256))
    &&& forall|i: int| 0 <= i < 256 ==> #[trigger] t[i + 256] == t[i]
}

/// Every step of a shuffle leaves a permutation.
pub proof fn lemma_shuffled_is_permutation(swaps: Seq<usize>, n: nat)
    requires
        valid_swaps(swaps),
        n <= 256,
    ensures
        is_permutation(shuffled(swaps, n)),
    decreases n,
{
    if n > 0 {
        lemma_shuffled_is_permutation(swaps, (n - 1) as nat);
    }
}

/// Every step of a shuffle leaves each number from 0 to 255 somewhere in the table.
pub proof fn lemma_shuffled_holds_each(swaps: Seq<usize>, n: nat, v: usize) -> (i: int)
    requires
        valid_swaps(swaps),
        n <= 256,
        v < 256,
    ensures
        0 <= i < 256,
        shuffled(swaps, n)[i] == v,
    decreases n,
{
    if n == 0 {
        v as int
    } else {
        let before = lemma_shuffled_holds_each(swaps, (n - 1) as nat, v);
        lemma_shuffled_is_permutation(swaps, (n - 1) as nat);
        let pos = swaps[n - 1] as int;
        if before == n - 1 {
            pos
        } else if before == pos {
            n - 1
        } else {
            before
        }
    }
}

/// A shuffle leaves a table that sampling can walk.
pub proof fn lemma_table_of_valid(swaps: Seq<usize>)
    requires
        valid_swaps(swaps),
    ensures
        valid_table(table_of(swaps)),
{
    lemma_shuffled_is_permutation(swaps, 256);
    assert(table_of(swaps).subrange(0, 256) =~= shuffled(swaps, 256));
}

/// Gradient noise over a lattice, after Perlin.
pub struct GradientNoise {
    permutations: [usize; 512],
    quality: Quality,
}

impl GradientNoise {
    #[verifier::type_invariant]
    spec fn inv(&self) -> bool {
        valid_table(self.permutations@)
    }

    /// The permutation table: 512 entries.
    pub closed spec fn table(&self) -> Seq<usize> {
        self.permutations@
    }

    /// The quality that the noise was made with.
    pub closed spec fn quality(&self) -> Quality {
        self.quality
    }

    /// The permutation table.
    pub fn permutations(&self) -> (r: &[usize; 512])
        ensures
            r@ == self.table(),
            valid_table(r@),
    {
        proof {
            use_type_invariant(self);
        }
        &self.permutations
    }

    /// The noise whose table the shuffle with the given swap positions leaves.
    pub fn with_swaps(swaps: &[usize; 256], quality: Quality) -> (r: GradientNoise)
        requires
            valid_swaps(swaps@),
        ensures
            r.table() == table_of(swaps@),
            r.quality() == quality,
            valid_table(r.table()),
    {
        let mut permutations = [0usize; 512];
        let mut i: usize = 0;
        while i < 256
            invariant
                i <= 256,
                forall|j: int| 0 <= j < i ==> permutations@[j] == j,
            decreases 256 - i,
        {
            permutations[i] = i;
            i += 1;
        }
        assert(permutations@.subrange(0, 256) =~= shuffled(swaps@, 0));
        i = 0;
        while i < 256
            invariant
                i <= 256,
                valid_swaps(swaps@),
                permutations@.subrange(0, 256) == shuffled(swaps@, i as nat),
                forall|j: int| 0 <= j < i ==> #[trigger] permutations@[j + 256] == permutations@[j],
            decreases 256 - i,
        {
            let ghost before = permutations@;
            let pos = swaps[i];
            let held = permutations[i];
            permutations[i] = permutations[pos];
            permutations[pos] = held;
            permutations[i + 256] = permutations[i];
            proof {
                assert(before[i as int] == before.subrange(0, 256)[i as int]);
                assert(before[pos as int] == before.subrange(0, 256)[pos as int]);
                assert(permutations@.subrange(0, 256) =~= swapped(
                    before.subrange(0, 256),
                    i as int,
                    pos as int,
                ));
            }
            i += 1;
        }
        proof {
            assert(permutations@ =~= table_of(swaps@)) by {
                assert forall|j: int| 0 <= j < 512 implies permutations@[j] == table_of(swaps@)[j] by {
                    if j < 256 {
                        assert(permutations@[j] == permutations@.subrange(0, 256)[j]);
                    } else {
                        assert(permutations@[(j - 256) + 256] == permutations@[j - 256]);
                        assert(permutations@[j - 256] == permutations@.subrange(0, 256)[j - 256]);
                    }
                }
            }
            lemma_table_of_valid(swaps@);
        }
        GradientNoise { permutations, quality }
    }

    /// The noise that a shuffle with positions drawn from `rand` leaves: for each index from
    /// 0 to 255 in turn, one draw from 0 up to the number of entries not yet fixed.
    pub fn new<T: Rng>(rand: &mut T, quality: Quality) -> (r: GradientNoise)
        ensures
            valid_table(r.table()),
            r.quality() == quality,
            exists|swaps: Seq<usize>| valid_swaps(swaps) && r.table() == table_of(swaps),
    {
        let mut swaps = [0usize; 256];
        let mut i: usize = 0;
        while i < 256
            invariant
                i <= 256,
                forall|j: int| 0 <= j < i ==> j <= #[trigger] swaps@[j] < 256,
            decreases 256 - i,
        {
            let pos = rand.gen_range(0, 256 - i) + i;
            swaps[i] = pos;
            i += 1;
        }
        GradientNoise::with_swaps(&swaps, quality)
    }
}

/// The gradient that `grad_1d` gives: the offset itself for an even hash, its opposite for an
/// odd one.
pub open spec fn grad_1d_spec<F: Real>(hash: usize, x: F) -> F {
    if hash % 2 == 0 {
        x
    } else {
        x.neg_spec()
    }
}

/// The gradient that `grad_2d` gives: the sum of the two offsets, the first with its sign
/// turned where bit 1 of the hash is set, the second where bit 0 is set.
pub open spec fn grad_2d_spec<F: Real>(hash: usize, x: F, y: F) -> F {
    let u = if (hash / 2) % 2 == 0 {
        x
    } else {
        x.neg_spec()
    };
    let v = if hash % 2 == 0 {
        y
    } else {
        y.neg_spec()
    };
    u.add_spec(v)
}

/// The gradient that `grad_3d` gives. The low four bits of the hash pick two of the three
/// offsets; bit 0 turns the sign of the first, bit 1 that of the second.
pub open spec fn grad_3d_spec<F: Real>(hash: usize, x: F, y: F, z: F) -> F {
    let h = hash % 16;
    let u = if h < 8 {
        x
    } else {
        y
    };
    let v = if h < 4 {
        y
    } else if h == 12 || h == 14 {
        x
    } else {
        z
    };
    if h % 2 == 0 {
        if (h / 2) % 2 == 0 {
            u.add_spec(v)
        } else {
            u.sub_spec(v)
        }
    } else {
        if (h / 2) % 2 == 0 {
            u.neg_spec().add_spec(v)
        } else {
            u.neg_spec().sub_spec(v)
        }
    }
}

/// The gradient at a corner of a line's cell, applied to the offset from that corner.
pub fn grad_1d<F: Real>(hash: usize, x: F) -> (r: F)
    ensures
        r == grad_1d_spec(hash, x),
{
    assert(hash & 1 == hash % 2) by (bit_vector);
    if hash & 1 == 0 {
        x
    } else {
        x.neg()
    }
}

/// The gradient at a corner of a square, applied to the offset from that corner: one of four
/// directions.
pub fn grad_2d<F: Real>(hash: usize, x: F, y: F) -> (r: F)
    ensures
        r == grad_2d_spec(hash, x, y),
{
    let h = hash & 3;
    assert((hash & 3) & 2 == 0 <==> (hash / 2) % 2 == 0) by (bit_vector);
    assert((hash & 3) & 1 == 0 <==> hash % 2 == 0) by (bit_vector);
    let u = if h & 2 == 0 {
        x
    } else {
        x.neg()
    };
    let v = if h & 1 == 0 {
        y
    } else {
        y.neg()
    };
    u.add(v)
}

/// The gradient at a corner of a cube, applied to the offset from that corner: one of twelve
/// directions.
pub fn grad_3d<F: Real>(hash: usize, x: F, y: F, z: F) -> (r: F)
    ensures
        r == grad_3d_spec(hash, x, y, z),
{
    let h = hash & 15;
    assert(hash & 15 == hash % 16) by (bit_vector);
    assert(h & 1 == h % 2) by (bit_vector);
    assert(h & 2 == 0 <==> (h / 2) % 2 == 0) by (bit_vector);
    let u = if h < 8 {
        x
    } else {
        y
    };
    let v = if h < 4 {
        y
    } else if h == 12 || h == 14 {
        x
    } else {
        z
    };
    if h & 1 == 0 {
        if h & 2 == 0 {
            u.add(v)
        } else {
            u.sub(v)
        }
    } else {
        if h & 2 == 0 {
            u.neg().add(v)
        } else {
            u.neg().sub(v)
        }
    }
}

/// The index of the cell that holds a coordinate, within the period of 256 cells.
pub open spec fn cell<F: Real>(x: F) -> int {
    (lattice(x) as int) % 256
}

/// The low eight bits of a lattice coordinate.
fn low_byte(n: i64) -> (r: usize)
    ensures
        r == n % 256,
{
    assert(0 <= n & 255 < 256 && n & 255 == n % 256) by (bit_vector);
    (n & 255) as usize
}

impl<F: Real> Noise<F> for GradientNoise {
    /// The two corners of the cell blended: each corner's gradient, picked by the table,
    /// applied to the offset from that corner.
    open spec fn sample_1d_spec(&self, x: F) -> F {
        let t = self.table();
        let cx = cell(x);
        let rel_x = offset(x);
        let one = F::from_int_spec(1);
        lerp_spec(
            grad_1d_spec(t[cx], rel_x),
            grad_1d_spec(t[cx + 1], rel_x.sub_spec(one)),
            self.quality().curve_spec(rel_x),
        )
    }

    /// The four corners of the cell blended. The table is walked once for each axis: the
    /// entry for the first axis, moved on by the second, picks the corner's gradient.
    open spec fn sample_2d_spec(&self, x: F, y: F) -> F {
        let t = self.table();
        let cx = cell(x);
        let cy = cell(y);
        let rel_x = offset(x);
        let rel_y = offset(y);
        let one = F::from_int_spec(1);
        let a = t[cx] + cy;
        let b = t[cx + 1] + cy;
        bilerp_spec(
            grad_2d_spec(t[a], rel_x, rel_y),
            grad_2d_spec(t[b], rel_x.sub_spec(one), rel_y),
            grad_2d_spec(t[a + 1], rel_x, rel_y.sub_spec(one)),
            grad_2d_spec(t[b + 1], rel_x.sub_spec(one), rel_y.sub_spec(one)),
            self.quality().curve_spec(rel_x),
            self.quality().curve_spec(rel_y),
        )
    }

    /// The eight corners of the cell blended, the table walked once for each axis.
    open spec fn sample_3d_spec(&self, x: F, y: F, z: F) -> F {
        let t = self.table();
        let cx = cell(x);
        let cy = cell(y);
        let cz = cell(z);
        let rel_x = offset(x);
        let rel_y = offset(y);
        let rel_z = offset(z);
        let one = F::from_int_spec(1);
        let a = t[cx] + cy;
        let aa = t[a] + cz;
        let ab = t[a + 1] + cz;
        let b = t[cx + 1] + cy;
        let ba = t[b] + cz;
        let bb = t[b + 1] + cz;
        trilerp_spec(
            grad_3d_spec(t[aa], rel_x, rel_y, rel_z),
            grad_3d_spec(t[ba], rel_x.sub_spec(one), rel_y, rel_z),
            grad_3d_spec(t[ab], rel_x, rel_y.sub_spec(one), rel_z),
            grad_3d_spec(t[bb], rel_x.sub_spec(one), rel_y.sub_spec(one), rel_z),
            grad_3d_spec(t[aa + 1], rel_x, rel_y, rel_z.sub_spec(one)),
            grad_3d_spec(t[ba + 1], rel_x.sub_spec(one), rel_y, rel_z.sub_spec(one)),
            grad_3d_spec(t[ab + 1], rel_x, rel_y.sub_spec(one), rel_z.sub_spec(one)),
            grad_3d_spec(
                t[bb + 1],
                rel_x.sub_spec(one),
                rel_y.sub_spec(one),
                rel_z.sub_spec(one),
            ),
            self.quality().curve_spec(rel_x),
            self.quality().curve_spec(rel_y),
            self.quality().curve_spec(rel_z),
        )
    }

    fn sample_1d(&self, x: F) -> (r: F) {
        proof {
            use_type_invariant(self);
            lemma_table_bounds(self.permutations@);
        }
        // the cell
        let cx = low_byte(x.floor().to_int());

        // the offset within the cell
        let rel_x = x.sub(x.floor());

        // the weight of the blend
        let u = self.quality.curve(rel_x);

        // the gradients at the two corners, blended
        let one = F::from_int(1);
        let f0 = grad_1d(self.permutations[cx], rel_x);
        let f1 = grad_1d(self.permutations[cx + 1], rel_x.sub(one));

        lerp(f0, f1, u)
    }

    fn sample_2d(&self, x: F, y: F) -> (r: F) {
        proof {
            use_type_invariant(self);
            lemma_table_bounds(self.permutations@);
        }
        // the cell
        let cx = low_byte(x.floor().to_int());
        let cy = low_byte(y.floor().to_int());

        // the offsets within the cell
        let rel_x = x.sub(x.floor());
        let rel_y = y.sub(y.floor());

        // the weights of the blend
        let u = self.quality.curve(rel_x);
        let v = self.quality.curve(rel_y);

        // the walk through the table, one step for each axis
        let a = self.permutations[cx] + cy;
        let b = self.permutations[cx + 1] + cy;

        // the gradients at the four corners, blended
        let one = F::from_int(1);
        let f00 = grad_2d(self.permutations[a], rel_x, rel_y);
        let f10 = grad_2d(self.permutations[b], rel_x.sub(one), rel_y);
        let f01 = grad_2d(self.permutations[a + 1], rel_x, rel_y.sub(one));
        let f11 = grad_2d(self.permutations[b + 1], rel_x.sub(one), rel_y.sub(one));

        bilerp(f00, f10, f01, f11, u, v)
    }

    fn sample_3d(&self, x: F, y: F, z: F) -> (r: F) {
        proof {
            use_type_invariant(self);
            lemma_table_bounds(self.permutations@);
        }
        // the cell
        let cx = low_byte(x.floor().to_int());
        let cy = low_byte(y.floor().to_int());
        let cz = low_byte(z.floor().to_int());

        // the offsets within the cell
        let rel_x = x.sub(x.floor());
        let rel_y = y.sub(y.floor());
        let rel_z = z.sub(z.floor());

        // the weights of the blend
        let u = self.quality.curve(rel_x);
        let v = self.quality.curve(rel_y);
        let w = self.quality.curve(rel_z);

        // the walk through the table, one step for each axis
        let a = self.permutations[cx] + cy;
        let aa = self.permutations[a] + cz;
        let ab = self.permutations[a + 1] + cz;
        let b = self.permutations[cx + 1] + cy;
        let ba = self.permutations[b] + cz;
        let bb = self.permutations[b + 1] + cz;

        // the gradients at the eight corners, blended
        let one = F::from_int(1);
        let f000 = grad_3d(self.permutations[aa], rel_x, rel_y, rel_z);
        let f100 = grad_3d(self.permutations[ba], rel_x.sub(one), rel_y, rel_z);
        let f010 = grad_3d(self.permutations[ab], rel_x, rel_y.sub(one), rel_z);
        let f110 = grad_3d(self.permutations[bb], rel_x.sub(one), rel_y.sub(one), rel_z);
        let f001 = grad_3d(self.permutations[aa + 1], rel_x, rel_y, rel_z.sub(one));
        let f101 = grad_3d(self.permutations[ba + 1], rel_x.sub(one), rel_y, rel_z.sub(one));
        let f011 = grad_3d(self.permutations[ab + 1], rel_x, rel_y.sub(one), rel_z.sub(one));
        let f111 = grad_3d(
            self.permutations[bb + 1],
            rel_x.sub(one),
            rel_y.sub(one),
            rel_z.sub(one),
        );

        trilerp(f000, f100, f010, f110, f001, f101, f011, f111, u, v, w)
    }
}

/// Every entry of a valid table is below 256, in both halves.
pub proof fn lemma_table_bounds(t: Seq<usize>)
    requires
        valid_table(t),
    ensures
        forall|i: int| 0 <= i < 512 ==> #[trigger] t[i] < 256,
{
    assert forall|i: int| 0 <= i < 512 implies #[trigger] t[i] < 256 by {
        if i < 256 {
            assert(t[i] == t.subrange(0, 256)[i]);
        } else {
            assert(t[(i - 256) + 256] == t[i - 256]);
            assert(t[i - 256] == t.subrange(0, 256)[i - 256]);
        }
    }
}

/// What `grad_1d` gives for a whole offset.
pub open spec fn grad_1d_int(hash: usize, i: int) -> int {
    if hash % 2 == 0 {
        i
    } else {
        -i
    }
}

/// What `grad_2d` gives for whole offsets.
pub open spec fn grad_2d_int(hash: usize, i: int, j: int) -> int {
    (if (hash / 2) % 2 == 0 {
        i
    } else {
        -i
    }) + (if hash % 2 == 0 {
        j
    } else {
        -j
    })
}

/// What `grad_3d` gives for whole offsets.
pub open spec fn grad_3d_int(hash: usize, i: int, j: int, k: int) -> int {
    let h = hash % 16;
    let u = if h < 8 {
        i
    } else {
        j
    };
    let v = if h < 4 {
        j
    } else if h == 12 || h == 14 {
        i
    } else {
        k
    };
    (if h % 2 == 0 {
        u
    } else {
        -u
    }) + (if (h / 2) % 2 == 0 {
        v
    } else {
        -v
    })
}

/// On a whole offset of at most 23 bits, `grad_1d` is exact.
pub proof fn lemma_grad_1d_whole<F: Real>(hash: usize, x: F, i: int)
    requires
        is_whole(x, i),
        -0x80_0000 <= i <= 0x80_0000,
    ensures
        is_whole(grad_1d_spec(hash, x), grad_1d_int(hash, i)),
{
    lemma_neg_whole(x, i);
}

/// On whole offsets of at most 23 bits, `grad_2d` is exact.
pub proof fn lemma_grad_2d_whole<F: Real>(hash: usize, x: F, y: F, i: int, j: int)
    requires
        is_whole(x, i),
        is_whole(y, j),
        -0x80_0000 <= i <= 0x80_0000,
        -0x80_0000 <= j <= 0x80_0000,
    ensures
        is_whole(grad_2d_spec(hash, x, y), grad_2d_int(hash, i, j)),
{
    lemma_neg_whole(x, i);
    lemma_neg_whole(y, j);
    lemma_add_whole(x, y, i, j);
    lemma_add_whole(x, y.neg_spec(), i, -j);
    lemma_add_whole(x.neg_spec(), y, -i, j);
    lemma_add_whole(x.neg_spec(), y.neg_spec(), -i, -j);
}

/// On whole offsets of at most 23 bits, `grad_3d` is exact.
pub proof fn lemma_grad_3d_whole<F: Real>(hash: usize, x: F, y: F, z: F, i: int, j: int, k: int)
    requires
        is_whole(x, i),
        is_whole(y, j),
        is_whole(z, k),
        -0x80_0000 <= i <= 0x80_0000,
        -0x80_0000 <= j <= 0x80_0000,
        -0x80_0000 <= k <= 0x80_0000,
    ensures
        is_whole(grad_3d_spec(hash, x, y, z), grad_3d_int(hash, i, j, k)),
{
    let h = hash % 16;
    let (u, a) = if h < 8 {
        (x, i)
    } else {
        (y, j)
    };
    let (v, b) = if h < 4 {
        (y, j)
    } else if h == 12 || h == 14 {
        (x, i)
    } else {
        (z, k)
    };
    lemma_neg_whole(u, a);
    lemma_add_whole(u, v, a, b);
    lemma_sub_whole(u, v, a, b);
    lemma_add_whole(u.neg_spec(), v, -a, b);
    lemma_sub_whole(u.neg_spec(), v, -a, b);
}

impl GradientNoise {
    /// At a point of the lattice of a line, whatever the table and the quality, gradient
    /// noise is the gradient of the corner at that point alone, which is zero there.
    pub proof fn lemma_lattice_1d<F: Real>(&self, x: F)
        requires
            x.finite(),
            x.val() == x.val().floor() as real,
        ensures
            self.sample_1d_spec(x).finite(),
            self.sample_1d_spec(x).val() == grad_1d_spec(
                self.table()[cell(x)],
                offset(x),
            ).val(),
            self.sample_1d_spec(x).val() == 0real,
    {
        let t = self.table();
        let cx = cell(x);
        let rel_x = offset(x);
        let one = F::from_int_spec(1);
        lemma_floor_whole(x);
        self.quality().lemma_curve_ends(rel_x);
        lemma_holds_short::<F>(1);
        lemma_sub_whole(rel_x, one, 0, 1);
        lemma_grad_1d_whole(t[cx], rel_x, 0);
        lemma_grad_1d_whole(t[cx + 1], rel_x.sub_spec(one), -1);
        lemma_lerp_zero_within(
            grad_1d_spec(t[cx], rel_x),
            grad_1d_spec(t[cx + 1], rel_x.sub_spec(one)),
            self.quality().curve_spec(rel_x),
            2,
        );
    }

    /// At a point of the lattice of a plane, gradient noise is the gradient of the corner
    /// at that point alone, which is zero there.
    pub proof fn lemma_lattice_2d<F: Real>(&self, x: F, y: F)
        requires
            x.finite(),
            y.finite(),
            x.val() == x.val().floor() as real,
            y.val() == y.val().floor() as real,
        ensures
            self.sample_2d_spec(x, y).finite(),
            self.sample_2d_spec(x, y).val() == grad_2d_spec(
                self.table()[self.table()[cell(x)] + cell(y)],
                offset(x),
                offset(y),
            ).val(),
            self.sample_2d_spec(x, y).val() == 0real,
    {
        let t = self.table();
        let cx = cell(x);
        let cy = cell(y);
        let rel_x = offset(x);
        let rel_y = offset(y);
        let one = F::from_int_spec(1);
        let a = t[cx] + cy;
        let b = t[cx + 1] + cy;
        lemma_floor_whole(x);
        lemma_floor_whole(y);
        self.quality().lemma_curve_ends(rel_x);
        self.quality().lemma_curve_ends(rel_y);
        lemma_holds_short::<F>(1);
        lemma_sub_whole(rel_x, one, 0, 1);
        lemma_sub_whole(rel_y, one, 0, 1);
        let low_x = rel_x.sub_spec(one);
        let low_y = rel_y.sub_spec(one);
        lemma_grad_2d_whole(t[a], rel_x, rel_y, 0, 0);
        lemma_grad_2d_whole(t[b], low_x, rel_y, -1, 0);
        lemma_grad_2d_whole(t[a + 1], rel_x, low_y, 0, -1);
        lemma_grad_2d_whole(t[b + 1], low_x, low_y, -1, -1);
        lemma_bilerp_zero_within(
            grad_2d_spec(t[a], rel_x, rel_y),
            grad_2d_spec(t[b], low_x, rel_y),
            grad_2d_spec(t[a + 1], rel_x, low_y),
            grad_2d_spec(t[b + 1], low_x, low_y),
            self.quality().curve_spec(rel_x),
            self.quality().curve_spec(rel_y),
            2,
        );
    }

    /// At a point of the lattice of a space, gradient noise is the gradient of the corner
    /// at that point alone, which is zero there.
    pub proof fn lemma_lattice_3d<F: Real>(&self, x: F, y: F, z: F)
        requires
            x.finite(),
            y.finite(),
            z.finite(),
            x.val() == x.val().floor() as real,
            y.val() == y.val().floor() as real,
            z.val() == z.val().floor() as real,
        ensures
            self.sample_3d_spec(x, y, z).finite(),
            self.sample_3d_spec(x, y, z).val() == grad_3d_spec(
                self.table()[self.table()[self.table()[cell(x)] + cell(y)] + cell(z)],
                offset(x),
                offset(y),
                offset(z),
            ).val(),
            self.sample_3d_spec(x, y, z).val() == 0real,
    {
        let t = self.table();
        let cx = cell(x);
        let cy = cell(y);
        let cz = cell(z);
        let rel_x = offset(x);
        let rel_y = offset(y);
        let rel_z = offset(z);
        let one = F::from_int_spec(1);
        let a = t[cx] + cy;
        let aa = t[a] + cz;
        let ab = t[a + 1] + cz;
        let b = t[cx + 1] + cy;
        let ba = t[b] + cz;
        let bb = t[b + 1] + cz;
        lemma_floor_whole(x);
        lemma_floor_whole(y);
        lemma_floor_whole(z);
        self.quality().lemma_curve_ends(rel_x);
        self.quality().lemma_curve_ends(rel_y);
        self.quality().lemma_curve_ends(rel_z);
        lemma_holds_short::<F>(1);
        lemma_sub_whole(rel_x, one, 0, 1);
        lemma_sub_whole(rel_y, one, 0, 1);
        lemma_sub_whole(rel_z, one, 0, 1);
        let low_x = rel_x.sub_spec(one);
        let low_y = rel_y.sub_spec(one);
        let low_z = rel_z.sub_spec(one);
        lemma_grad_3d_whole(t[aa], rel_x, rel_y, rel_z, 0, 0, 0);
        lemma_grad_3d_whole(t[ba], low_x, rel_y, rel_z, -1, 0, 0);
        lemma_grad_3d_whole(t[ab], rel_x, low_y, rel_z, 0, -1, 0);
        lemma_grad_3d_whole(t[bb], low_x, low_y, rel_z, -1, -1, 0);
        lemma_grad_3d_whole(t[aa + 1], rel_x, rel_y, low_z, 0, 0, -1);
        lemma_grad_3d_whole(t[ba + 1], low_x, rel_y, low_z, -1, 0, -1);
        lemma_grad_3d_whole(t[ab + 1], rel_x, low_y, low_z, 0, -1, -1);
        lemma_grad_3d_whole(t[bb + 1], low_x, low_y, low_z, -1, -1, -1);
        lemma_trilerp_zero_within(
            grad_3d_spec(t[aa], rel_x, rel_y, rel_z),
            grad_3d_spec(t[ba], low_x, rel_y, rel_z),
            grad_3d_spec(t[ab], rel_x, low_y, rel_z),
            grad_3d_spec(t[bb], low_x, low_y, rel_z),
            grad_3d_spec(t[aa + 1], rel_x, rel_y, low_z),
            grad_3d_spec(t[ba + 1], low_x, rel_y, low_z),
            grad_3d_spec(t[ab + 1], rel_x, low_y, low_z),
            grad_3d_spec(t[bb + 1], low_x, low_y, low_z),
            self.quality().curve_spec(rel_x),
            self.quality().curve_spec(rel_y),
            self.quality().curve_spec(rel_z),
            2,
        );
    }
}

} // verus!
