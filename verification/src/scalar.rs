use vstd::prelude::*;

verus! {

/// The integers that every number type holds exactly: those of magnitude up to 2^24, and the
/// multiples of 128 of magnitude up to 2^31. A significand of 24 bits is enough for them.
pub open spec fn is_short(n: int) -> bool {
    -0x100_0000 <= n <= 0x100_0000 || (n % 0x80 == 0 && -0x8000_0000 <= n <= 0x8000_0000)
}

/// A machine number type that the noise functions compute with.
///
/// A value is either finite, and then stands for the real number `val()`, or it is a marker
/// such as an infinity. Every operation is total and is a function of its operands: the
/// `_spec` function of the same name gives its result. How an operation rounds is left to
/// the type, within the laws below: the result of an operation on finite operands never
/// lies beyond a number of the type that bounds the exact result. So an exact result that
/// the type holds is returned as it is, and rounding keeps the order.
pub trait Real: Copy {
    /// Whether the value stands for a number.
    spec fn finite(self) -> bool;

    /// The number that a finite value stands for.
    spec fn val(self) -> real;

    /// What `add` returns.
    spec fn add_spec(self, rhs: Self) -> Self;

    /// What `sub` returns.
    spec fn sub_spec(self, rhs: Self) -> Self;

    /// What `mul` returns.
    spec fn mul_spec(self, rhs: Self) -> Self;

    /// What `div` returns.
    spec fn div_spec(self, rhs: Self) -> Self;

    /// What `neg` returns.
    spec fn neg_spec(self) -> Self;

    /// What `floor` returns.
    spec fn floor_spec(self) -> Self;

    /// What `to_int` returns.
    spec fn to_int_spec(self) -> i64;

    /// What `from_int` returns.
    spec fn from_int_spec(n: i64) -> Self;

    /// The rounded sum.
    fn add(self, rhs: Self) -> (r: Self)
        ensures
            r == self.add_spec(rhs),
    ;

    /// The rounded difference.
    fn sub(self, rhs: Self) -> (r: Self)
        ensures
            r == self.sub_spec(rhs),
    ;

    /// The rounded product.
    fn mul(self, rhs: Self) -> (r: Self)
        ensures
            r == self.mul_spec(rhs),
    ;

    /// The rounded quotient.
    fn div(self, rhs: Self) -> (r: Self)
        ensures
            r == self.div_spec(rhs),
    ;

    /// The number with the opposite sign.
    fn neg(self) -> (r: Self)
        ensures
            r == self.neg_spec(),
    ;

    /// The largest whole number that is not above `self`, in the type itself.
    fn floor(self) -> (r: Self)
        ensures
            r == self.floor_spec(),
    ;

    /// A whole number as a machine integer.
    fn to_int(self) -> (r: i64)
        ensures
            r == self.to_int_spec(),
    ;

    /// The number nearest to an integer, as the type rounds.
    fn from_int(n: i64) -> (r: Self)
        ensures
            r == Self::from_int_spec(n),
    ;

    /// A sum stays between any two numbers of the type that bound the exact sum.
    proof fn lemma_add(a: Self, b: Self, lo: Self, hi: Self)
        requires
            a.finite(),
            b.finite(),
            lo.finite(),
            hi.finite(),
            lo.val() <= a.val() + b.val() <= hi.val(),
        ensures
            a.add_spec(b).finite(),
            lo.val() <= a.add_spec(b).val() <= hi.val(),
    ;

    /// A difference stays between any two numbers of the type that bound the exact difference.
    proof fn lemma_sub(a: Self, b: Self, lo: Self, hi: Self)
        requires
            a.finite(),
            b.finite(),
            lo.finite(),
            hi.finite(),
            lo.val() <= a.val() - b.val() <= hi.val(),
        ensures
            a.sub_spec(b).finite(),
            lo.val() <= a.sub_spec(b).val() <= hi.val(),
    ;

    /// A product stays between any two numbers of the type that bound the exact product.
    proof fn lemma_mul(a: Self, b: Self, lo: Self, hi: Self)
        requires
            a.finite(),
            b.finite(),
            lo.finite(),
            hi.finite(),
            lo.val() <= a.val() * b.val() <= hi.val(),
        ensures
            a.mul_spec(b).finite(),
            lo.val() <= a.mul_spec(b).val() <= hi.val(),
    ;

    /// A quotient by a number other than zero stays between any two numbers of the type
    /// that bound the exact quotient.
    proof fn lemma_div(a: Self, b: Self, lo: Self, hi: Self)
        requires
            a.finite(),
            b.finite(),
            lo.finite(),
            hi.finite(),
            b.val() != 0real,
            lo.val() <= a.val() / b.val() <= hi.val(),
        ensures
            a.div_spec(b).finite(),
            lo.val() <= a.div_spec(b).val() <= hi.val(),
    ;

    /// Negation is exact wherever the type holds the opposite number.
    proof fn lemma_neg(a: Self, c: Self)
        requires
            a.finite(),
            c.finite(),
            c.val() == -a.val(),
        ensures
            a.neg_spec().finite(),
            a.neg_spec().val() == c.val(),
    ;

    /// `floor` is exact wherever the type holds the whole number below.
    proof fn lemma_floor(a: Self, c: Self)
        requires
            a.finite(),
            c.finite(),
            c.val() == a.val().floor() as real,
        ensures
            a.floor_spec().finite(),
            a.floor_spec().val() == c.val(),
    ;

    /// A whole number within the range of `i64` converts to that integer.
    proof fn lemma_to_int(a: Self)
        requires
            a.finite(),
            a.val() == a.val().floor() as real,
            i64::MIN <= a.val().floor() <= i64::MAX,
        ensures
            a.to_int_spec() == a.val().floor(),
    ;

    /// A converted integer stays between any two numbers of the type that bound it.
    proof fn lemma_from_int(n: i64, lo: Self, hi: Self)
        requires
            lo.finite(),
            hi.finite(),
            lo.val() <= n as real <= hi.val(),
        ensures
            Self::from_int_spec(n).finite(),
            lo.val() <= Self::from_int_spec(n).val() <= hi.val(),
    ;

    /// Short integers convert exactly.
    proof fn lemma_from_short_int(n: i64)
        requires
            is_short(n as int),
        ensures
            Self::from_int_spec(n).finite(),
            Self::from_int_spec(n).val() == n as real,
    ;
}

/// The lattice point below a coordinate.
pub open spec fn lattice<F: Real>(x: F) -> i64 {
    x.floor_spec().to_int_spec()
}

/// The offset of a coordinate from the lattice point below it.
pub open spec fn offset<F: Real>(x: F) -> F {
    x.sub_spec(x.floor_spec())
}

/// Whether `f` is finite and at most `b` in magnitude.
pub open spec fn within<F: Real>(f: F, b: int) -> bool {
    f.finite() && -(b as real) <= f.val() <= b as real
}

/// Whether the type holds the number `v` exactly.
pub open spec fn holds<F: Real>(v: real) -> bool {
    exists|c: F| #[trigger] c.finite() && c.val() == v
}

/// Whether `a` stands for the integer `k`.
pub open spec fn is_whole<F: Real>(a: F, k: int) -> bool {
    a.finite() && a.val() == k as real
}

/// A sum that the type holds is exact.
pub proof fn lemma_add_exact<F: Real>(a: F, b: F)
    requires
        a.finite(),
        b.finite(),
        holds::<F>(a.val() + b.val()),
    ensures
        a.add_spec(b).finite(),
        a.add_spec(b).val() == a.val() + b.val(),
{
    let c = choose|c: F| #[trigger] c.finite() && c.val() == a.val() + b.val();
    F::lemma_add(a, b, c, c);
}

/// A difference that the type holds is exact.
pub proof fn lemma_sub_exact<F: Real>(a: F, b: F)
    requires
        a.finite(),
        b.finite(),
        holds::<F>(a.val() - b.val()),
    ensures
        a.sub_spec(b).finite(),
        a.sub_spec(b).val() == a.val() - b.val(),
{
    let c = choose|c: F| #[trigger] c.finite() && c.val() == a.val() - b.val();
    F::lemma_sub(a, b, c, c);
}

/// A product that the type holds is exact.
pub proof fn lemma_mul_exact<F: Real>(a: F, b: F)
    requires
        a.finite(),
        b.finite(),
        holds::<F>(a.val() * b.val()),
    ensures
        a.mul_spec(b).finite(),
        a.mul_spec(b).val() == a.val() * b.val(),
{
    let c = choose|c: F| #[trigger] c.finite() && c.val() == a.val() * b.val();
    F::lemma_mul(a, b, c, c);
}

/// The type holds every short integer.
pub proof fn lemma_holds_short<F: Real>(n: int)
    requires
        is_short(n),
    ensures
        holds::<F>(n as real),
        is_whole(F::from_int_spec(n as i64), n),
{
    F::lemma_from_short_int(n as i64);
    assert(F::from_int_spec(n as i64).finite());
}

/// The opposite of a whole number is whole.
pub proof fn lemma_neg_whole<F: Real>(a: F, k: int)
    requires
        is_whole(a, k),
        is_short(-k),
    ensures
        is_whole(a.neg_spec(), -k),
{
    lemma_holds_short::<F>(-k);
    F::lemma_neg(a, F::from_int_spec((-k) as i64));
}

/// The sum of two whole numbers is whole.
pub proof fn lemma_add_whole<F: Real>(a: F, b: F, j: int, k: int)
    requires
        is_whole(a, j),
        is_whole(b, k),
        is_short(j + k),
    ensures
        is_whole(a.add_spec(b), j + k),
{
    lemma_holds_short::<F>(j + k);
    lemma_add_exact(a, b);
}

/// The difference of two whole numbers is whole.
pub proof fn lemma_sub_whole<F: Real>(a: F, b: F, j: int, k: int)
    requires
        is_whole(a, j),
        is_whole(b, k),
        is_short(j - k),
    ensures
        is_whole(a.sub_spec(b), j - k),
{
    lemma_holds_short::<F>(j - k);
    lemma_sub_exact(a, b);
}

/// A number without a fraction is its own `floor`, and its offset is zero.
pub proof fn lemma_floor_whole<F: Real>(x: F)
    requires
        x.finite(),
        x.val() == x.val().floor() as real,
    ensures
        x.floor_spec().finite(),
        x.floor_spec().val() == x.val(),
        is_whole(offset(x), 0),
{
    F::lemma_floor(x, x);
    lemma_holds_short::<F>(0);
    lemma_sub_exact(x, x.floor_spec());
}

/// The lattice point below a finite coordinate is the whole part of the number that the
/// coordinate stands for, where the type holds that whole part and `i64` has room for it.
pub proof fn lemma_lattice<F: Real>(x: F)
    requires
        x.finite(),
        holds::<F>(x.val().floor() as real),
        i64::MIN <= x.val().floor() <= i64::MAX,
    ensures
        lattice(x) == x.val().floor(),
{
    let c = choose|c: F| #[trigger] c.finite() && c.val() == x.val().floor() as real;
    F::lemma_floor(x, c);
    F::lemma_to_int(x.floor_spec());
}

/// The difference of two numbers within `b` is within `2 * b`.
pub proof fn lemma_sub_within<F: Real>(a: F, c: F, b: int)
    requires
        within(a, b),
        within(c, b),
        0 <= b,
        is_short(2 * b),
    ensures
        within(a.sub_spec(c), 2 * b),
{
    lemma_holds_short::<F>(2 * b);
    lemma_holds_short::<F>(-2 * b);
    F::lemma_sub(a, c, F::from_int_spec((-2 * b) as i64), F::from_int_spec((2 * b) as i64));
}

} // verus!
