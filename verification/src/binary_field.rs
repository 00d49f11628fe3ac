//! The binary tower field with 256 elements.
//!
//! The tower starts from the field of two elements and doubles the number of
//! bits at each level: an element of a level is a pair `(hi, lo)` of elements
//! of the level below, standing for `hi * X + lo`, with `X * X == X * g + 1`
//! where `g` is the `X` of the level below (and 1 at the lowest level). An
//! element is stored as the bits of its coordinates, `lo` in the low half.
use crate::field::Field;
use vstd::prelude::*;

verus! {

/// The product of two elements of the 2-bit level, given in the low bits of
/// `a` and `b`; the other bits are ignored.
#[verifier::inline]
pub open spec fn tower_mul_2b(a: u8, b: u8) -> u8 {
    ((a & b & 1u8) ^ ((a >> 1u8) & (b >> 1u8) & 1u8)) | (((((a >> 1u8) & b) ^ (a & (b >> 1u8)) ^ ((a
        >> 1u8) & (b >> 1u8))) & 1u8) << 1u8)
}

/// The product of two elements of the 4-bit level, given in the low bits of
/// `a` and `b`; the other bits are ignored.
#[verifier::inline]
pub open spec fn tower_mul_4b(a: u8, b: u8) -> u8 {
    (tower_mul_2b(a & 3u8, b & 3u8) ^ tower_mul_2b((a >> 2u8) & 3u8, (b >> 2u8) & 3u8)) | ((
    tower_mul_2b((a >> 2u8) & 3u8, b & 3u8) ^ tower_mul_2b(a & 3u8, (b >> 2u8) & 3u8)
        ^ tower_mul_2b(tower_mul_2b((a >> 2u8) & 3u8, (b >> 2u8) & 3u8), 2u8)) << 2u8)
}

/// `x` is the product of `u` and `v` at the 8-bit level, and `h` the product of
/// their high halves.
#[verifier::inline]
pub open spec fn is_product(x: u8, u: u8, v: u8, h: u8) -> bool {
    h == tower_mul_4b(u >> 4u8, v >> 4u8) && x == (tower_mul_4b(u & 15u8, v & 15u8) ^ h) | ((
    tower_mul_4b(u >> 4u8, v & 15u8) ^ tower_mul_4b(u & 15u8, v >> 4u8) ^ tower_mul_4b(h, 4u8))
        << 4u8)
}

/// The product of two elements of the 8-bit level.
pub open spec fn tower_mul_8b(a: u8, b: u8) -> u8 {
    let hh = tower_mul_4b(a >> 4u8, b >> 4u8);
    (tower_mul_4b(a & 15u8, b & 15u8) ^ hh) | ((tower_mul_4b(a >> 4u8, b & 15u8) ^ tower_mul_4b(
        a & 15u8,
        b >> 4u8,
    ) ^ tower_mul_4b(hh, 4u8)) << 4u8)
}

/// Multiplication is commutative.
pub proof fn lemma_mul_commutative(a: u8, b: u8)
    ensures
        tower_mul_8b(a, b) == tower_mul_8b(b, a),
{
    let p = tower_mul_8b(a, b);
    let q = tower_mul_8b(b, a);
    let hp = tower_mul_4b(a >> 4u8, b >> 4u8);
    let hq = tower_mul_4b(b >> 4u8, a >> 4u8);
    assert(p == q) by (bit_vector)
        requires
            is_product(p, a, b, hp),
            is_product(q, b, a, hq),
    ;
}

/// Multiplication distributes over addition.
pub proof fn lemma_mul_distributive(a: u8, b: u8, c: u8)
    ensures
        tower_mul_8b(a, b ^ c) == tower_mul_8b(a, b) ^ tower_mul_8b(a, c),
        tower_mul_8b(b ^ c, a) == tower_mul_8b(b, a) ^ tower_mul_8b(c, a),
{
    let hb = tower_mul_4b(a >> 4u8, b >> 4u8);
    let hc = tower_mul_4b(a >> 4u8, c >> 4u8);
    let hbc = tower_mul_4b(a >> 4u8, (b ^ c) >> 4u8);
    let ab = tower_mul_8b(a, b);
    let ac = tower_mul_8b(a, c);
    let abc = tower_mul_8b(a, b ^ c);
    assert(abc == ab ^ ac) by (bit_vector)
        requires
            is_product(ab, a, b, hb),
            is_product(ac, a, c, hc),
            is_product(abc, a, b ^ c, hbc),
    ;
    lemma_mul_commutative(a, b);
    lemma_mul_commutative(a, c);
    lemma_mul_commutative(a, b ^ c);
}

/// 1 is the identity of multiplication.
pub proof fn lemma_mul_identity(a: u8)
    ensures
        tower_mul_8b(a, 1u8) == a,
{
    let h = tower_mul_4b(a >> 4u8, 1u8 >> 4u8);
    let p = tower_mul_8b(a, 1u8);
    assert(p == a) by (bit_vector)
        requires
            is_product(p, a, 1u8, h),
    ;
}

/// Multiplication is associative where each factor has only its low or only
/// its high half set.
proof fn lemma_mul_associative_halves(a: u8, b: u8, c: u8)
    requires
        a & 15u8 == a || a & 240u8 == a,
        b & 15u8 == b || b & 240u8 == b,
        c & 15u8 == c || c & 240u8 == c,
    ensures
        tower_mul_8b(tower_mul_8b(a, b), c) == tower_mul_8b(a, tower_mul_8b(b, c)),
{
    let p = tower_mul_8b(a, b);
    let q = tower_mul_8b(b, c);
    let hp = tower_mul_4b(a >> 4u8, b >> 4u8);
    let hq = tower_mul_4b(b >> 4u8, c >> 4u8);
    let hl = tower_mul_4b(p >> 4u8, c >> 4u8);
    let hr = tower_mul_4b(a >> 4u8, q >> 4u8);
    let l = tower_mul_8b(p, c);
    let r = tower_mul_8b(a, q);
    if a & 15u8 == a && b & 15u8 == b && c & 15u8 == c {
        assert(l == r) by (bit_vector)
            requires
                a & 15u8 == a,
                b & 15u8 == b,
                c & 15u8 == c,
                is_product(p, a, b, hp),
                is_product(q, b, c, hq),
                is_product(l, p, c, hl),
                is_product(r, a, q, hr),
        ;
    }
    if a & 15u8 == a && b & 15u8 == b && c & 240u8 == c {
        assert(l == r) by (bit_vector)
            requires
                a & 15u8 == a,
                b & 15u8 == b,
                c & 240u8 == c,
                is_product(p, a, b, hp),
                is_product(q, b, c, hq),
                is_product(l, p, c, hl),
                is_product(r, a, q, hr),
        ;
    }
    if a & 15u8 == a && b & 240u8 == b && c & 15u8 == c {
        assert(l == r) by (bit_vector)
            requires
                a & 15u8 == a,
                b & 240u8 == b,
                c & 15u8 == c,
                is_product(p, a, b, hp),
                is_product(q, b, c, hq),
                is_product(l, p, c, hl),
                is_product(r, a, q, hr),
        ;
    }
    if a & 15u8 == a && b & 240u8 == b && c & 240u8 == c {
        assert(l == r) by (bit_vector)
            requires
                a & 15u8 == a,
                b & 240u8 == b,
                c & 240u8 == c,
                is_product(p, a, b, hp),
                is_product(q, b, c, hq),
                is_product(l, p, c, hl),
                is_product(r, a, q, hr),
        ;
    }
    if a & 240u8 == a && b & 15u8 == b && c & 15u8 == c {
        assert(l == r) by (bit_vector)
            requires
                a & 240u8 == a,
                b & 15u8 == b,
                c & 15u8 == c,
                is_product(p, a, b, hp),
                is_product(q, b, c, hq),
                is_product(l, p, c, hl),
                is_product(r, a, q, hr),
        ;
    }
    if a & 240u8 == a && b & 15u8 == b && c & 240u8 == c {
        assert(l == r) by (bit_vector)
            requires
                a & 240u8 == a,
                b & 15u8 == b,
                c & 240u8 == c,
                is_product(p, a, b, hp),
                is_product(q, b, c, hq),
                is_product(l, p, c, hl),
                is_product(r, a, q, hr),
        ;
    }
    if a & 240u8 == a && b & 240u8 == b && c & 15u8 == c {
        assert(l == r) by (bit_vector)
            requires
                a & 240u8 == a,
                b & 240u8 == b,
                c & 15u8 == c,
                is_product(p, a, b, hp),
                is_product(q, b, c, hq),
                is_product(l, p, c, hl),
                is_product(r, a, q, hr),
        ;
    }
    if a & 240u8 == a && b & 240u8 == b && c & 240u8 == c {
        assert(l == r) by (bit_vector)
            requires
                a & 240u8 == a,
                b & 240u8 == b,
                c & 240u8 == c,
                is_product(p, a, b, hp),
                is_product(q, b, c, hq),
                is_product(l, p, c, hl),
                is_product(r, a, q, hr),
        ;
    }
}

/// An element is the sum of its low half and its high half.
proof fn lemma_halves(a: u8)
    ensures
        a == (a & 15u8) ^ (a & 240u8),
        (a & 15u8) & 15u8 == a & 15u8,
        (a & 240u8) & 240u8 == a & 240u8,
{
    assert(a == (a & 15u8) ^ (a & 240u8)) by (bit_vector);
    assert((a & 15u8) & 15u8 == a & 15u8) by (bit_vector);
    assert((a & 240u8) & 240u8 == a & 240u8) by (bit_vector);
}

/// Multiplication is associative where the second and third factor have only
/// their low or only their high half set.
proof fn lemma_mul_associative_first(a: u8, b: u8, c: u8)
    requires
        b & 15u8 == b || b & 240u8 == b,
        c & 15u8 == c || c & 240u8 == c,
    ensures
        tower_mul_8b(tower_mul_8b(a, b), c) == tower_mul_8b(a, tower_mul_8b(b, c)),
{
    let al = a & 15u8;
    let ah = a & 240u8;
    lemma_halves(a);
    lemma_mul_distributive(b, al, ah);
    lemma_mul_distributive(c, tower_mul_8b(al, b), tower_mul_8b(ah, b));
    lemma_mul_distributive(tower_mul_8b(b, c), al, ah);
    lemma_mul_associative_halves(al, b, c);
    lemma_mul_associative_halves(ah, b, c);
}

/// Multiplication is associative where the third factor has only its low or
/// only its high half set.
proof fn lemma_mul_associative_second(a: u8, b: u8, c: u8)
    requires
        c & 15u8 == c || c & 240u8 == c,
    ensures
        tower_mul_8b(tower_mul_8b(a, b), c) == tower_mul_8b(a, tower_mul_8b(b, c)),
{
    let bl = b & 15u8;
    let bh = b & 240u8;
    lemma_halves(b);
    lemma_mul_distributive(a, bl, bh);
    lemma_mul_distributive(c, tower_mul_8b(a, bl), tower_mul_8b(a, bh));
    lemma_mul_distributive(c, bl, bh);
    lemma_mul_distributive(a, tower_mul_8b(bl, c), tower_mul_8b(bh, c));
    lemma_mul_associative_first(a, bl, c);
    lemma_mul_associative_first(a, bh, c);
}

/// Multiplication is associative.
pub proof fn lemma_mul_associative(a: u8, b: u8, c: u8)
    ensures
        tower_mul_8b(tower_mul_8b(a, b), c) == tower_mul_8b(a, tower_mul_8b(b, c)),
{
    let cl = c & 15u8;
    let ch = c & 240u8;
    lemma_halves(c);
    lemma_mul_distributive(tower_mul_8b(a, b), cl, ch);
    lemma_mul_distributive(b, cl, ch);
    lemma_mul_distributive(a, tower_mul_8b(b, cl), tower_mul_8b(b, ch));
    lemma_mul_associative_second(a, b, cl);
    lemma_mul_associative_second(a, b, ch);
}

/// The product of two elements of the 2-bit level.
fn mul_2b(a: u8, b: u8) -> (r: u8)
    ensures
        r == tower_mul_2b(a, b),
{
    ((a & b & 1u8) ^ ((a >> 1u8) & (b >> 1u8) & 1u8)) | (((((a >> 1u8) & b) ^ (a & (b >> 1u8)) ^ ((a
        >> 1u8) & (b >> 1u8))) & 1u8) << 1u8)
}

/// The product of two elements of the 4-bit level.
fn mul_4b(a: u8, b: u8) -> (r: u8)
    ensures
        r == tower_mul_4b(a, b),
{
    let hh = mul_2b((a >> 2u8) & 3u8, (b >> 2u8) & 3u8);
    (mul_2b(a & 3u8, b & 3u8) ^ hh) | ((mul_2b((a >> 2u8) & 3u8, b & 3u8) ^ mul_2b(
        a & 3u8,
        (b >> 2u8) & 3u8,
    ) ^ mul_2b(hh, 2u8)) << 2u8)
}

/// An element of the binary tower field with 256 elements.
#[derive(Clone, Copy, Debug, PartialEq, Eq, Hash, Structural)]
pub struct BinaryField8b(pub u8);

impl BinaryField8b {
    /// The element with the coordinates `val`.
    pub fn new(val: u8) -> (r: Self)
        ensures
            r == BinaryField8b(val),
    {
        BinaryField8b(val)
    }

    /// The coordinates of the element.
    pub fn val(self) -> (v: u8)
        ensures
            v == self.0,
    {
        self.0
    }
}

impl Field for BinaryField8b {
    open spec fn zero_spec() -> Self {
        BinaryField8b(0u8)
    }

    open spec fn one_spec() -> Self {
        BinaryField8b(1u8)
    }

    open spec fn add_spec(self, rhs: Self) -> Self {
        BinaryField8b(self.0 ^ rhs.0)
    }

    open spec fn sub_spec(self, rhs: Self) -> Self {
        BinaryField8b(self.0 ^ rhs.0)
    }

    open spec fn mul_spec(self, rhs: Self) -> Self {
        BinaryField8b(tower_mul_8b(self.0, rhs.0))
    }

    proof fn lemma_ring_laws(a: Self, b: Self, c: Self) {
        let x = a.0;
        let y = b.0;
        let z = c.0;
        assert(x ^ y == y ^ x) by (bit_vector);
        assert((x ^ y) ^ z == x ^ (y ^ z)) by (bit_vector);
        assert(x ^ 0u8 == x) by (bit_vector);
        assert((x ^ y) ^ y == x) by (bit_vector);
        lemma_mul_commutative(x, y);
        lemma_mul_associative(x, y, z);
        lemma_mul_identity(x);
        lemma_mul_distributive(x, y, z);
    }

    fn zero() -> (r: Self) {
        BinaryField8b(0u8)
    }

    fn one() -> (r: Self) {
        BinaryField8b(1u8)
    }

    fn add(self, rhs: Self) -> (r: Self) {
        BinaryField8b(self.0 ^ rhs.0)
    }

    fn sub(self, rhs: Self) -> (r: Self) {
        BinaryField8b(self.0 ^ rhs.0)
    }

    fn mul(self, rhs: Self) -> (r: Self) {
        let a = self.0;
        let b = rhs.0;
        let hh = mul_4b(a >> 4u8, b >> 4u8);
        BinaryField8b(
            (mul_4b(a & 15u8, b & 15u8) ^ hh) | ((mul_4b(a >> 4u8, b & 15u8) ^ mul_4b(
                a & 15u8,
                b >> 4u8,
            ) ^ mul_4b(hh, 4u8)) << 4u8),
        )
    }
}

} // verus!
