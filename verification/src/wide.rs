//! Unsigned integers of 256 bits, for sums of squares that outgrow `u128`.

use vstd::prelude::*;

verus! {

/// `2^64`.
pub const WORD: u128 = 0x1_0000_0000_0000_0000;

/// `2^128`.
pub open spec fn limb() -> int {
    0x1_0000_0000_0000_0000_0000_0000_0000_0000int
}

/// An integer below `2^256`: `hi * 2^128 + lo`.
#[derive(Clone, Copy, Debug, PartialEq, Eq, Structural)]
pub struct Wide {
    pub hi: u128,
    pub lo: u128,
}

impl Wide {
    /// The integer that the two limbs stand for.
    pub open spec fn value(self) -> int {
        self.hi * limb() + self.lo
    }

    /// Zero.
    pub fn zero() -> (w: Wide)
        ensures
            w.value() == 0,
    {
        Wide { hi: 0, lo: 0 }
    }

    /// The full product of two 128-bit integers.
    pub fn product(a: u128, b: u128) -> (w: Wide)
        ensures
            w.value() == a * b,
    {
        let a1: u128 = a / WORD;
        let a0: u128 = a % WORD;
        let b1: u128 = b / WORD;
        let b0: u128 = b % WORD;
        proof {
            lemma_word_product(a0 as int, b0 as int);
            lemma_word_product(a0 as int, b1 as int);
            lemma_word_product(a1 as int, b0 as int);
            lemma_word_product(a1 as int, b1 as int);
        }
        let low: u128 = a0 * b0;
        let mid: u128 = a0 * b1 + low / WORD;
        let cross: u128 = a1 * b0 + mid % WORD;
        let lo: u128 = (cross % WORD) * WORD + low % WORD;
        proof {
            lemma_long_multiplication(a1 as int, a0 as int, b1 as int, b0 as int);
        }
        let hi: u128 = a1 * b1 + mid / WORD + cross / WORD;
        Wide { hi, lo }
    }

    /// The sum of two integers that fit together.
    pub fn plus(self, other: Wide) -> (w: Wide)
        requires
            self.value() + other.value() < limb() * limb(),
        ensures
            w.value() == self.value() + other.value(),
    {
        proof {
            lemma_limbs_bound(self.hi as int + other.hi as int, self, other);
        }
        match self.lo.checked_add(other.lo) {
            Some(lo) => Wide { hi: self.hi + other.hi, lo },
            None => Wide { hi: self.hi + other.hi + 1, lo: self.lo.wrapping_add(other.lo) },
        }
    }

    /// The difference of two integers, the smaller taken from the larger.
    pub fn minus(self, other: Wide) -> (w: Wide)
        requires
            other.value() <= self.value(),
        ensures
            w.value() == self.value() - other.value(),
    {
        if self.lo >= other.lo {
            Wide { hi: self.hi - other.hi, lo: self.lo - other.lo }
        } else {
            Wide { hi: self.hi - other.hi - 1, lo: u128::MAX - (other.lo - self.lo) + 1 }
        }
    }

    /// The quotient and the remainder of a division by `n`.
    pub fn divided(self, n: u64) -> (r: (Wide, u64))
        requires
            n > 0,
        ensures
            self.value() == r.0.value() * n + r.1,
            r.1 < n,
    {
        let d: u128 = n as u128;
        let w1: u128 = self.lo / WORD;
        let w0: u128 = self.lo % WORD;
        let hi: u128 = self.hi / d;
        let r2: u128 = self.hi % d;
        assert(0 <= r2 * WORD <= (d - 1) * WORD) by (nonlinear_arith)
            requires
                0 <= r2 < d,
                WORD > 0,
        ;
        let x1: u128 = r2 * WORD + w1;
        let q1: u128 = x1 / d;
        let r1: u128 = x1 % d;
        assert(0 <= r1 * WORD <= (d - 1) * WORD) by (nonlinear_arith)
            requires
                0 <= r1 < d,
                WORD > 0,
        ;
        let x0: u128 = r1 * WORD + w0;
        let q0: u128 = x0 / d;
        let r0: u128 = x0 % d;
        proof {
            lemma_digit_below_base(x1 as int, d as int, r2 as int, w1 as int);
            lemma_digit_below_base(x0 as int, d as int, r1 as int, w0 as int);
            lemma_long_division(
                d as int,
                self.hi as int,
                w1 as int,
                w0 as int,
                (hi as int, r2 as int),
                (q1 as int, r1 as int),
                (q0 as int, r0 as int),
            );
        }
        (Wide { hi, lo: q1 * WORD + q0 }, r0 as u64)
    }

    /// Whether `self` is at most `other`.
    pub fn at_most(self, other: Wide) -> (b: bool)
        ensures
            b == (self.value() <= other.value()),
    {
        self.hi < other.hi || (self.hi == other.hi && self.lo <= other.lo)
    }
}

proof fn lemma_word_product(x: int, y: int)
    by (nonlinear_arith)
    requires
        0 <= x < 0x1_0000_0000_0000_0000int,
        0 <= y < 0x1_0000_0000_0000_0000int,
    ensures
        0 <= x * y <= 0xffff_ffff_ffff_ffffint * 0xffff_ffff_ffff_ffffint,
{
}

proof fn lemma_two_digit_expansion(a1: int, a0: int, b1: int, b0: int, w: int)
    ensures
        (a1 * w + a0) * (b1 * w + b0) == (a1 * b1) * (w * w) + (a1 * b0) * w + (a0 * b1) * w + a0
            * b0,
{
    let b = b1 * w + b0;
    assert((a1 * w + a0) * b == (a1 * w) * b + a0 * b) by (nonlinear_arith);
    assert((a1 * w) * (b1 * w + b0) == (a1 * b1) * (w * w) + (a1 * b0) * w) by (nonlinear_arith);
    assert(a0 * (b1 * w + b0) == (a0 * b1) * w + a0 * b0) by (nonlinear_arith);
}

/// Schoolbook multiplication of two-digit numbers in base `2^64`.
proof fn lemma_long_multiplication(a1: int, a0: int, b1: int, b0: int)
    requires
        0 <= a1 < WORD,
        0 <= a0 < WORD,
        0 <= b1 < WORD,
        0 <= b0 < WORD,
    ensures
        ({
            let w = WORD as int;
            let low = a0 * b0;
            let mid = a0 * b1 + low / w;
            let cross = a1 * b0 + mid % w;
            let lo = (cross % w) * w + low % w;
            let hi = a1 * b1 + mid / w + cross / w;
            &&& hi * limb() + lo == (a1 * w + a0) * (b1 * w + b0)
            &&& 0 <= hi < limb()
        }),
{
    let w = WORD as int;
    let low = a0 * b0;
    let mid = a0 * b1 + low / w;
    let cross = a1 * b0 + mid % w;
    let lo = (cross % w) * w + low % w;
    let hi = a1 * b1 + mid / w + cross / w;
    lemma_word_product(a0, b0);
    lemma_word_product(a0, b1);
    lemma_word_product(a1, b0);
    lemma_word_product(a1, b1);
    lemma_two_digit_expansion(a1, a0, b1, b0, w);
    lemma_carries(a1 * b1, a1 * b0, a0 * b1, low);
}

/// Adding up the four partial products, with the carries of a base `2^64`.
proof fn lemma_carries(high: int, left: int, right: int, low: int)
    requires
        0 <= high <= 0xffff_ffff_ffff_ffffint * 0xffff_ffff_ffff_ffffint,
        0 <= left <= 0xffff_ffff_ffff_ffffint * 0xffff_ffff_ffff_ffffint,
        0 <= right <= 0xffff_ffff_ffff_ffffint * 0xffff_ffff_ffff_ffffint,
        0 <= low <= 0xffff_ffff_ffff_ffffint * 0xffff_ffff_ffff_ffffint,
    ensures
        ({
            let w = WORD as int;
            let mid = right + low / w;
            let cross = left + mid % w;
            let lo = (cross % w) * w + low % w;
            let hi = high + mid / w + cross / w;
            &&& hi * limb() + lo == high * (w * w) + left * w + right * w + low
            &&& 0 <= hi < limb()
        }),
{
    let w = 0x1_0000_0000_0000_0000int;
    let mid = right + low / w;
    let cross = left + mid % w;
    assert(low == (low / w) * w + low % w);
    assert(mid == (mid / w) * w + mid % w);
    assert(cross == (cross / w) * w + cross % w);
    assert(mid / w <= 0xffff_ffff_ffff_ffffint);
    assert(cross / w <= 0xffff_ffff_ffff_ffffint);
    let hi = high + mid / w + cross / w;
    let lo = (cross % w) * w + low % w;
    assert(hi < limb());
    assert(w * w == limb());
    assert(hi * limb() + lo == high * limb() + left * w + right * w + low);
}

/// A digit of a quotient in base `2^64`.
proof fn lemma_digit_below_base(x: int, d: int, r: int, w: int)
    requires
        d > 0,
        0 <= r < d,
        0 <= w < WORD,
        x == r * WORD + w,
    ensures
        0 <= x / d < WORD,
{
    assert(0 <= x < d * WORD) by (nonlinear_arith)
        requires
            0 <= r < d,
            0 <= w < WORD,
            x == r * WORD + w,
    ;
    vstd::arithmetic::div_mod::lemma_div_pos_is_pos(x, d);
    vstd::arithmetic::div_mod::lemma_fundamental_div_mod(x, d);
    vstd::arithmetic::div_mod::lemma_mod_bound(x, d);
    let q = x / d;
    assert(q < WORD) by (nonlinear_arith)
        requires
            d * q <= x,
            x < d * WORD,
            d > 0,
    ;
}

/// Long division of a number with the digits `h`, `w1` and `w0`: each step hands its
/// remainder on.
proof fn lemma_long_division(
    d: int,
    h: int,
    w1: int,
    w0: int,
    s2: (int, int),
    s1: (int, int),
    s0: (int, int),
)
    requires
        d > 0,
        s2 == (h / d, h % d),
        s1 == ((s2.1 * WORD + w1) / d, (s2.1 * WORD + w1) % d),
        s0 == ((s1.1 * WORD + w0) / d, (s1.1 * WORD + w0) % d),
    ensures
        h * limb() + w1 * WORD + w0 == (s2.0 * limb() + s1.0 * WORD + s0.0) * d + s0.1,
{
    let w = WORD as int;
    vstd::arithmetic::div_mod::lemma_fundamental_div_mod(h, d);
    vstd::arithmetic::div_mod::lemma_fundamental_div_mod(s2.1 * w + w1, d);
    vstd::arithmetic::div_mod::lemma_fundamental_div_mod(s1.1 * w + w0, d);
    assert(limb() == w * w);
    lemma_division_steps(d, w, h, w1, w0, s2, s1, s0);
}

proof fn lemma_division_steps(
    d: int,
    w: int,
    h: int,
    w1: int,
    w0: int,
    s2: (int, int),
    s1: (int, int),
    s0: (int, int),
)
    requires
        h == d * s2.0 + s2.1,
        s2.1 * w + w1 == d * s1.0 + s1.1,
        s1.1 * w + w0 == d * s0.0 + s0.1,
    ensures
        h * (w * w) + w1 * w + w0 == (s2.0 * (w * w) + s1.0 * w + s0.0) * d + s0.1,
{
    let (q2, r2, q1, r1, q0) = (s2.0, s2.1, s1.0, s1.1, s0.0);
    assert(h * (w * w) == (d * q2) * (w * w) + (r2 * w) * w) by (nonlinear_arith)
        requires
            h == d * q2 + r2,
    ;
    assert((r2 * w) * w + w1 * w == (d * q1) * w + r1 * w) by (nonlinear_arith)
        requires
            r2 * w + w1 == d * q1 + r1,
    ;
    assert((q2 * (w * w) + q1 * w + q0) * d == (d * q2) * (w * w) + (d * q1) * w + d * q0)
        by (nonlinear_arith);
}

proof fn lemma_limbs_bound(hi: int, a: Wide, b: Wide)
    requires
        hi == a.hi + b.hi,
        a.value() + b.value() < limb() * limb(),
    ensures
        hi < limb(),
        a.lo + b.lo >= limb() ==> hi + 1 < limb(),
{
    assert(a.value() + b.value() == hi * limb() + a.lo + b.lo);
}

}
