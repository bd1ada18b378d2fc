//! Exact rational numbers used for times, frequencies and amplitudes.
//!
//! A `Rat` is a fraction `num / den` with a positive denominator.  Fractions
//! are not kept in lowest terms; equality and ordering are defined on the
//! represented value by cross multiplication, so `1/2` and `2/4` compare
//! equal.  All executable arithmetic is carried out in 128-bit intermediates
//! and the preconditions only demand that the resulting numerator and
//! denominator fit the 64-bit fields.

use vstd::prelude::*;

verus! {

/// An exact rational number `num / den`; `den` is kept positive.
#[derive(Clone, Copy, Debug)]
pub struct Rat {
    pub num: i64,
    pub den: i64,
}

/// Magnitude cap on the arguments of `round_div` and `euclid_mod`; large
/// enough for every product formed in this crate, small enough that all
/// 128-bit intermediates stay exact.
pub const ROUND_BOUND: i128 = 1_000_000_000_000_000_000_000_000_000_000_000_000;

/// Nearest integer to `a / b` (`b` positive), ties rounded away from zero.
pub open spec fn spec_round_div(a: int, b: int) -> int
    recommends
        b >= 1,
{
    if a >= 0 {
        (2 * a + b) / (2 * b)
    } else {
        -((2 * (-a) + b) / (2 * b))
    }
}

/// Executable form of `spec_round_div`.
pub fn round_div(a: i128, b: i128) -> (r: i128)
    requires
        1 <= b <= ROUND_BOUND,
        -ROUND_BOUND <= a <= ROUND_BOUND,
    ensures
        r == spec_round_div(a as int, b as int),
{
    let bu = b as u128;
    if a >= 0 {
        let q = ((a as u128) * 2 + bu) / (bu * 2);
        proof {
            assert((2 * a + b) / (2 * b) <= a) by (nonlinear_arith)
                requires
                    0 <= a,
                    1 <= b,
            ;
        }
        q as i128
    } else {
        let na = (-a) as u128;
        let q = (na * 2 + bu) / (bu * 2);
        proof {
            assert((2 * (-a) + b) / (2 * b) <= -a) by (nonlinear_arith)
                requires
                    a < 0,
                    1 <= b,
            ;
        }
        -(q as i128)
    }
}

/// Euclidean remainder of `a` by positive `b`, always in `[0, b)`;
/// agrees with the mathematical `%` of the specification language.
pub fn euclid_mod(a: i128, b: i128) -> (r: i128)
    requires
        1 <= b <= ROUND_BOUND,
        -ROUND_BOUND <= a <= ROUND_BOUND,
    ensures
        r == a as int % b as int,
        0 <= r < b,
{
    let bu = b as u128;
    if a >= 0 {
        ((a as u128) % bu) as i128
    } else {
        let m = ((-a) as u128) % bu;
        proof {
            let ai = a as int;
            let bi = b as int;
            let x = -ai;
            assert(m as int == x % bi);
            vstd::arithmetic::div_mod::lemma_fundamental_div_mod(x, bi);
            vstd::arithmetic::div_mod::lemma_mod_division_less_than_divisor(x, bi);
            let q0 = x / bi;
            let m0 = x % bi;
            if m0 == 0 {
                assert(ai == (-q0) * bi + 0) by (nonlinear_arith)
                    requires
                        x == bi * q0 + m0,
                        ai == -x,
                        m0 == 0,
                ;
                vstd::arithmetic::div_mod::lemma_fundamental_div_mod_converse_mod(ai, bi, -q0, 0);
            } else {
                assert(ai == (-q0 - 1) * bi + (bi - m0)) by (nonlinear_arith)
                    requires
                        x == bi * q0 + m0,
                        ai == -x,
                ;
                vstd::arithmetic::div_mod::lemma_fundamental_div_mod_converse_mod(
                    ai,
                    bi,
                    -q0 - 1,
                    bi - m0,
                );
            }
        }
        if m == 0 {
            0
        } else {
            b - m as i128
        }
    }
}

/// For positive `b`, rounding a multiple of `b` recovers the factor exactly.
pub proof fn lemma_round_div_exact(m: int, b: int)
    requires
        b >= 1,
    ensures
        spec_round_div(m * b, b) == m,
{
    if m >= 0 {
        assert((2 * (m * b) + b) / (2 * b) == m) by (nonlinear_arith)
            requires
                b >= 1,
                m >= 0,
        ;
    } else {
        assert(m * b < 0) by (nonlinear_arith)
            requires
                b >= 1,
                m < 0,
        ;
        assert((2 * (-(m * b)) + b) / (2 * b) == -m) by (nonlinear_arith)
            requires
                b >= 1,
                m < 0,
        ;
    }
}

/// Rounding never turns a non-negative quotient negative.
pub proof fn lemma_round_div_nonneg(a: int, b: int)
    requires
        b >= 1,
        a >= 0,
    ensures
        spec_round_div(a, b) >= 0,
{
    assert((2 * a + b) / (2 * b) >= 0) by (nonlinear_arith)
        requires
            b >= 1,
            a >= 0,
    ;
}

/// The rounded quotient is bounded by any bound on the exact quotient.
pub proof fn lemma_round_div_bound(a: int, b: int, c: int)
    requires
        b >= 1,
        c >= 0,
        -(c * b) <= a <= c * b,
    ensures
        -c <= spec_round_div(a, b) <= c,
{
    if a >= 0 {
        assert((2 * a + b) / (2 * b) <= c) by (nonlinear_arith)
            requires
                b >= 1,
                c >= 0,
                a <= c * b,
        ;
        assert((2 * a + b) / (2 * b) >= 0) by (nonlinear_arith)
            requires
                b >= 1,
                a >= 0,
        ;
    } else {
        assert((2 * (-a) + b) / (2 * b) <= c) by (nonlinear_arith)
            requires
                b >= 1,
                c >= 0,
                -(c * b) <= a < 0,
        ;
        assert((2 * (-a) + b) / (2 * b) >= 0) by (nonlinear_arith)
            requires
                b >= 1,
                a < 0,
        ;
    }
}

/// Product of two 64-bit values, exact in 128 bits.
pub fn wide_mul(a: i64, b: i64) -> (r: i128)
    ensures
        r == a * b,
{
    proof {
        assert(i128::MIN <= (a as int) * (b as int) <= i128::MAX) by (nonlinear_arith);
    }
    (a as i128) * (b as i128)
}

impl Rat {
    /// Well-formed: the denominator is positive.
    pub open spec fn wf(self) -> bool {
        self.den >= 1
    }

    /// `self` stands for the value `n / d` (cross-multiplied form).
    pub open spec fn is_ratio(self, n: int, d: int) -> bool {
        self.num * d == n * self.den
    }

    /// The values of `self` and `other` are equal.
    pub open spec fn eq_val(self, other: Rat) -> bool {
        self.num * other.den == other.num * self.den
    }

    /// The value of `self` is at most the value of `other`
    /// (for well-formed operands).
    pub open spec fn le_val(self, other: Rat) -> bool {
        self.num * other.den <= other.num * self.den
    }

    /// Numerator and denominator both lie within `b`.
    pub open spec fn bounded(self, b: int) -> bool {
        -b <= self.num <= b && 1 <= self.den <= b
    }

    /// The exact fraction `num / den`.
    pub fn new(num: i64, den: i64) -> (r: Rat)
        requires
            den >= 1,
        ensures
            r.num == num,
            r.den == den,
            r.wf(),
    {
        Rat { num, den }
    }

    /// The whole number `n`.
    pub fn from_int(n: i64) -> (r: Rat)
        ensures
            r.num == n,
            r.den == 1,
            r.wf(),
    {
        Rat { num: n, den: 1 }
    }

    /// Exact sum.  The preconditions only rule out 64-bit overflow of the
    /// cross products that make up the result.
    pub fn add(self, other: Rat) -> (r: Rat)
        requires
            self.wf(),
            other.wf(),
            i64::MIN <= self.num * other.den <= i64::MAX,
            i64::MIN <= other.num * self.den <= i64::MAX,
            i64::MIN <= self.num * other.den + other.num * self.den <= i64::MAX,
            self.den * other.den <= i64::MAX,
        ensures
            r.wf(),
            r.num == self.num * other.den + other.num * self.den,
            r.den == self.den * other.den,
    {
        let n = wide_mul(self.num, other.den) + wide_mul(other.num, self.den);
        let d = wide_mul(self.den, other.den);
        proof {
            assert(self.den * other.den >= 1) by (nonlinear_arith)
                requires
                    self.den >= 1,
                    other.den >= 1,
            ;
        }
        Rat { num: n as i64, den: d as i64 }
    }

    /// Exact product, under overflow preconditions on both fields.
    pub fn mul(self, other: Rat) -> (r: Rat)
        requires
            self.wf(),
            other.wf(),
            i64::MIN <= self.num * other.num <= i64::MAX,
            self.den * other.den <= i64::MAX,
        ensures
            r.wf(),
            r.num == self.num * other.num,
            r.den == self.den * other.den,
    {
        let n = wide_mul(self.num, other.num);
        let d = wide_mul(self.den, other.den);
        proof {
            assert(self.den * other.den >= 1) by (nonlinear_arith)
                requires
                    self.den >= 1,
                    other.den >= 1,
            ;
        }
        Rat { num: n as i64, den: d as i64 }
    }

    /// Exact reciprocal `1 / self`, defined for nonzero values.
    pub fn recip(self) -> (r: Rat)
        requires
            self.wf(),
            self.num != 0,
            self.num != i64::MIN,
        ensures
            r.wf(),
            r.is_ratio(self.den as int, self.num as int),
            self.num > 0 ==> r.num == self.den && r.den == self.num,
            self.num < 0 ==> r.num == -self.den && r.den == -self.num,
    {
        if self.num > 0 {
            Rat { num: self.den, den: self.num }
        } else {
            proof {
                assert((-self.den) * self.num == self.den * (-self.num)) by (nonlinear_arith);
            }
            Rat { num: -self.den, den: -self.num }
        }
    }

    /// The value of `self` is at most the value of `other`.
    pub fn le(self, other: Rat) -> (r: bool)
        requires
            self.wf(),
            other.wf(),
        ensures
            r == self.le_val(other),
    {
        wide_mul(self.num, other.den) <= wide_mul(other.num, self.den)
    }
}

impl PartialEq for Rat {
    /// Value equality by cross multiplication: `1/2 == 2/4`.
    fn eq(&self, other: &Rat) -> (r: bool) {
        wide_mul(self.num, other.den) == wide_mul(other.num, self.den)
    }
}

impl vstd::std_specs::cmp::PartialEqSpecImpl for Rat {
    open spec fn obeys_eq_spec() -> bool {
        true
    }

    open spec fn eq_spec(&self, other: &Rat) -> bool {
        self.eq_val(*other)
    }
}

} // verus!
