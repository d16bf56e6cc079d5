//! Rational durations, kept as reduced fractions with a positive
//! denominator, together with the notation-oriented queries on them:
//! printability as a single symbol, and decomposition into printable parts.

use crate::error::Error;
use crate::gcd::{gcd, gcd_i32, lemma_gcd_coprime, lemma_gcd_divides, lemma_gcd_pos};
use vstd::arithmetic::div_mod::{
    lemma_div_nonincreasing, lemma_div_pos_is_pos, lemma_fundamental_div_mod,
    lemma_fundamental_div_mod_converse,
};
use vstd::math::abs;
use vstd::prelude::*;

verus! {

/// A duration of musical time: a reduced fraction of whole notes.
///
/// Invariant (`wf`): the denominator is positive, the two fields are
/// coprime, and the numerator is above `i32::MIN` so that it can always
/// be negated.
#[derive(Clone, Copy, Debug, PartialEq, Eq, Structural)]
pub struct Duration {
    pub numerator: i32,
    pub denominator: i32,
}

impl Duration {
    /// The numerator, as a mathematical integer.
    pub open spec fn num(self) -> int {
        self.numerator as int
    }

    /// The denominator, as a mathematical integer.
    pub open spec fn den(self) -> int {
        self.denominator as int
    }

    /// Reduced form: positive denominator, coprime fields, negatable numerator.
    pub open spec fn wf(self) -> bool {
        &&& self.den() > 0
        &&& gcd(abs(self.num()) as int, self.den()) == 1
        &&& self.num() > i32::MIN as int
    }
}

/// The numerator of the fraction `n / d` after reduction and sign correction.
pub open spec fn reduced_num(n: int, d: int) -> int {
    let g = gcd(abs(n) as int, abs(d) as int);
    if (n < 0) != (d < 0) {
        -(abs(n) as int / g)
    } else {
        abs(n) as int / g
    }
}

/// The denominator of the fraction `n / d` after reduction and sign correction.
pub open spec fn reduced_den(n: int, d: int) -> int {
    abs(d) as int / gcd(abs(n) as int, abs(d) as int)
}

/// Facts about the reduced form of `n / d`: the reduced pair is coprime,
/// its denominator is positive, and it stands for the same rational number.
proof fn lemma_reduced(n: int, d: int)
    requires
        d != 0,
    ensures
        reduced_den(n, d) > 0,
        gcd(abs(reduced_num(n, d)) as int, reduced_den(n, d)) == 1,
        reduced_num(n, d) * d == n * reduced_den(n, d),
        abs(reduced_num(n, d)) <= abs(n),
        reduced_den(n, d) <= abs(d),
{
    let na = abs(n) as int;
    let da = abs(d) as int;
    let g = gcd(na, da);
    lemma_gcd_pos(na, da);
    lemma_gcd_divides(na, da);
    lemma_gcd_coprime(na, da);
    lemma_fundamental_div_mod(na, g);
    lemma_fundamental_div_mod(da, g);
    let nr = na / g;
    let dr = da / g;
    assert(na == g * nr && da == g * dr);
    assert(dr > 0 && nr >= 0) by (nonlinear_arith)
        requires
            g > 0,
            na >= 0,
            da > 0,
            na == g * nr,
            da == g * dr,
    ;
    assert(nr * da == na * dr) by (nonlinear_arith)
        requires
            na == g * nr,
            da == g * dr,
    ;
    lemma_div_nonincreasing(na, g);
    lemma_div_nonincreasing(da, g);
    // The cross-equation holds in each of the four sign cases.
    if n >= 0 && d > 0 {
        assert(reduced_num(n, d) * d == n * reduced_den(n, d));
    } else if n >= 0 && d < 0 {
        assert(-nr * d == n * dr) by (nonlinear_arith)
            requires
                nr * (-d) == n * dr,
        ;
    } else if n < 0 && d > 0 {
        assert(-nr * d == n * dr) by (nonlinear_arith)
            requires
                nr * d == (-n) * dr,
        ;
    } else {
        assert(nr * d == n * dr) by (nonlinear_arith)
            requires
                nr * (-d) == (-n) * dr,
        ;
    }
}

impl Duration {
    /// Builds the reduced fraction `numerator / denominator`: common factors
    /// are divided out and the sign is carried by the numerator.
    pub fn new(numerator: i32, denominator: i32) -> (r: Self)
        requires
            denominator != 0,
            numerator > i32::MIN,
            denominator > i32::MIN,
        ensures
            r.wf(),
            r.num() == reduced_num(numerator as int, denominator as int),
            r.den() == reduced_den(numerator as int, denominator as int),
            r.num() * denominator == numerator * r.den(),
    {
        proof {
            lemma_reduced(numerator as int, denominator as int);
        }
        let na: i32 = if numerator < 0 {
            -numerator
        } else {
            numerator
        };
        let da: i32 = if denominator < 0 {
            -denominator
        } else {
            denominator
        };
        let g = gcd_i32(na, da);
        proof {
            lemma_gcd_pos(na as int, da as int);
        }
        let nr = na / g;
        let dr = da / g;
        if (numerator < 0) != (denominator < 0) {
            Self { numerator: -nr, denominator: dr }
        } else {
            Self { numerator: nr, denominator: dr }
        }
    }

    /// The pair (numerator, denominator).
    pub fn as_tuple(self) -> (r: (i32, i32))
        ensures
            r.0 == self.num(),
            r.1 == self.den(),
    {
        (self.numerator, self.denominator)
    }

    /// The pair (numerator, denominator).
    pub fn to_pair(&self) -> (r: (i32, i32))
        ensures
            r.0 == self.num(),
            r.1 == self.den(),
    {
        (self.numerator, self.denominator)
    }

    /// The absolute value of the duration.
    pub fn abs(self) -> (r: Self)
        requires
            self.wf(),
        ensures
            r.wf(),
            r.num() == abs(self.num()),
            r.den() == self.den(),
    {
        if self.numerator < 0 {
            Self { numerator: -self.numerator, denominator: self.denominator }
        } else {
            self
        }
    }

    /// Whether the duration is strictly below zero.
    pub fn is_negative(self) -> (r: bool)
        ensures
            r == (self.num() < 0),
    {
        self.numerator < 0
    }

    /// The negated duration.
    pub fn neg(self) -> (r: Self)
        requires
            self.wf(),
        ensures
            r.wf(),
            r.num() == -self.num(),
            r.den() == self.den(),
    {
        Self { numerator: -self.numerator, denominator: self.denominator }
    }
}

/// Bound on the product of two values in `i32` range: it fits in `i64`.
proof fn lemma_prod_fits_i64(a: int, b: int)
    requires
        -0x8000_0000 <= a <= 0x7fff_ffff,
        -0x8000_0000 <= b <= 0x7fff_ffff,
    ensures
        -0x4000_0000_0000_0000 <= a * b <= 0x4000_0000_0000_0000,
{
    assert(-0x4000_0000_0000_0000 <= a * b <= 0x4000_0000_0000_0000) by (nonlinear_arith)
        requires
            -0x8000_0000 <= a <= 0x7fff_ffff,
            -0x8000_0000 <= b <= 0x7fff_ffff,
    ;
}

impl Duration {
    /// The sum of two durations, as a reduced fraction.
    pub fn add(self, rhs: Self) -> (r: Self)
        requires
            self.wf(),
            rhs.wf(),
            -i32::MAX <= self.num() * rhs.den() + rhs.num() * self.den() <= i32::MAX,
            self.den() * rhs.den() <= i32::MAX,
        ensures
            r.wf(),
            r.num() * (self.den() * rhs.den()) == (self.num() * rhs.den() + rhs.num() * self.den())
                * r.den(),
    {
        proof {
            lemma_prod_fits_i64(self.num(), rhs.den());
            lemma_prod_fits_i64(rhs.num(), self.den());
            lemma_prod_fits_i64(self.den(), rhs.den());
            assert(self.den() * rhs.den() >= 1) by (nonlinear_arith)
                requires
                    self.den() >= 1,
                    rhs.den() >= 1,
            ;
        }
        let n: i64 = (self.numerator as i64) * (rhs.denominator as i64) + (rhs.numerator as i64)
            * (self.denominator as i64);
        let d: i64 = (self.denominator as i64) * (rhs.denominator as i64);
        Self::new(n as i32, d as i32)
    }

    /// The difference of two durations, as a reduced fraction.
    pub fn sub(self, rhs: Self) -> (r: Self)
        requires
            self.wf(),
            rhs.wf(),
            -i32::MAX <= self.num() * rhs.den() - rhs.num() * self.den() <= i32::MAX,
            self.den() * rhs.den() <= i32::MAX,
        ensures
            r.wf(),
            r.num() * (self.den() * rhs.den()) == (self.num() * rhs.den() - rhs.num() * self.den())
                * r.den(),
    {
        proof {
            lemma_prod_fits_i64(self.num(), rhs.den());
            lemma_prod_fits_i64(rhs.num(), self.den());
            lemma_prod_fits_i64(self.den(), rhs.den());
            assert(self.den() * rhs.den() >= 1) by (nonlinear_arith)
                requires
                    self.den() >= 1,
                    rhs.den() >= 1,
            ;
        }
        let n: i64 = (self.numerator as i64) * (rhs.denominator as i64) - (rhs.numerator as i64)
            * (self.denominator as i64);
        let d: i64 = (self.denominator as i64) * (rhs.denominator as i64);
        Self::new(n as i32, d as i32)
    }

    /// The product of two durations, as a reduced fraction.
    pub fn mul(self, rhs: Self) -> (r: Self)
        requires
            self.wf(),
            rhs.wf(),
            -i32::MAX <= self.num() * rhs.num() <= i32::MAX,
            self.den() * rhs.den() <= i32::MAX,
        ensures
            r.wf(),
            r.num() * (self.den() * rhs.den()) == (self.num() * rhs.num()) * r.den(),
    {
        proof {
            lemma_prod_fits_i64(self.num(), rhs.num());
            lemma_prod_fits_i64(self.den(), rhs.den());
            assert(self.den() * rhs.den() >= 1) by (nonlinear_arith)
                requires
                    self.den() >= 1,
                    rhs.den() >= 1,
            ;
        }
        let n: i64 = (self.numerator as i64) * (rhs.numerator as i64);
        let d: i64 = (self.denominator as i64) * (rhs.denominator as i64);
        Self::new(n as i32, d as i32)
    }

    /// The duration scaled by an integer factor.
    pub fn mul_int(self, rhs: i32) -> (r: Self)
        requires
            self.wf(),
            -i32::MAX <= self.num() * rhs <= i32::MAX,
        ensures
            r.wf(),
            r.num() * self.den() == (self.num() * rhs) * r.den(),
    {
        proof {
            lemma_prod_fits_i64(self.num(), rhs as int);
        }
        let n: i64 = (self.numerator as i64) * (rhs as i64);
        Self::new(n as i32, self.denominator)
    }

    /// The quotient of two durations, or `DivisionByZero` for a zero divisor.
    pub fn div(self, rhs: Self) -> (r: Result<Self, Error>)
        requires
            self.wf(),
            rhs.wf(),
            -i32::MAX <= self.num() * rhs.den() <= i32::MAX,
            -i32::MAX <= self.den() * rhs.num() <= i32::MAX,
        ensures
            rhs.num() == 0 <==> r == Err::<Duration, Error>(Error::DivisionByZero),
            rhs.num() != 0 ==> r is Ok,
            r matches Ok(q) ==> q.wf() && q.num() * (self.den() * rhs.num()) == (self.num()
                * rhs.den()) * q.den(),
    {
        if rhs.numerator == 0 {
            Err(Error::DivisionByZero)
        } else {
            proof {
                lemma_prod_fits_i64(self.num(), rhs.den());
                lemma_prod_fits_i64(self.den(), rhs.num());
                assert(self.den() * rhs.num() != 0) by (nonlinear_arith)
                    requires
                        self.den() > 0,
                        rhs.num() != 0,
                ;
            }
            let n: i64 = (self.numerator as i64) * (rhs.denominator as i64);
            let d: i64 = (self.denominator as i64) * (rhs.numerator as i64);
            Ok(Self::new(n as i32, d as i32))
        }
    }

    /// The duration divided by an integer, or `DivisionByZero` for zero.
    pub fn div_int(self, rhs: i32) -> (r: Result<Self, Error>)
        requires
            self.wf(),
            -i32::MAX <= self.den() * rhs <= i32::MAX,
        ensures
            rhs == 0 <==> r == Err::<Duration, Error>(Error::DivisionByZero),
            rhs != 0 ==> r is Ok,
            r matches Ok(q) ==> q.wf() && q.num() * (self.den() * rhs) == self.num() * q.den(),
    {
        if rhs == 0 {
            Err(Error::DivisionByZero)
        } else {
            proof {
                lemma_prod_fits_i64(self.den(), rhs as int);
                assert(self.den() * rhs != 0) by (nonlinear_arith)
                    requires
                        self.den() > 0,
                        rhs != 0,
                ;
            }
            let d: i64 = (self.denominator as i64) * (rhs as i64);
            Ok(Self::new(self.numerator, d as i32))
        }
    }
}

} // verus!

verus! {

/// Whether `d` is a power of two (including 1).
pub open spec fn is_pow2(d: int) -> bool
    decreases d,
{
    if d < 1 {
        false
    } else if d == 1 {
        true
    } else {
        d % 2 == 0 && is_pow2(d / 2)
    }
}

/// Whether the binary form of `n` is a block of ones: `n == 2^k - 1, k >= 1`.
pub open spec fn all_ones(n: int) -> bool
    decreases n,
{
    n == 1 || (n > 1 && n % 2 == 1 && all_ones(n / 2))
}

/// Whether the binary form of `n >= 1` is ones followed by zeros, that is,
/// whether it never has a one above a zero: the shape a dotted note needs.
pub open spec fn dottable(n: int) -> bool
    decreases n,
{
    if n < 1 {
        false
    } else if n % 2 == 1 {
        all_ones(n)
    } else {
        dottable(n / 2)
    }
}

impl Duration {
    /// Whether this duration can be drawn as one notehead: its value lies
    /// strictly between 0 and 16, its denominator is a power of two, and
    /// its numerator's binary form is ones followed by zeros.
    pub open spec fn is_printable_spec(self) -> bool {
        printable_pair(self.num(), self.den())
    }
}

/// Whether `d >= 1` is a power of two.
fn is_power_of_two(d: i32) -> (r: bool)
    requires
        d >= 1,
    ensures
        r == is_pow2(d as int),
{
    let mut m = d;
    while m % 2 == 0
        invariant
            1 <= m <= d,
            is_pow2(m as int) == is_pow2(d as int),
        decreases m,
    {
        m = m / 2;
    }
    m == 1
}

/// Whether the binary form of `n >= 1` is ones followed by zeros.
fn is_dottable(n: i32) -> (r: bool)
    requires
        n >= 1,
    ensures
        r == dottable(n as int),
{
    let mut m = n;
    while m % 2 == 0
        invariant
            1 <= m <= n,
            dottable(m as int) == dottable(n as int),
        decreases m,
    {
        m = m / 2;
    }
    loop
        invariant
            1 <= m,
            m % 2 == 1,
            all_ones(m as int) == dottable(n as int),
        decreases m,
    {
        if m == 1 {
            return true;
        }
        proof {
            assert(m > 1);
            assert(all_ones(m as int) == all_ones((m as int) / 2));
        }
        m = m / 2;
        if m % 2 == 0 {
            proof {
                assert(!all_ones(m as int));
            }
            return false;
        }
    }
}

impl Duration {
    /// Whether this duration can be drawn as one notehead.
    pub fn is_printable(self) -> (r: bool)
        requires
            self.wf(),
        ensures
            r == self.is_printable_spec(),
    {
        if self.numerator < 1 {
            return false;
        }
        if !((self.numerator as i64) < 16 * (self.denominator as i64)) {
            return false;
        }
        is_power_of_two(self.denominator) && is_dottable(self.numerator)
    }
}

} // verus!

verus! {

/// A power of two is at least one.
proof fn lemma_pow2_ge1(d: int)
    requires
        is_pow2(d),
    ensures
        d >= 1,
{
}

/// Divisibility is transitive.
proof fn lemma_divides_trans(a: int, b: int, c: int)
    requires
        a >= 1,
        b >= 1,
        c >= 1,
        a % b == 0,
        b % c == 0,
    ensures
        a % c == 0,
{
    lemma_fundamental_div_mod(a, b);
    lemma_fundamental_div_mod(b, c);
    let q1 = a / b;
    let q2 = b / c;
    assert(a == (q2 * q1) * c) by (nonlinear_arith)
        requires
            a == b * q1,
            b == c * q2,
    ;
    vstd::arithmetic::div_mod::lemma_mod_multiples_basic(q2 * q1, c);
}

/// A positive divisor of a power of two leaves a power of two as quotient.
proof fn lemma_pow2_divisor(d: int, g: int)
    requires
        is_pow2(d),
        g >= 1,
        d % g == 0,
    ensures
        is_pow2(d / g),
    decreases d,
{
    lemma_fundamental_div_mod(d, g);
    let q = d / g;
    if d == 1 {
        if g > 1 {
            vstd::arithmetic::div_mod::lemma_small_mod(1nat, g as nat);
            assert(false);
        }
        assert(d / g == 1);
    } else {
        assert(d % 2 == 0 && is_pow2(d / 2) && d >= 2);
        if g % 2 == 0 {
            let h = g / 2;
            lemma_fundamental_div_mod(g, 2);
            assert(g == 2 * h && h >= 1);
            assert(d / 2 == h * q) by (nonlinear_arith)
                requires
                    d == g * q,
                    g == 2 * h,
                    d % 2 == 0,
                    d / 2 == (d - d % 2) / 2,
                    d == 2 * (d / 2) + d % 2,
            ;
            vstd::arithmetic::div_mod::lemma_mod_multiples_basic(q, h);
            lemma_pow2_divisor(d / 2, h);
            vstd::arithmetic::div_mod::lemma_fundamental_div_mod_converse(d / 2, h, q, 0);
            assert((d / 2) / h == q);
        } else {
            // g is odd, so the cofactor q must be even.
            assert(q >= 1) by (nonlinear_arith)
                requires
                    d == g * q,
                    d >= 2,
                    g >= 1,
            ;
            if q % 2 == 1 {
                vstd::arithmetic::div_mod::lemma_mul_mod_noop_general(g, q, 2);
                assert((g * q) % 2 == ((g % 2) * (q % 2)) % 2);
                assert(false);
            }
            let h = q / 2;
            lemma_fundamental_div_mod(q, 2);
            assert(q == 2 * h && h >= 0);
            assert(d / 2 == g * h) by (nonlinear_arith)
                requires
                    d == g * q,
                    q == 2 * h,
                    d % 2 == 0,
                    d == 2 * (d / 2) + d % 2,
            ;
            vstd::arithmetic::div_mod::lemma_mod_multiples_basic(h, g);
            assert((g * h) % g == 0) by {
                vstd::arithmetic::mul::lemma_mul_is_commutative(g, h);
            }
            lemma_pow2_divisor(d / 2, g);
            vstd::arithmetic::div_mod::lemma_fundamental_div_mod_converse(d / 2, g, h, 0);
            assert((d / 2) / g == h);
            assert(is_pow2(h));
            assert(h >= 1) by {
                lemma_pow2_ge1(h);
            }
            assert(is_pow2(q));
        }
    }
}

/// For a power of two `d`, the number `16 * d - 1` is a block of ones.
proof fn lemma_all_ones_16d(d: int)
    requires
        is_pow2(d),
    ensures
        all_ones(16 * d - 1),
    decreases d,
{
    if d == 1 {
        assert(all_ones(1));
        assert(all_ones(3));
        assert(all_ones(7));
        assert(all_ones(15));
    } else {
        lemma_all_ones_16d(d / 2);
        assert(16 * (d / 2) - 1 == 8 * d - 1) by (nonlinear_arith)
            requires
                d % 2 == 0,
                d == 2 * (d / 2) + d % 2,
        ;
        assert(all_ones(8 * d - 1));
        let n = 16 * d - 1;
        assert(n % 2 == 1 && n / 2 == 8 * d - 1) by {
            vstd::arithmetic::div_mod::lemma_fundamental_div_mod_converse(n, 2, 8 * d - 1, 1);
        }
        assert(n > 1);
        assert(all_ones(n));
    }
}

/// One over a power of two is printable.
proof fn lemma_printable_one(d: int)
    requires
        is_pow2(d),
    ensures
        printable_pair(1, d),
{
    lemma_pow2_ge1(d);
    assert(all_ones(1));
    assert(dottable(1));
}

/// Printability, stated on a bare numerator and denominator: the value is
/// strictly between 0 and 16, the denominator is a power of two, and the
/// numerator's binary form is ones followed by zeros.
pub open spec fn printable_pair(n: int, d: int) -> bool {
    &&& 0 < n
    &&& n < 16 * d
    &&& is_pow2(d)
    &&& dottable(n)
}

} // verus!

verus! {

/// The pair reached from `(n, d)` by stepping the numerator down by one
/// (reducing after every step) until the fraction is printable.
pub open spec fn shorter_from(n: int, d: int) -> (int, int)
    decreases n via shorter_from_decreases
{
    if n < 1 || d < 1 {
        (n, d)
    } else if printable_pair(n, d) {
        (n, d)
    } else {
        shorter_from(reduced_num(n - 1, d), reduced_den(n - 1, d))
    }
}

#[via_fn]
proof fn shorter_from_decreases(n: int, d: int) {
    if !(n < 1 || d < 1) && !printable_pair(n, d) {
        lemma_reduced(n - 1, d);
        lemma_gcd_pos(n - 1, d);
        lemma_div_pos_is_pos(n - 1, gcd(n - 1, d));
        assert(reduced_num(n - 1, d) >= 0);
        assert(reduced_num(n - 1, d) <= n - 1);
    }
}

/// The pair reached from `(n, d)` by stepping the numerator up by one
/// (reducing after every step) until the fraction is printable.
pub open spec fn greater_from(n: int, d: int) -> (int, int)
    decreases 16 * d - n via greater_from_decreases
{
    if n < 1 || d < 1 || n >= 16 * d {
        (n, d)
    } else if printable_pair(n, d) {
        (n, d)
    } else {
        greater_from(reduced_num(n + 1, d), reduced_den(n + 1, d))
    }
}

#[via_fn]
proof fn greater_from_decreases(n: int, d: int) {
    if !(n < 1 || d < 1 || n >= 16 * d) && !printable_pair(n, d) {
        lemma_reduced(n + 1, d);
        let g = gcd(n + 1, d);
        lemma_gcd_pos(n + 1, d);
        lemma_gcd_divides(n + 1, d);
        lemma_fundamental_div_mod(n + 1, g);
        lemma_fundamental_div_mod(d, g);
        let n2 = reduced_num(n + 1, d);
        let d2 = reduced_den(n + 1, d);
        assert(n2 == (n + 1) / g && d2 == d / g);
        assert(n + 1 == g * n2 && d == g * d2);
        assert(0 <= 16 * d2 - n2 && 16 * d2 - n2 < 16 * d - n) by (nonlinear_arith)
            requires
                g >= 1,
                n + 1 == g * n2,
                d == g * d2,
                n + 1 <= 16 * d,
        ;
    }
}

/// What the downward greedy step guarantees: starting from a positive
/// reduced fraction with a power-of-two denominator, it reaches a printable
/// fraction that is still positive, still reduced, no larger in value, and
/// whose denominator divides the starting one.
proof fn lemma_shorter_props(n: int, d: int)
    requires
        n >= 1,
        is_pow2(d),
        gcd(n, d) == 1,
    ensures
        ({
            let (m, e) = shorter_from(n, d);
            &&& printable_pair(m, e)
            &&& m >= 1
            &&& e >= 1
            &&& gcd(m, e) == 1
            &&& d % e == 0
            &&& m * d <= n * e
            &&& (!printable_pair(n, d) ==> m * d < n * e)
        }),
    decreases n,
{
    lemma_pow2_ge1(d);
    if printable_pair(n, d) {
        vstd::arithmetic::div_mod::lemma_mod_self_0(d);
        assert(n * d <= n * d);
    } else {
        if n == 1 {
            lemma_printable_one(d);
            assert(false);
        }
        lemma_reduced(n - 1, d);
        let g = gcd(n - 1, d);
        lemma_gcd_pos(n - 1, d);
        lemma_gcd_divides(n - 1, d);
        lemma_fundamental_div_mod(n - 1, g);
        lemma_fundamental_div_mod(d, g);
        let n2 = reduced_num(n - 1, d);
        let d2 = reduced_den(n - 1, d);
        assert(n2 == (n - 1) / g && d2 == d / g);
        assert(n - 1 == g * n2 && d == g * d2);
        assert(n2 >= 1) by (nonlinear_arith)
            requires
                n - 1 >= 1,
                g >= 1,
                n - 1 == g * n2,
        ;
        lemma_pow2_divisor(d, g);
        assert(is_pow2(d2));
        assert(gcd(n2, d2) == 1) by {
            assert(abs(n2) == n2);
        }
        lemma_shorter_props(n2, d2);
        let (m, e) = shorter_from(n2, d2);
        assert(shorter_from(n, d) == (m, e));
        // e divides d2, and d2 divides d.
        assert(d % d2 == 0) by {
            vstd::arithmetic::div_mod::lemma_mod_multiples_basic(g, d2);
            assert(d == g * d2);
            assert(d2 * g == g * d2) by (nonlinear_arith);
        }
        lemma_divides_trans(d, d2, e);
        // m/e <= n2/d2 == (n-1)/d < n/d.
        assert(m * d <= (n - 1) * e && (n - 1) * e < n * e) by (nonlinear_arith)
            requires
                m * d2 <= n2 * e,
                n2 * d == (n - 1) * d2,
                d == g * d2,
                g >= 1,
                d2 >= 1,
                e >= 1,
                m >= 1,
                n2 >= 1,
                n >= 2,
        ;
    }
}

/// What the upward greedy step guarantees: starting from a positive reduced
/// fraction with a power-of-two denominator and value below sixteen, it
/// reaches a printable fraction that is no smaller in value, stays below
/// sixteen, is still reduced, and whose denominator divides the starting one.
proof fn lemma_greater_props(n: int, d: int)
    requires
        n >= 1,
        n < 16 * d,
        is_pow2(d),
        gcd(n, d) == 1,
    ensures
        ({
            let (m, e) = greater_from(n, d);
            &&& printable_pair(m, e)
            &&& m >= 1
            &&& e >= 1
            &&& gcd(m, e) == 1
            &&& d % e == 0
            &&& m * d >= n * e
        }),
    decreases 16 * d - n,
{
    lemma_pow2_ge1(d);
    if printable_pair(n, d) {
        vstd::arithmetic::div_mod::lemma_mod_self_0(d);
    } else {
        if n + 1 == 16 * d {
            lemma_all_ones_16d(d);
            assert(all_ones(n));
            assert(dottable(n)) by {
                assert(n % 2 == 1) by {
                    assert(n == 2 * (8 * d) - 1);
                    vstd::arithmetic::div_mod::lemma_fundamental_div_mod_converse(
                        n,
                        2,
                        8 * d - 1,
                        1,
                    );
                }
            }
            assert(printable_pair(n, d));
            assert(false);
        }
        lemma_reduced(n + 1, d);
        let g = gcd(n + 1, d);
        lemma_gcd_pos(n + 1, d);
        lemma_gcd_divides(n + 1, d);
        lemma_fundamental_div_mod(n + 1, g);
        lemma_fundamental_div_mod(d, g);
        let n2 = reduced_num(n + 1, d);
        let d2 = reduced_den(n + 1, d);
        assert(n2 == (n + 1) / g && d2 == d / g);
        assert(n + 1 == g * n2 && d == g * d2);
        assert(n2 >= 1) by (nonlinear_arith)
            requires
                n + 1 >= 1,
                g >= 1,
                n + 1 == g * n2,
        ;
        assert(n2 < 16 * d2) by (nonlinear_arith)
            requires
                n + 1 < 16 * d,
                n + 1 == g * n2,
                d == g * d2,
                g >= 1,
        ;
        lemma_pow2_divisor(d, g);
        assert(gcd(n2, d2) == 1) by {
            assert(abs(n2) == n2);
        }
        assert(0 <= 16 * d2 - n2 && 16 * d2 - n2 < 16 * d - n) by (nonlinear_arith)
            requires
                g >= 1,
                n + 1 == g * n2,
                d == g * d2,
                n + 1 <= 16 * d,
        ;
        lemma_greater_props(n2, d2);
        let (m, e) = greater_from(n2, d2);
        assert(greater_from(n, d) == (m, e));
        assert(d % d2 == 0) by {
            vstd::arithmetic::div_mod::lemma_mod_multiples_basic(g, d2);
            assert(d == g * d2);
            assert(d2 * g == g * d2) by (nonlinear_arith);
        }
        lemma_divides_trans(d, d2, e);
        // m/e >= n2/d2 == (n+1)/d > n/d.
        assert(m * d >= (n + 1) * e && (n + 1) * e > n * e) by (nonlinear_arith)
            requires
                m * d2 >= n2 * e,
                n2 * d == (n + 1) * d2,
                d == g * d2,
                g >= 1,
                d2 >= 1,
                e >= 1,
                m >= 1,
                n2 >= 1,
                n >= 1,
        ;
    }
}

impl Duration {
    /// The nearest printable duration at or below this one, reached by
    /// stepping the numerator down one at a time.
    pub fn equal_or_shorter_printable_duration(self) -> (r: Self)
        requires
            self.wf(),
            self.num() >= 1,
            is_pow2(self.den()),
        ensures
            r.wf(),
            (r.num(), r.den()) == shorter_from(self.num(), self.den()),
            r.is_printable_spec(),
            self.den() % r.den() == 0,
            r.num() * self.den() <= self.num() * r.den(),
            !self.is_printable_spec() ==> r.num() * self.den() < self.num() * r.den(),
    {
        proof {
            assert(gcd(self.num(), self.den()) == 1) by {
                assert(abs(self.num()) == self.num());
            }
            lemma_shorter_props(self.num(), self.den());
        }
        let mut cur = self;
        while !cur.is_printable()
            invariant
                cur.wf(),
                cur.num() >= 1,
                is_pow2(cur.den()),
                shorter_from(cur.num(), cur.den()) == shorter_from(self.num(), self.den()),
            decreases cur.num(),
        {
            proof {
                assert(gcd(cur.num(), cur.den()) == 1) by {
                    assert(abs(cur.num()) == cur.num());
                }
                if cur.num() == 1 {
                    lemma_printable_one(cur.den());
                    assert(false);
                }
                lemma_reduced(cur.num() - 1, cur.den());
                let g = gcd(cur.num() - 1, cur.den());
                lemma_gcd_pos(cur.num() - 1, cur.den());
                lemma_gcd_divides(cur.num() - 1, cur.den());
                lemma_fundamental_div_mod(cur.num() - 1, g);
                lemma_fundamental_div_mod(cur.den(), g);
                let n2 = reduced_num(cur.num() - 1, cur.den());
                let d2 = reduced_den(cur.num() - 1, cur.den());
                assert(cur.num() - 1 == g * n2 && cur.den() == g * d2);
                assert(n2 >= 1) by (nonlinear_arith)
                    requires
                        cur.num() - 1 >= 1,
                        g >= 1,
                        cur.num() - 1 == g * n2,
                ;
                lemma_pow2_divisor(cur.den(), g);
            }
            cur = Duration::new(cur.numerator - 1, cur.denominator);
        }
        cur
    }

    /// The nearest printable duration at or above this one, reached by
    /// stepping the numerator up one at a time.
    pub fn equal_or_greater_printable_duration(self) -> (r: Self)
        requires
            self.wf(),
            self.num() >= 1,
            self.num() < 16 * self.den(),
            is_pow2(self.den()),
        ensures
            r.wf(),
            (r.num(), r.den()) == greater_from(self.num(), self.den()),
            r.is_printable_spec(),
            self.den() % r.den() == 0,
            r.num() * self.den() >= self.num() * r.den(),
    {
        proof {
            assert(gcd(self.num(), self.den()) == 1) by {
                assert(abs(self.num()) == self.num());
            }
            lemma_greater_props(self.num(), self.den());
        }
        let mut cur = self;
        while !cur.is_printable()
            invariant
                cur.wf(),
                cur.num() >= 1,
                cur.num() < 16 * cur.den(),
                is_pow2(cur.den()),
                greater_from(cur.num(), cur.den()) == greater_from(self.num(), self.den()),
            decreases 16 * cur.den() - cur.num(),
        {
            proof {
                assert(gcd(cur.num(), cur.den()) == 1) by {
                    assert(abs(cur.num()) == cur.num());
                }
                if cur.num() + 1 == 16 * cur.den() {
                    lemma_all_ones_16d(cur.den());
                    assert(cur.num() == 2 * (8 * cur.den()) - 1);
                    vstd::arithmetic::div_mod::lemma_fundamental_div_mod_converse(
                        cur.num(),
                        2,
                        8 * cur.den() - 1,
                        1,
                    );
                    assert(cur.num() % 2 == 1);
                    assert(dottable(cur.num()));
                    assert(false);
                }
                lemma_reduced(cur.num() + 1, cur.den());
                let g = gcd(cur.num() + 1, cur.den());
                lemma_gcd_pos(cur.num() + 1, cur.den());
                lemma_gcd_divides(cur.num() + 1, cur.den());
                lemma_fundamental_div_mod(cur.num() + 1, g);
                lemma_fundamental_div_mod(cur.den(), g);
                let n2 = reduced_num(cur.num() + 1, cur.den());
                let d2 = reduced_den(cur.num() + 1, cur.den());
                assert(cur.num() + 1 == g * n2 && cur.den() == g * d2);
                assert(n2 >= 1) by (nonlinear_arith)
                    requires
                        cur.num() + 1 >= 1,
                        g >= 1,
                        cur.num() + 1 == g * n2,
                ;
                assert(n2 < 16 * d2) by (nonlinear_arith)
                    requires
                        cur.num() + 1 < 16 * cur.den(),
                        cur.num() + 1 == g * n2,
                        cur.den() == g * d2,
                        g >= 1,
                ;
                assert(0 <= 16 * d2 - n2 && 16 * d2 - n2 < 16 * cur.den() - cur.num()) by (nonlinear_arith)
                    requires
                        g >= 1,
                        cur.num() + 1 == g * n2,
                        cur.den() == g * d2,
                        cur.num() + 1 <= 16 * cur.den(),
                ;
                lemma_pow2_divisor(cur.den(), g);
                if cur.numerator == i32::MAX {
                    lemma_all_ones_i32_max();
                    assert(dottable(cur.num()));
                    assert(false);
                }
            }
            cur = Duration::new(cur.numerator + 1, cur.denominator);
        }
        cur
    }
}

} // verus!

verus! {

/// A block of ones stays a block of ones when a one is appended below.
proof fn lemma_all_ones_double(n: int)
    requires
        all_ones(n),
    ensures
        all_ones(2 * n + 1),
{
    vstd::arithmetic::div_mod::lemma_fundamental_div_mod_converse(2 * n + 1, 2, n, 1);
    assert((2 * n + 1) % 2 == 1 && (2 * n + 1) / 2 == n);
}

/// The largest `i32`, being 31 ones in binary, is a block of ones.
proof fn lemma_all_ones_i32_max()
    ensures
        all_ones(i32::MAX as int),
{
    assert(all_ones(1));
    lemma_all_ones_double(1);
    lemma_all_ones_double(3);
    lemma_all_ones_double(7);
    lemma_all_ones_double(15);
    lemma_all_ones_double(31);
    lemma_all_ones_double(63);
    lemma_all_ones_double(127);
    lemma_all_ones_double(255);
    lemma_all_ones_double(511);
    lemma_all_ones_double(1023);
    lemma_all_ones_double(2047);
    lemma_all_ones_double(4095);
    lemma_all_ones_double(8191);
    lemma_all_ones_double(16383);
    lemma_all_ones_double(32767);
    lemma_all_ones_double(65535);
    lemma_all_ones_double(131071);
    lemma_all_ones_double(262143);
    lemma_all_ones_double(524287);
    lemma_all_ones_double(1048575);
    lemma_all_ones_double(2097151);
    lemma_all_ones_double(4194303);
    lemma_all_ones_double(8388607);
    lemma_all_ones_double(16777215);
    lemma_all_ones_double(33554431);
    lemma_all_ones_double(67108863);
    lemma_all_ones_double(134217727);
    lemma_all_ones_double(268435455);
    lemma_all_ones_double(536870911);
    lemma_all_ones_double(1073741823);
}

} // verus!

verus! {

/// The sum of a sequence of durations, expressed against the common
/// denominator `cd`: each summand contributes `num * (cd / den)`.
pub open spec fn scaled_sum(s: Seq<Duration>, cd: int) -> int
    decreases s.len(),
{
    if s.len() == 0 {
        0
    } else {
        scaled_sum(s.drop_last(), cd) + s.last().num() * (cd / s.last().den())
    }
}

/// Two equal fractions contribute equally when scaled to a common
/// denominator that both denominators divide.
proof fn lemma_scaled_of_value_eq(n1: int, d1: int, n2: int, d2: int, cd: int)
    requires
        n1 * d2 == n2 * d1,
        d1 >= 1,
        d2 >= 1,
        cd >= 1,
        cd % d1 == 0,
        cd % d2 == 0,
    ensures
        n1 * (cd / d1) == n2 * (cd / d2),
{
    lemma_fundamental_div_mod(cd, d1);
    lemma_fundamental_div_mod(cd, d2);
    let q1 = cd / d1;
    let q2 = cd / d2;
    assert(n1 * q1 == n2 * q2) by (nonlinear_arith)
        requires
            cd == d1 * q1,
            cd == d2 * q2,
            n1 * d2 == n2 * d1,
            d1 >= 1,
            d2 >= 1,
    ;
}

impl Duration {
    /// The difference `self - other`, where `other` is a positive duration
    /// smaller than `self` whose denominator divides `self`'s: the result
    /// needs no widening and stays on a denominator dividing `self`'s.
    fn sub_exact(self, other: Self) -> (r: Self)
        requires
            self.wf(),
            other.wf(),
            self.num() >= 1,
            other.num() >= 1,
            is_pow2(self.den()),
            self.den() % other.den() == 0,
            other.num() * self.den() < self.num() * other.den(),
        ensures
            r.wf(),
            1 <= r.num() < self.num(),
            is_pow2(r.den()),
            self.den() % r.den() == 0,
            r.num() * self.den() == (self.num() - other.num() * (self.den() / other.den()))
                * r.den(),
            r.num() == reduced_num(
                self.num() - other.num() * (self.den() / other.den()),
                self.den(),
            ),
            r.den() == reduced_den(
                self.num() - other.num() * (self.den() / other.den()),
                self.den(),
            ),
    {
        proof {
            lemma_fundamental_div_mod(self.den(), other.den());
        }
        let k: i32 = self.denominator / other.denominator;
        proof {
            assert(k as int == self.den() / other.den());
            assert(k >= 1) by (nonlinear_arith)
                requires
                    self.den() == other.den() * (k as int),
                    self.den() >= 1,
                    other.den() >= 1,
            ;
            lemma_prod_fits_i64(other.num(), k as int);
            // other.num * k < self.num, because other.num * k * other.den
            // == other.num * self.den < self.num * other.den.
            assert(other.num() * (k as int) < self.num()) by (nonlinear_arith)
                requires
                    self.den() == other.den() * (k as int),
                    other.num() * self.den() < self.num() * other.den(),
                    other.den() >= 1,
                    other.num() >= 1,
                    k as int >= 1,
            ;
        }
        let mk: i64 = (other.numerator as i64) * (k as i64);
        let n2: i32 = self.numerator - (mk as i32);
        proof {
            assert(n2 as int == self.num() - other.num() * (self.den() / other.den()));
            assert(n2 >= 1) by (nonlinear_arith)
                requires
                    other.num() * self.den() < self.num() * other.den(),
                    self.den() == other.den() * (k as int),
                    n2 as int == self.num() - other.num() * (k as int),
                    other.den() >= 1,
                    k as int >= 1,
                    other.num() >= 1,
                    self.num() >= 1,
            ;
            // Facts about the reduced difference.
            lemma_reduced(n2 as int, self.den());
            let g = gcd(n2 as int, self.den());
            lemma_gcd_pos(n2 as int, self.den());
            lemma_gcd_divides(n2 as int, self.den());
            lemma_fundamental_div_mod(n2 as int, g);
            lemma_fundamental_div_mod(self.den(), g);
            let rn = reduced_num(n2 as int, self.den());
            let rd = reduced_den(n2 as int, self.den());
            assert(n2 as int == g * rn && self.den() == g * rd);
            assert(rn >= 1) by (nonlinear_arith)
                requires
                    n2 as int >= 1,
                    g >= 1,
                    n2 as int == g * rn,
            ;
            lemma_pow2_divisor(self.den(), g);
            assert(self.den() % rd == 0) by {
                vstd::arithmetic::div_mod::lemma_mod_multiples_basic(g, rd);
                assert(rd * g == g * rd) by (nonlinear_arith);
            }
            assert(other.num() * (k as int) >= 1) by (nonlinear_arith)
                requires
                    other.num() >= 1,
                    k as int >= 1,
            ;
            assert(rn <= n2 as int) by {
                assert(abs(rn) == rn);
                assert(abs(n2 as int) == n2 as int);
            }
            assert(rn < self.num());
        }
        Duration::new(n2, self.denominator)
    }

    /// Splits the duration into a sequence of printable durations that sum
    /// back to it, greedily taking the largest printable piece each time.
    /// A printable duration is returned alone; a negative one yields the
    /// empty sequence.
    pub fn to_printable_duration_list(self) -> (r: Vec<Self>)
        requires
            self.wf(),
            self.is_printable_spec() || self.num() < 0 || (self.num() >= 1 && is_pow2(
                self.den(),
            )),
        ensures
            self.is_printable_spec() ==> r@ =~= seq![self],
            self.num() < 0 ==> r@ =~= Seq::<Duration>::empty(),
            self.num() >= 0 ==> {
                &&& forall|i: int|
                    0 <= i < r@.len() ==> (#[trigger] r@[i]).wf() && r@[i].is_printable_spec()
                        && self.den() % r@[i].den() == 0
                &&& scaled_sum(r@, self.den()) == self.num()
                &&& pairs_of(r@) == decomposition_pairs(self.num(), self.den())
            },
    {
        if self.is_printable() {
            let mut v: Vec<Duration> = Vec::new();
            v.push(self);
            proof {
                assert(v@ =~= seq![self]);
                vstd::arithmetic::div_mod::lemma_div_by_self(self.den());
                vstd::arithmetic::div_mod::lemma_mod_self_0(self.den());
                assert(v@.len() == 1);
                assert(v@.last() == self);
                assert(v@.drop_last() =~= Seq::<Duration>::empty());
                assert(abs(self.num()) == self.num());
                assert(pairs_of(v@.drop_last()) =~= Seq::<(int, int)>::empty());
                assert(pairs_of(v@) =~= seq![(self.num(), self.den())]);
                assert(decomposition_pairs(self.num(), self.den()) =~= seq![
                    (self.num(), self.den()),
                ]);
                assert(scaled_sum(v@.drop_last(), self.den()) == 0);
                assert(self.den() / self.den() == 1);
                assert(scaled_sum(v@, self.den()) == scaled_sum(v@.drop_last(), self.den())
                    + v@.last().num() * (self.den() / v@.last().den()));
                assert(scaled_sum(v@, self.den()) == self.num());
            }
            v
        } else if self.numerator < 0 {
            Vec::new()
        } else {
            let ghost cd = self.den();
            let mut result: Vec<Duration> = Vec::new();
            let mut cur = self;
            proof {
                vstd::arithmetic::div_mod::lemma_mod_self_0(cd);
                vstd::arithmetic::div_mod::lemma_div_by_self(cd);
                assert(pairs_of(result@) =~= Seq::<(int, int)>::empty());
            }
            while !cur.is_printable()
                invariant
                    self.wf(),
                    cd == self.den(),
                    cd >= 1,
                    cur.wf(),
                    cur.num() >= 1,
                    is_pow2(cur.den()),
                    cd % cur.den() == 0,
                    forall|i: int|
                        0 <= i < result@.len() ==> (#[trigger] result@[i]).wf()
                            && result@[i].is_printable_spec() && cd % result@[i].den() == 0,
                    scaled_sum(result@, cd) + cur.num() * (cd / cur.den()) == self.num(),
                    pairs_of(result@) + decomposition_pairs(cur.num(), cur.den())
                        =~= decomposition_pairs(self.num(), self.den()),
                decreases cur.num(),
            {
                let ghost pre_pairs = pairs_of(result@) + decomposition_pairs(
                    cur.num(),
                    cur.den(),
                );
                let first = cur.equal_or_shorter_printable_duration();
                proof {
                    lemma_divides_trans(cd, cur.den(), first.den());
                }
                let ghost pre = result@;
                result.push(first);
                let next = cur.sub_exact(first);
                proof {
                    lemma_divides_trans(cd, cur.den(), next.den());
                    assert(result@.drop_last() =~= pre);
                    assert(result@.last() == first);
                    // The greedy spec takes exactly this first piece and
                    // continues on exactly this remainder.
                    assert(abs(cur.num()) == cur.num());
                    assert(decomposition_pairs(cur.num(), cur.den()) == seq![
                        (first.num(), first.den()),
                    ] + decomposition_pairs(next.num(), next.den()));
                    assert(pairs_of(result@) =~= pairs_of(pre).push((first.num(), first.den())));
                    assert(pairs_of(result@) + decomposition_pairs(next.num(), next.den()) =~= (
                    pairs_of(pre) + decomposition_pairs(cur.num(), cur.den())));
                }
                proof {
                    let k = cur.den() / first.den();
                    // cd / first.den() == k * (cd / cur.den())
                    lemma_fundamental_div_mod(cur.den(), first.den());
                    lemma_fundamental_div_mod(cd, cur.den());
                    assert(cd == first.den() * (k * (cd / cur.den()))) by (nonlinear_arith)
                        requires
                            cur.den() == first.den() * k,
                            cd == cur.den() * (cd / cur.den()),
                    ;
                    lemma_fundamental_div_mod_converse(
                        cd,
                        first.den(),
                        k * (cd / cur.den()),
                        0,
                    );
                    assert(cd / first.den() == k * (cd / cur.den()));
                    // next scaled equals (cur.num - first.num * k) scaled at cur.den.
                    lemma_scaled_of_value_eq(
                        next.num(),
                        next.den(),
                        cur.num() - first.num() * k,
                        cur.den(),
                        cd,
                    );
                    assert(first.num() * (cd / first.den()) + next.num() * (cd / next.den())
                        == cur.num() * (cd / cur.den())) by (nonlinear_arith)
                        requires
                            cd / first.den() == k * (cd / cur.den()),
                            next.num() * (cd / next.den()) == (cur.num() - first.num() * k) * (cd
                                / cur.den()),
                    ;
                }
                cur = next;
            }
            let ghost fin = result@;
            result.push(cur);
            proof {
                assert(result@.drop_last() =~= fin);
                assert(result@.last() == cur);
                assert(scaled_sum(result@, cd) == scaled_sum(fin, cd) + cur.num() * (cd
                    / cur.den()));
                assert(abs(cur.num()) == cur.num());
                assert(decomposition_pairs(cur.num(), cur.den()) =~= seq![
                    (cur.num(), cur.den()),
                ]);
                assert(pairs_of(result@) =~= pairs_of(fin).push((cur.num(), cur.den())));
                assert(pairs_of(result@) =~= decomposition_pairs(self.num(), self.den()));
            }
            result
        }
    }
}

} // verus!

verus! {

/// Two numbers that divide each other are equal.
proof fn lemma_mutual_divisors_equal(x: int, y: int)
    requires
        x >= 1,
        y >= 1,
        x % y == 0,
        y % x == 0,
    ensures
        x == y,
{
    lemma_fundamental_div_mod(x, y);
    lemma_fundamental_div_mod(y, x);
    assert(x == y) by (nonlinear_arith)
        requires
            x == y * (x / y),
            y == x * (y / x),
            x >= 1,
            y >= 1,
    ;
}

/// A fraction in reduced form is unique: two well-formed durations that
/// stand for the same rational number have the same numerator and the same
/// denominator. Together with the contract of `Duration::new`, every
/// rational number has exactly one representation here.
pub proof fn lemma_reduced_form_unique(a: Duration, b: Duration)
    requires
        a.wf(),
        b.wf(),
        a.num() * b.den() == b.num() * a.den(),
    ensures
        a.numerator == b.numerator,
        a.denominator == b.denominator,
{
    let an = abs(a.num()) as int;
    let bn = abs(b.num()) as int;
    let ad = a.den();
    let bd = b.den();
    // The signs agree, so the absolute values satisfy the same equation.
    assert(an * bd == bn * ad) by (nonlinear_arith)
        requires
            a.num() * bd == b.num() * ad,
            ad >= 1,
            bd >= 1,
            an == abs(a.num()),
            bn == abs(b.num()),
    ;
    // Each denominator divides the other.
    crate::gcd::lemma_gcd_comm(an, ad);
    crate::gcd::lemma_gcd_comm(bn, bd);
    vstd::arithmetic::div_mod::lemma_mod_multiples_basic(bn, ad);
    assert((an * bd) % ad == 0) by {
        assert(an * bd == bn * ad);
    }
    crate::gcd::lemma_coprime_divides(ad, an, bd);
    vstd::arithmetic::div_mod::lemma_mod_multiples_basic(an, bd);
    assert((bn * ad) % bd == 0) by {
        assert(bn * ad == an * bd);
    }
    crate::gcd::lemma_coprime_divides(bd, bn, ad);
    lemma_mutual_divisors_equal(ad, bd);
    // Equal denominators cancel, leaving equal numerators.
    assert(a.num() == b.num()) by (nonlinear_arith)
        requires
            a.num() * bd == b.num() * ad,
            ad == bd,
            ad >= 1,
    ;
}

} // verus!

verus! {

/// One step of resum: a sum result, recast over the full triple denominator.
proof fn lemma_sum_over_triple(
    xn: int, xd: int, yn: int, yd: int, sn: int, sd: int, zn: int, zd: int, tn: int, td: int,
)
    requires
        xd >= 1, yd >= 1, sd >= 1, zd >= 1, td >= 1,
        // s is the reduced sum of x and y:
        sn * (xd * yd) == (xn * yd + yn * xd) * sd,
        // t is the reduced sum of s and z:
        tn * (sd * zd) == (sn * zd + zn * sd) * td,
    ensures
        tn * (xd * yd * zd) == (xn * yd * zd + yn * xd * zd + zn * xd * yd) * td,
{
    assert(tn * (sd * zd) * (xd * yd) == (sn * zd + zn * sd) * td * (xd * yd)) by (nonlinear_arith)
        requires
            tn * (sd * zd) == (sn * zd + zn * sd) * td,
    ;
    assert((sn * zd + zn * sd) * td * (xd * yd) == (sn * (xd * yd)) * zd * td + zn * sd * td * (xd
        * yd)) by (nonlinear_arith);
    assert((sn * (xd * yd)) * zd * td == ((xn * yd + yn * xd) * sd) * zd * td) by (nonlinear_arith)
        requires
            sn * (xd * yd) == (xn * yd + yn * xd) * sd,
    ;
    assert(tn * (sd * zd) * (xd * yd) == tn * (xd * yd * zd) * sd) by (nonlinear_arith);
    let u = sd * zd * td;
    assert(((xn * yd + yn * xd) * sd) * zd * td == (xn * yd) * u + (yn * xd) * u)
        by (nonlinear_arith)
        requires
            u == sd * zd * td,
    ;
    assert((xn * yd) * u == (xn * yd * zd) * td * sd) by (nonlinear_arith)
        requires
            u == sd * zd * td,
    ;
    assert((yn * xd) * u == (yn * xd * zd) * td * sd) by (nonlinear_arith)
        requires
            u == sd * zd * td,
    ;
    assert(zn * sd * td * (xd * yd) == (zn * xd * yd) * td * sd) by (nonlinear_arith);
    assert((xn * yd * zd) * td * sd + (yn * xd * zd) * td * sd + (zn * xd * yd) * td * sd == (xn
        * yd * zd + yn * xd * zd + zn * xd * yd) * td * sd) by (nonlinear_arith);
    assert(tn * (xd * yd * zd) * sd == (xn * yd * zd + yn * xd * zd + zn * xd * yd) * td * sd);
    assert(tn * (xd * yd * zd) == (xn * yd * zd + yn * xd * zd + zn * xd * yd) * td)
        by (nonlinear_arith)
        requires
            tn * (xd * yd * zd) * sd == (xn * yd * zd + yn * xd * zd + zn * xd * yd) * td * sd,
            sd >= 1,
    ;
}

} // verus!

verus! {

/// Adding durations is associative, exactly: summing `a + b` first and
/// summing `b + c` first end, after reduction, in the very same duration.
/// The four hypotheses are the contracts `Duration::add` gives for the two
/// inner and the two outer sums.
pub proof fn lemma_add_associative(
    a: Duration,
    b: Duration,
    c: Duration,
    ab: Duration,
    ab_c: Duration,
    bc: Duration,
    a_bc: Duration,
)
    requires
        a.wf(),
        b.wf(),
        c.wf(),
        ab.wf(),
        ab_c.wf(),
        bc.wf(),
        a_bc.wf(),
        ab.num() * (a.den() * b.den()) == (a.num() * b.den() + b.num() * a.den()) * ab.den(),
        ab_c.num() * (ab.den() * c.den()) == (ab.num() * c.den() + c.num() * ab.den())
            * ab_c.den(),
        bc.num() * (b.den() * c.den()) == (b.num() * c.den() + c.num() * b.den()) * bc.den(),
        a_bc.num() * (a.den() * bc.den()) == (a.num() * bc.den() + bc.num() * a.den())
            * a_bc.den(),
    ensures
        ab_c.numerator == a_bc.numerator,
        ab_c.denominator == a_bc.denominator,
{
    let an = a.num();
    let ad = a.den();
    let bn = b.num();
    let bd = b.den();
    let cn = c.num();
    let cd = c.den();
    let s3 = an * bd * cd + bn * ad * cd + cn * ad * bd;
    lemma_sum_over_triple(
        an,
        ad,
        bn,
        bd,
        ab.num(),
        ab.den(),
        cn,
        cd,
        ab_c.num(),
        ab_c.den(),
    );
    assert(ab_c.num() * (ad * bd * cd) == s3 * ab_c.den());
    // Read the other association as the sum of (b + c) and a.
    assert(a_bc.num() * (bc.den() * ad) == (bc.num() * ad + an * bc.den()) * a_bc.den())
        by (nonlinear_arith)
        requires
            a_bc.num() * (ad * bc.den()) == (an * bc.den() + bc.num() * ad) * a_bc.den(),
    ;
    lemma_sum_over_triple(
        bn,
        bd,
        cn,
        cd,
        bc.num(),
        bc.den(),
        an,
        ad,
        a_bc.num(),
        a_bc.den(),
    );
    assert(a_bc.num() * (bd * cd * ad) == (bn * cd * ad + cn * bd * ad + an * bd * cd)
        * a_bc.den());
    assert(a_bc.num() * (ad * bd * cd) == s3 * a_bc.den()) by (nonlinear_arith)
        requires
            a_bc.num() * (bd * cd * ad) == (bn * cd * ad + cn * bd * ad + an * bd * cd)
                * a_bc.den(),
            s3 == an * bd * cd + bn * ad * cd + cn * ad * bd,
    ;
    // Both associations stand for the same rational, so they are one value.
    let t = ad * bd * cd;
    assert(t >= 1) by (nonlinear_arith)
        requires
            t == ad * bd * cd,
            ad >= 1,
            bd >= 1,
            cd >= 1,
    ;
    assert(ab_c.num() * a_bc.den() == a_bc.num() * ab_c.den()) by (nonlinear_arith)
        requires
            ab_c.num() * t == s3 * ab_c.den(),
            a_bc.num() * t == s3 * a_bc.den(),
            t >= 1,
    ;
    lemma_reduced_form_unique(ab_c, a_bc);
}

} // verus!

verus! {

/// Adding durations is commutative, exactly: `a + b` and `b + a` reduce to
/// the very same duration. The hypotheses are the contracts `Duration::add`
/// gives for the two sums.
pub proof fn lemma_add_commutative(a: Duration, b: Duration, ab: Duration, ba: Duration)
    requires
        a.wf(),
        b.wf(),
        ab.wf(),
        ba.wf(),
        ab.num() * (a.den() * b.den()) == (a.num() * b.den() + b.num() * a.den()) * ab.den(),
        ba.num() * (b.den() * a.den()) == (b.num() * a.den() + a.num() * b.den()) * ba.den(),
    ensures
        ab.numerator == ba.numerator,
        ab.denominator == ba.denominator,
{
    let t = a.den() * b.den();
    let s = a.num() * b.den() + b.num() * a.den();
    assert(t >= 1) by (nonlinear_arith)
        requires
            t == a.den() * b.den(),
            a.den() >= 1,
            b.den() >= 1,
    ;
    assert(ba.num() * t == s * ba.den()) by (nonlinear_arith)
        requires
            ba.num() * (b.den() * a.den()) == (b.num() * a.den() + a.num() * b.den()) * ba.den(),
            t == a.den() * b.den(),
            s == a.num() * b.den() + b.num() * a.den(),
    ;
    assert(ab.num() * ba.den() == ba.num() * ab.den()) by (nonlinear_arith)
        requires
            ab.num() * t == s * ab.den(),
            ba.num() * t == s * ba.den(),
            t >= 1,
    ;
    lemma_reduced_form_unique(ab, ba);
}

} // verus!

verus! {

/// The greedy decomposition itself, as a function: the largest printable
/// piece at or below the value, then the decomposition of the remainder.
/// Outside its domain (a positive reduced fraction over a power of two)
/// it is the empty sequence.
pub open spec fn decomposition_pairs(n: int, d: int) -> Seq<(int, int)>
    decreases n via decomposition_pairs_decreases
{
    if !(n >= 1 && d >= 1 && is_pow2(d) && gcd(n, d) == 1) {
        Seq::empty()
    } else if printable_pair(n, d) {
        seq![(n, d)]
    } else {
        let (m, e) = shorter_from(n, d);
        let rem = n - m * (d / e);
        seq![(m, e)] + decomposition_pairs(reduced_num(rem, d), reduced_den(rem, d))
    }
}

#[via_fn]
proof fn decomposition_pairs_decreases(n: int, d: int) {
    if n >= 1 && d >= 1 && is_pow2(d) && gcd(n, d) == 1 && !printable_pair(n, d) {
        lemma_shorter_props(n, d);
        let (m, e) = shorter_from(n, d);
        let k = d / e;
        lemma_fundamental_div_mod(d, e);
        assert(d == e * k);
        let rem = n - m * k;
        assert(1 <= m * k && m * k < n) by (nonlinear_arith)
            requires
                m * d < n * e,
                d == e * k,
                m >= 1,
                e >= 1,
                k >= 0,
                d >= 1,
        ;
        lemma_reduced(rem, d);
        lemma_gcd_pos(rem, d);
        lemma_div_pos_is_pos(rem, gcd(rem, d));
        assert(0 <= reduced_num(rem, d));
        assert(reduced_num(rem, d) <= rem);
    }
}

/// The pairs (numerator, denominator) of a row of durations, in order.
pub open spec fn pairs_of(s: Seq<Duration>) -> Seq<(int, int)>
    decreases s.len(),
{
    if s.len() == 0 {
        Seq::empty()
    } else {
        pairs_of(s.drop_last()).push((s.last().num(), s.last().den()))
    }
}

} // verus!
