//! Tuplet ratios: fractions that keep their exact numerator and denominator
//! (no reduction — a `\tuplet 6/4` is engraved differently from a
//! `\tuplet 3/2`, so the written pair must survive), with the sign always
//! carried by the numerator.

use vstd::prelude::*;

verus! {

/// A fraction used as a tuplet time multiplier. Unlike `Duration` it is
/// never reduced; only the sign is normalized onto the numerator.
#[derive(Clone, Copy, Debug, PartialEq, Eq, Structural)]
pub struct Multiplier {
    pub numerator: i32,
    pub denominator: i32,
}

/// The numerator of `n / d` after moving the sign onto the numerator.
pub open spec fn signed_num(n: int, d: int) -> int {
    if d < 0 {
        -n
    } else {
        n
    }
}

/// The denominator of `n / d` after moving the sign onto the numerator.
pub open spec fn signed_den(n: int, d: int) -> int {
    if d < 0 {
        -d
    } else {
        d
    }
}

impl Multiplier {
    /// The numerator, as a mathematical integer.
    pub open spec fn num(self) -> int {
        self.numerator as int
    }

    /// The denominator, as a mathematical integer.
    pub open spec fn den(self) -> int {
        self.denominator as int
    }

    /// Both fields stay negatable.
    pub open spec fn wf(self) -> bool {
        &&& self.num() > i32::MIN as int
        &&& self.den() >= 0
    }

    /// Builds `numerator / denominator` with the sign on the numerator.
    pub fn new(numerator: i32, denominator: i32) -> (r: Self)
        requires
            numerator > i32::MIN,
            denominator > i32::MIN,
        ensures
            r.wf(),
            r.num() == signed_num(numerator as int, denominator as int),
            r.den() == signed_den(numerator as int, denominator as int),
    {
        if denominator < 0 {
            Self { numerator: -numerator, denominator: -denominator }
        } else {
            Self { numerator, denominator }
        }
    }

    /// The pair (numerator, denominator).
    pub fn to_pair(&self) -> (r: (i32, i32))
        ensures
            r.0 == self.num(),
            r.1 == self.den(),
    {
        (self.numerator, self.denominator)
    }

    /// The multiplier with both fields made nonnegative.
    pub fn abs(&self) -> (r: Self)
        requires
            self.wf(),
        ensures
            r.wf(),
            r.num() == vstd::math::abs(self.num()),
            r.den() == self.den(),
    {
        let n: i32 = if self.numerator < 0 {
            -self.numerator
        } else {
            self.numerator
        };
        Self { numerator: n, denominator: self.denominator }
    }

    /// The negated multiplier.
    pub fn neg(self) -> (r: Self)
        requires
            self.wf(),
        ensures
            r.wf(),
            r.num() == -self.num(),
            r.den() == self.den(),
    {
        Self { numerator: -self.numerator, denominator: self.denominator }
    }

    /// The sum `self + rhs`, over the product denominator.
    pub fn add(self, rhs: Self) -> (r: Self)
        requires
            self.wf(),
            rhs.wf(),
            -i32::MAX <= self.num() * rhs.den() + rhs.num() * self.den() <= i32::MAX,
            self.den() * rhs.den() <= i32::MAX,
        ensures
            r.wf(),
            r.num() == self.num() * rhs.den() + rhs.num() * self.den(),
            r.den() == self.den() * rhs.den(),
    {
        proof {
            lemma_mult_fits(self.num(), rhs.den());
            lemma_mult_fits(rhs.num(), self.den());
            lemma_mult_fits(self.den(), rhs.den());
            assert(self.den() * rhs.den() >= 0) by (nonlinear_arith)
                requires
                    self.den() >= 0,
                    rhs.den() >= 0,
            ;
        }
        let n: i64 = (self.numerator as i64) * (rhs.denominator as i64) + (rhs.numerator as i64)
            * (self.denominator as i64);
        let d: i64 = (self.denominator as i64) * (rhs.denominator as i64);
        Self { numerator: n as i32, denominator: d as i32 }
    }

    /// The difference `self - rhs`, over the product denominator.
    pub fn sub(self, rhs: Self) -> (r: Self)
        requires
            self.wf(),
            rhs.wf(),
            -i32::MAX <= self.num() * rhs.den() - rhs.num() * self.den() <= i32::MAX,
            self.den() * rhs.den() <= i32::MAX,
        ensures
            r.wf(),
            r.num() == self.num() * rhs.den() - rhs.num() * self.den(),
            r.den() == self.den() * rhs.den(),
    {
        proof {
            lemma_mult_fits(self.num(), rhs.den());
            lemma_mult_fits(rhs.num(), self.den());
            lemma_mult_fits(self.den(), rhs.den());
            assert(self.den() * rhs.den() >= 0) by (nonlinear_arith)
                requires
                    self.den() >= 0,
                    rhs.den() >= 0,
            ;
        }
        let n: i64 = (self.numerator as i64) * (rhs.denominator as i64) - (rhs.numerator as i64)
            * (self.denominator as i64);
        let d: i64 = (self.denominator as i64) * (rhs.denominator as i64);
        Self { numerator: n as i32, denominator: d as i32 }
    }

    /// The product `self * rhs`.
    pub fn mul(self, rhs: Self) -> (r: Self)
        requires
            self.wf(),
            rhs.wf(),
            -i32::MAX <= self.num() * rhs.num() <= i32::MAX,
            self.den() * rhs.den() <= i32::MAX,
        ensures
            r.wf(),
            r.num() == self.num() * rhs.num(),
            r.den() == self.den() * rhs.den(),
    {
        proof {
            lemma_mult_fits(self.num(), rhs.num());
            lemma_mult_fits(self.den(), rhs.den());
            assert(self.den() * rhs.den() >= 0) by (nonlinear_arith)
                requires
                    self.den() >= 0,
                    rhs.den() >= 0,
            ;
        }
        let n: i64 = (self.numerator as i64) * (rhs.numerator as i64);
        let d: i64 = (self.denominator as i64) * (rhs.denominator as i64);
        Self { numerator: n as i32, denominator: d as i32 }
    }

    /// The multiplier scaled by an integer factor.
    pub fn mul_int(self, rhs: i32) -> (r: Self)
        requires
            self.wf(),
            -i32::MAX <= self.num() * rhs <= i32::MAX,
        ensures
            r.wf(),
            r.num() == self.num() * rhs,
            r.den() == self.den(),
    {
        proof {
            lemma_mult_fits(self.num(), rhs as int);
        }
        let n: i64 = (self.numerator as i64) * (rhs as i64);
        Self { numerator: n as i32, denominator: self.denominator }
    }

    /// The quotient `self / rhs`: numerators and denominators cross.
    pub fn div(self, rhs: Self) -> (r: Self)
        requires
            self.wf(),
            rhs.wf(),
            -i32::MAX <= self.num() * rhs.den() <= i32::MAX,
            -i32::MAX <= self.den() * rhs.num() <= i32::MAX,
        ensures
            r.wf(),
            r.num() == signed_num(self.num() * rhs.den(), self.den() * rhs.num()),
            r.den() == signed_den(self.num() * rhs.den(), self.den() * rhs.num()),
    {
        proof {
            lemma_mult_fits(self.num(), rhs.den());
            lemma_mult_fits(self.den(), rhs.num());
        }
        let n: i64 = (self.numerator as i64) * (rhs.denominator as i64);
        let d: i64 = (self.denominator as i64) * (rhs.numerator as i64);
        if d < 0 {
            Self { numerator: -(n as i32), denominator: -(d as i32) }
        } else {
            Self { numerator: n as i32, denominator: d as i32 }
        }
    }

    /// The multiplier divided by an integer: the divisor joins the denominator.
    pub fn div_int(self, rhs: i32) -> (r: Self)
        requires
            self.wf(),
            -i32::MAX <= self.den() * rhs <= i32::MAX,
        ensures
            r.wf(),
            r.num() == signed_num(self.num(), self.den() * rhs),
            r.den() == signed_den(self.num(), self.den() * rhs),
    {
        proof {
            lemma_mult_fits(self.den(), rhs as int);
        }
        let d: i64 = (self.denominator as i64) * (rhs as i64);
        if d < 0 {
            Self { numerator: -self.numerator, denominator: -(d as i32) }
        } else {
            Self { numerator: self.numerator, denominator: d as i32 }
        }
    }
}

/// Bound on the product of two values in `i32` range: it fits in `i64`.
proof fn lemma_mult_fits(a: int, b: int)
    requires
        -0x8000_0000 <= a <= 0x7fff_ffff,
        -0x8000_0000 <= b <= 0x7fff_ffff,
    ensures
        -0x4000_0000_0000_0000 <= a * b <= 0x4000_0000_0000_0000,
{
    assert(-0x4000_0000_0000_0000 <= a * b <= 0x4000_0000_0000_0000) by (nonlinear_arith)
        requires
            -0x8000_0000 <= a <= 0x7fff_ffff,
            -0x8000_0000 <= b <= 0x7fff_ffff,
    ;
}

} // verus!
