//! Greatest common divisors: the mathematical definition, the facts the
//! rational-number code needs, and the one executable entry point, which
//! defers to an outside arithmetic crate.

use vstd::arithmetic::div_mod::{
    lemma_add_mod_noop, lemma_fundamental_div_mod, lemma_mod_multiples_basic, lemma_mod_self_0,
    lemma_small_mod, lemma_truncate_middle,
};
use vstd::prelude::*;

verus! {

/// Euclid's greatest common divisor, as a specification.
/// Meaningful for `a >= 0, b >= 0`; the negative branches are never used.
pub open spec fn gcd(a: int, b: int) -> int
    decreases b,
{
    if b <= 0 {
        if b == 0 {
            a
        } else {
            0
        }
    } else {
        gcd(b, a % b)
    }
}

/// The gcd of two nonnegative numbers, not both zero, is positive.
pub proof fn lemma_gcd_pos(a: int, b: int)
    requires
        a >= 0,
        b >= 0,
        a > 0 || b > 0,
    ensures
        gcd(a, b) > 0,
    decreases b,
{
    if b > 0 {
        lemma_gcd_pos(b, a % b);
    }
}

/// The gcd of two nonnegative numbers divides both of them.
pub proof fn lemma_gcd_divides(a: int, b: int)
    requires
        a >= 0,
        b >= 0,
        a > 0 || b > 0,
    ensures
        a % gcd(a, b) == 0,
        b % gcd(a, b) == 0,
    decreases b,
{
    lemma_gcd_pos(a, b);
    let g = gcd(a, b);
    if b == 0 {
        lemma_mod_self_0(a);
        assert(b % g == 0);
    } else {
        lemma_gcd_divides(b, a % b);
        assert(g == gcd(b, a % b));
        assert(b % g == 0 && (a % b) % g == 0);
        // b and a % b are both multiples of g; hence so is a.
        lemma_fundamental_div_mod(a, b);
        lemma_fundamental_div_mod(b, g);
        assert(b == g * (b / g));
        lemma_mod_multiples_basic((b / g) * (a / b), g);
        assert(b * (a / b) == ((b / g) * (a / b)) * g) by (nonlinear_arith)
            requires
                b == g * (b / g),
        ;
        assert((b * (a / b)) % g == 0);
        lemma_add_mod_noop(b * (a / b), a % b, g);
        assert(((b * (a / b)) % g + (a % b) % g) % g == (b * (a / b) + a % b) % g);
        lemma_small_mod(0, g as nat);
        assert(a == b * (a / b) + a % b);
        assert(a % g == 0);
    }
}

/// Scaling both arguments by a positive factor scales the gcd.
pub proof fn lemma_gcd_scale(k: int, a: int, b: int)
    requires
        k > 0,
        a >= 0,
        b >= 0,
    ensures
        gcd(k * a, k * b) == k * gcd(a, b),
    decreases b,
{
    if b == 0 {
        assert(k * b == 0);
    } else {
        assert(k * b > 0) by (nonlinear_arith)
            requires
                k > 0,
                b > 0,
        ;
        lemma_truncate_middle(a, k, b);
        assert((k * a) % (k * b) == k * (a % b));
        assert(a % b >= 0);
        lemma_gcd_scale(k, b, a % b);
    }
}

/// After dividing both arguments by their gcd, the results are coprime.
pub proof fn lemma_gcd_coprime(a: int, b: int)
    requires
        a >= 0,
        b > 0,
    ensures
        gcd(a / gcd(a, b), b / gcd(a, b)) == 1,
    decreases b,
{
    let g = gcd(a, b);
    lemma_gcd_pos(a, b);
    lemma_gcd_divides(a, b);
    lemma_fundamental_div_mod(a, g);
    lemma_fundamental_div_mod(b, g);
    assert(a == g * (a / g));
    assert(b == g * (b / g));
    assert(a / g >= 0 && b / g > 0) by (nonlinear_arith)
        requires
            g > 0,
            a >= 0,
            b > 0,
            a == g * (a / g),
            b == g * (b / g),
    ;
    lemma_gcd_scale(g, a / g, b / g);
    assert(g == g * gcd(a / g, b / g));
    assert(gcd(a / g, b / g) == 1) by (nonlinear_arith)
        requires
            g > 0,
            g == g * gcd(a / g, b / g),
    ;
}

/// Relies on `num::Integer::gcd` for `i32`: it returns the greatest common
/// divisor of its two arguments, which for nonnegative arguments is the
/// value of Euclid's algorithm.
#[verifier::external_body]
pub(crate) fn gcd_i32(a: i32, b: i32) -> (g: i32)
    requires
        a >= 0,
        b >= 0,
    ensures
        g == gcd(a as int, b as int),
{
    num::Integer::gcd(&a, &b)
}

} // verus!

verus! {

/// The gcd does not depend on the order of its arguments.
pub proof fn lemma_gcd_comm(a: int, b: int)
    requires
        a >= 0,
        b >= 0,
    ensures
        gcd(a, b) == gcd(b, a),
    decreases a + b,
{
    if a == 0 || b == 0 {
        if a == 0 && b > 0 {
            lemma_small_mod(0nat, b as nat);
            assert(gcd(0, b) == gcd(b, 0));
        }
    } else if a < b {
        lemma_small_mod(a as nat, b as nat);
        assert(gcd(a, b) == gcd(b, a));
    } else if b < a {
        lemma_small_mod(b as nat, a as nat);
        assert(gcd(b, a) == gcd(a, b));
    } else {
        lemma_mod_self_0(a);
        assert(gcd(a, b) == gcd(b, 0));
        assert(gcd(b, a) == gcd(a, 0));
    }
}

/// Every common divisor of two numbers divides their gcd.
pub proof fn lemma_gcd_greatest(a: int, b: int, c: int)
    requires
        a >= 0,
        b >= 0,
        c >= 1,
        a % c == 0,
        b % c == 0,
        a > 0 || b > 0,
    ensures
        gcd(a, b) % c == 0,
    decreases b,
{
    if b == 0 {
        assert(gcd(a, b) == a);
    } else {
        // a % b is the combination a - b * (a / b), so c divides it too.
        lemma_fundamental_div_mod(a, b);
        lemma_fundamental_div_mod(a, c);
        lemma_fundamental_div_mod(b, c);
        assert(a % b == c * ((a / c) - (b / c) * (a / b))) by (nonlinear_arith)
            requires
                a == b * (a / b) + a % b,
                a == c * (a / c),
                b == c * (b / c),
        ;
        lemma_mod_multiples_basic((a / c) - (b / c) * (a / b), c);
        assert(((a / c) - (b / c) * (a / b)) * c == c * ((a / c) - (b / c) * (a / b)))
            by (nonlinear_arith);
        lemma_gcd_greatest(b, a % b, c);
    }
}

/// Euclid's lemma: a number coprime to `x` that divides `x * y` divides `y`.
pub proof fn lemma_coprime_divides(c: int, x: int, y: int)
    requires
        c >= 1,
        x >= 0,
        y >= 0,
        (x * y) % c == 0,
        gcd(c, x) == 1,
    ensures
        y % c == 0,
{
    if y == 0 {
        lemma_small_mod(0nat, c as nat);
        assert(y % c == 0);
    } else {
        lemma_gcd_scale(y, c, x);
        assert(gcd(y * c, y * x) == y * gcd(c, x));
        assert(y * gcd(c, x) == y) by (nonlinear_arith)
            requires
                gcd(c, x) == 1,
        ;
        lemma_mod_multiples_basic(y, c);
        assert((y * c) % c == 0);
        assert(y * x == x * y) by (nonlinear_arith);
        assert(y * c >= c) by (nonlinear_arith)
            requires
                y >= 1,
                c >= 1,
        ;
        lemma_gcd_greatest(y * c, y * x, c);
        assert(gcd(y * c, y * x) % c == 0);
    }
}

} // verus!
