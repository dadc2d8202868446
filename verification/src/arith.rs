//! Greatest common divisor and least common multiple.

use vstd::arithmetic::div_mod::{
    lemma_fundamental_div_mod, lemma_fundamental_div_mod_converse, lemma_mod_multiples_vanish,
    lemma_small_mod,
};
use vstd::prelude::*;

verus! {

/// `d` divides `n`. Every number divides zero; zero divides only itself.
pub open spec fn divides(d: nat, n: nat) -> bool {
    if d == 0 {
        n == 0
    } else {
        n % d == 0
    }
}

/// `g` is the greatest common divisor of `a` and `b`: it divides both, and every common divisor
/// divides it.
pub open spec fn is_gcd(a: nat, b: nat, g: nat) -> bool {
    &&& divides(g, a)
    &&& divides(g, b)
    &&& forall|d: nat| #[trigger] divides(d, a) && divides(d, b) ==> divides(d, g)
}

/// `m` is the least common multiple of `a` and `b`: both divide it, and it divides every common
/// multiple.
pub open spec fn is_lcm(a: nat, b: nat, m: nat) -> bool {
    &&& divides(a, m)
    &&& divides(b, m)
    &&& forall|n: nat| #[trigger] divides(a, n) && divides(b, n) ==> divides(m, n)
}

/// A divisor of `n` times its quotient is `n`.
proof fn lemma_divides_product(d: nat, n: nat)
    requires
        d > 0,
        divides(d, n),
    ensures
        n == d * (n / d),
{
    lemma_fundamental_div_mod(n as int, d as int);
}

/// A multiple of `d` is divided by `d`.
proof fn lemma_product_divides(d: nat, k: nat)
    ensures
        divides(d, d * k),
{
    if d > 0 {
        assert(d * k == k * d + 0) by (nonlinear_arith);
        lemma_fundamental_div_mod_converse((d * k) as int, d as int, k as int, 0);
    } else {
        assert(d * k == 0) by (nonlinear_arith)
            requires
                d == 0,
        ;
    }
}

/// Whatever divides `b` divides `a` exactly when it divides `a % b`.
proof fn lemma_common_divisor_step(a: nat, b: nat, d: nat)
    requires
        b > 0,
        divides(d, b),
    ensures
        divides(d, a) == divides(d, a % b),
{
    if d > 0 {
        let q = a / b;
        let m = b / d;
        lemma_fundamental_div_mod(a as int, b as int);
        lemma_divides_product(d, b);
        assert(b * q == d * (m * q)) by (nonlinear_arith)
            requires
                b == d * m,
        ;
        lemma_mod_multiples_vanish((m * q) as int, (a % b) as int, d as int);
    }
}

/// Bezout's identity: the greatest common divisor is a combination of the two numbers.
proof fn lemma_bezout(a: nat, b: nat, g: nat) -> (uv: (int, int))
    requires
        is_gcd(a, b, g),
    ensures
        uv.0 * a + uv.1 * b == g,
    decreases b,
{
    if b == 0 {
        assert(divides(a, a)) by {
            lemma_product_divides(a, 1);
        }
        assert(divides(a, b));
        assert(divides(a, g));
        lemma_divides_antisymmetric(a, g);
        assert(1 * a + 0 * b == g) by (nonlinear_arith)
            requires
                a == g,
                b == 0,
        ;
        (1, 0)
    } else {
        let r = a % b;
        lemma_gcd_step(a, b, g);
        let (u, v) = lemma_bezout(b, r, g);
        let q = (a / b) as int;
        lemma_fundamental_div_mod(a as int, b as int);
        assert(v * a + (u - v * q) * b == g) by (nonlinear_arith)
            requires
                u * b + v * r == g,
                a == b * q + r,
        ;
        (v, u - v * q)
    }
}

/// Two numbers that divide each other are equal.
proof fn lemma_divides_antisymmetric(a: nat, b: nat)
    requires
        divides(a, b),
        divides(b, a),
    ensures
        a == b,
{
    if a > 0 && b > 0 {
        if a < b {
            lemma_small_mod(a, b);
        }
        if b < a {
            lemma_small_mod(b, a);
        }
    }
}

/// One step of Euclid's algorithm keeps the greatest common divisor.
proof fn lemma_gcd_step(a: nat, b: nat, g: nat)
    requires
        b > 0,
    ensures
        is_gcd(a, b, g) == is_gcd(b, a % b, g),
{
    let r = a % b;
    assert forall|d: nat| #[trigger] divides(d, b) implies divides(d, a) == divides(d, r) by {
        lemma_common_divisor_step(a, b, d);
    }
    if is_gcd(a, b, g) {
        assert forall|d: nat| #[trigger] divides(d, b) && divides(d, r) implies divides(d, g) by {
            assert(divides(d, a));
        }
    }
    if is_gcd(b, r, g) {
        assert forall|d: nat| #[trigger] divides(d, a) && divides(d, b) implies divides(d, g) by {
            assert(divides(d, b) && divides(d, r));
        }
    }
}

/// The greatest common divisor of two numbers is unique.
pub proof fn law_gcd_unique(a: nat, b: nat, g: nat, h: nat)
    requires
        is_gcd(a, b, g),
        is_gcd(a, b, h),
    ensures
        g == h,
{
    assert(divides(g, a) && divides(h, a));
    lemma_divides_antisymmetric(g, h);
}

/// The least common multiple of two numbers is unique.
pub proof fn law_lcm_unique(a: nat, b: nat, m: nat, n: nat)
    requires
        is_lcm(a, b, m),
        is_lcm(a, b, n),
    ensures
        m == n,
{
    assert(divides(a, m) && divides(a, n));
    lemma_divides_antisymmetric(m, n);
}

/// The product of two numbers is the product of their greatest common divisor and their least
/// common multiple.
pub proof fn law_gcd_lcm_product(a: nat, b: nat, g: nat, m: nat)
    requires
        is_gcd(a, b, g),
        is_lcm(a, b, m),
    ensures
        g * m == a * b,
{
    if a > 0 || b > 0 {
        lemma_gcd_positive(a, b, g);
        lemma_quotient_is_lcm(a, b, g);
        law_lcm_unique(a, b, m, a / g * b);
        lemma_divides_product(g, a);
        let x = a / g;
        assert(g * (x * b) == (g * x) * b) by (nonlinear_arith);
    } else {
        assert(divides(0, a) && divides(0, b));
    }
}

/// Two numbers that are not both zero have a greatest common divisor above zero.
proof fn lemma_gcd_positive(a: nat, b: nat, g: nat)
    requires
        a > 0 || b > 0,
        is_gcd(a, b, g),
    ensures
        g > 0,
{
}

/// Dividing one number by the greatest common divisor and multiplying by the other gives the
/// least common multiple.
proof fn lemma_quotient_is_lcm(a: nat, b: nat, g: nat)
    requires
        g > 0,
        is_gcd(a, b, g),
    ensures
        is_lcm(a, b, a / g * b),
{
    if a == 0 || b == 0 {
        assert(a / g * b == 0) by (nonlinear_arith)
            requires
                g > 0,
                a == 0 || b == 0,
        ;
    } else {
        let x = a / g;
        let y = b / g;
        let m = x * b;
        lemma_divides_product(g, a);
        lemma_divides_product(g, b);
        assert(m == a * y && m == b * x) by (nonlinear_arith)
            requires
                a == g * x,
                b == g * y,
                m == x * b,
        ;
        lemma_product_divides(a, y);
        lemma_product_divides(b, x);
        let (u, v) = lemma_bezout(a, b, g);
        assert forall|n: nat| #[trigger] divides(a, n) && divides(b, n) implies divides(m, n) by {
            let s = n / a;
            let t = n / b;
            lemma_divides_product(a, n);
            lemma_divides_product(b, n);
            let w = u * t + v * s;
            // g * n == u * a * n + v * b * n == a * b * w == g * m * w
            assert(n * g == (m * w) * g) by (nonlinear_arith)
                requires
                    u * a + v * b == g,
                    n == a * s,
                    n == b * t,
                    w == u * t + v * s,
                    m == a * y,
                    b == g * y,
            {
                assert(n * g == n * (u * a) + n * (v * b));
                assert(n * (u * a) == (b * t) * (u * a));
                assert(n * (v * b) == (a * s) * (v * b));
                assert((b * t) * (u * a) == (a * b) * (u * t));
                assert((a * s) * (v * b) == (a * b) * (v * s));
                assert(n * g == (a * b) * w);
                assert(a * b == m * g);
                assert((m * g) * w == (m * w) * g);
            }
            assert(n == m * w) by (nonlinear_arith)
                requires
                    n * g == (m * w) * g,
                    g > 0,
            ;
            assert(m > 0) by (nonlinear_arith)
                requires
                    m == x * b,
                    b > 0,
                    a == g * x,
                    a > 0,
            ;
            assert(m * w == w * m + 0) by (nonlinear_arith);
            lemma_fundamental_div_mod_converse(n as int, m as int, w, 0);
        }
    }
}

/// The greatest common divisor, by Euclid's algorithm. `gcd(0, 0)` is 0.
pub fn gcd(a: usize, b: usize) -> (g: usize)
    ensures
        is_gcd(a as nat, b as nat, g as nat),
    decreases b,
{
    if b == 0 {
        proof {
            lemma_product_divides(a as nat, 1);
        }
        a
    } else {
        proof {
            assert forall|g: nat| #[trigger] is_gcd(b as nat, (a % b) as nat, g) implies is_gcd(
                a as nat,
                b as nat,
                g,
            ) by {
                lemma_gcd_step(a as nat, b as nat, g);
            }
        }
        gcd(b, a % b)
    }
}

/// Some common multiple of `a` and `b` fits a `usize`: a positive one, unless `a` or `b` is zero,
/// whose only multiple is zero.
pub open spec fn common_multiple_fits(a: nat, b: nat) -> bool {
    exists|n: nat|
        #![trigger divides(a, n)]
        divides(a, n) && divides(b, n) && n <= usize::MAX && (n > 0 || a == 0 || b == 0)
}

/// The least common multiple of two numbers that are not both zero, where it fits a `usize`.
pub fn lcm(a: usize, b: usize) -> (m: usize)
    requires
        a > 0 || b > 0,
        common_multiple_fits(a as nat, b as nat),
    ensures
        is_lcm(a as nat, b as nat, m as nat),
{
    let g = gcd(a, b);
    proof {
        lemma_gcd_positive(a as nat, b as nat, g as nat);
        lemma_quotient_is_lcm(a as nat, b as nat, g as nat);
        let m = (a as nat) / (g as nat) * (b as nat);
        let n = choose|n: nat|
            #![trigger divides(a as nat, n)]
            divides(a as nat, n) && divides(b as nat, n) && n <= usize::MAX && (n > 0 || a == 0
                || b == 0);
        assert(divides(m, n));
        if m > n {
            lemma_small_mod(n, m);
        }
        assert(a == 0 || b == 0 ==> m == 0) by (nonlinear_arith)
            requires
                g > 0,
                m == (a as nat) / (g as nat) * (b as nat),
        ;
    }
    a / g * b
}

/// A greatest common divisor leaves no remainder in either number, and no greater number does.
pub proof fn law_gcd_is_greatest(a: nat, b: nat, g: nat, d: nat)
    requires
        is_gcd(a, b, g),
        a > 0 || b > 0,
        d > 0,
        a % d == 0,
        b % d == 0,
    ensures
        g > 0,
        a % g == 0,
        b % g == 0,
        d <= g,
{
    lemma_gcd_positive(a, b, g);
    assert(divides(d, a) && divides(d, b));
    assert(divides(d, g));
    if d > g {
        lemma_small_mod(g, d);
    }
}

/// A least common multiple of two positive numbers is a multiple of both, and no smaller positive
/// number is.
pub proof fn law_lcm_is_least(a: nat, b: nat, m: nat, n: nat)
    requires
        is_lcm(a, b, m),
        a > 0,
        b > 0,
        n > 0,
        n % a == 0,
        n % b == 0,
    ensures
        m % a == 0,
        m % b == 0,
        0 < m <= n,
{
    assert(divides(a, n) && divides(b, n));
    assert(divides(m, n));
    if m > n {
        lemma_small_mod(n, m);
    }
}

/// What two calls give for two numbers fits together: the divisor times the multiple is their
/// product.
pub proof fn law_divisor_times_multiple(a: usize, b: usize, g: usize, m: usize)
    requires
        a > 0,
        b > 0,
        call_ensures(gcd, (a, b), g),
        call_ensures(lcm, (a, b), m),
    ensures
        g * m == a * b,
{
    law_gcd_lcm_product(a as nat, b as nat, g as nat, m as nat);
}

} // verus!
