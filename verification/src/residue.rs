//! The mathematics of residues: what the executable operations compute.

use vstd::prelude::*;
use vstd::arithmetic::div_mod::{
    lemma_add_mod_noop, lemma_fundamental_div_mod, lemma_mod_multiples_vanish, lemma_mod_twice,
    lemma_mul_mod_noop_general, lemma_small_mod,
};
use vstd::arithmetic::power::{
    lemma_pow1, lemma_pow_adds, lemma_pow_mod_noop, lemma_pow_multiplies, pow,
};

verus! {

/// The canonical residue of `v` modulo `m`: the one integer in `[0, m)` that
/// differs from `v` by a multiple of `m`. For a modulus that is not positive
/// no residue exists and the value is 0.
pub open spec fn residue(v: int, m: int) -> int {
    if m > 0 {
        v % m
    } else {
        0
    }
}

/// The greatest common divisor of `a` and `b`, by Euclid's descent.
pub open spec fn gcd(a: nat, b: nat) -> nat
    decreases a,
{
    if a == 0 {
        b
    } else {
        gcd(b % a, a)
    }
}

/// `d` divides `n`. Zero divides only zero.
pub open spec fn divides(d: nat, n: nat) -> bool {
    if d == 0 {
        n == 0
    } else {
        n % d == 0
    }
}

/// The coefficients `(x, y)` that the extended Euclidean descent finds for
/// `(a, b)`: they satisfy `a * x + b * y == gcd(a, b)`.
pub open spec fn bezout(a: nat, b: nat) -> (int, int)
    decreases a,
{
    if a == 0 {
        (0, 1)
    } else {
        let inner = bezout(b % a, a);
        (inner.1 - (b / a) * inner.0, inner.0)
    }
}

/// `x` is the multiplicative inverse of `v` modulo `m`, in canonical form.
pub open spec fn is_inverse(x: int, v: int, m: int) -> bool {
    0 <= x < m && (v * x) % m == 1int % m
}

/// The multiplicative inverse of `v` modulo `m`, where one exists.
pub open spec fn inverse(v: int, m: int) -> int {
    choose|x: int| is_inverse(x, v, m)
}

/// `v` has a multiplicative inverse modulo `m`: it is not zero and shares no
/// factor with `m`.
pub open spec fn invertible(v: nat, m: nat) -> bool {
    v != 0 && gcd(v, m) == 1
}

/// `v` raised to the exponent `e` modulo `m`. A negative exponent raises the
/// inverse of `v` to `-e`.
pub open spec fn power(v: int, e: int, m: int) -> int {
    if e >= 0 {
        residue(pow(v, e as nat), m)
    } else {
        residue(pow(inverse(v, m), (-e) as nat), m)
    }
}

/// Two integers that differ by a multiple of `m` have the same remainder.
pub proof fn lemma_congruent(x: int, y: int, k: int, m: int)
    requires
        m > 0,
        x == y + k * m,
    ensures
        x % m == y % m,
{
    lemma_mod_multiples_vanish(k, y, m);
    assert(m * k + y == x) by (nonlinear_arith)
        requires
            x == y + k * m,
    ;
}

/// A value that is already canonical is its own residue, and taking the
/// residue twice is the same as taking it once.
pub proof fn lemma_residue_idempotent(v: int, m: int)
    requires
        m > 0,
    ensures
        0 <= v < m ==> residue(v, m) == v,
        residue(residue(v, m), m) == residue(v, m),
{
    lemma_mod_twice(v, m);
    if 0 <= v < m {
        lemma_small_mod(v as nat, m as nat);
    }
}

/// The coefficients of `bezout` combine `a` and `b` into their greatest
/// common divisor, and they are no larger than the other argument.
pub proof fn lemma_bezout(a: nat, b: nat)
    ensures
        a * bezout(a, b).0 + b * bezout(a, b).1 == gcd(a, b),
        a == 0 ==> bezout(a, b) == (0int, 1int),
        a > 0 && b % a == 0 ==> bezout(a, b) == (1int, 0int),
        b >= 1 ==> -b <= bezout(a, b).0 <= b,
        a >= 1 ==> -a <= bezout(a, b).1 <= a,
        -1 - b <= bezout(a, b).0 <= 1 + b,
        -1 - a <= bezout(a, b).1 <= 1 + a,
    decreases a,
{
    if a > 0 {
        let q: int = (b / a) as int;
        let r: nat = b % a;
        let ai: int = a as int;
        let bi: int = b as int;
        lemma_bezout(r, a);
        lemma_fundamental_div_mod(bi, ai);
        let x1: int = bezout(r, a).0;
        let y1: int = bezout(r, a).1;
        let g: int = gcd(r, a) as int;
        assert(bezout(a, b) == (y1 - q * x1, x1));
        assert(ai * (y1 - q * x1) + bi * x1 == g) by (nonlinear_arith)
            requires
                bi == ai * q + r,
                r * x1 + ai * y1 == g,
        ;
        if r > 0 {
            assert(-(bi - r) <= q * x1 <= bi - r) by (nonlinear_arith)
                requires
                    bi == ai * q + r,
                    q >= 0,
                    -ai <= x1 <= ai,
            ;
        } else {
            assert(q * x1 == 0) by (nonlinear_arith)
                requires
                    x1 == 0,
            ;
        }
    }
}

/// A divisor of `a` and of `b` divides every combination `a * x + b * y`.
pub proof fn lemma_divides_combination(d: int, a: int, b: int, x: int, y: int)
    requires
        d > 0,
        a % d == 0,
        b % d == 0,
    ensures
        (a * x + b * y) % d == 0,
{
    lemma_mul_mod_noop_general(a, x, d);
    lemma_mul_mod_noop_general(b, y, d);
    assert((a % d) * x == 0 && (b % d) * y == 0) by (nonlinear_arith)
        requires
            a % d == 0,
            b % d == 0,
    ;
    lemma_small_mod(0, d as nat);
    lemma_add_mod_noop(a * x, b * y, d);
}

/// `gcd(a, b)` divides both `a` and `b`.
pub proof fn lemma_gcd_divides(a: nat, b: nat)
    ensures
        divides(gcd(a, b), a),
        divides(gcd(a, b), b),
    decreases a,
{
    if a > 0 {
        let r: nat = b % a;
        let q: int = (b / a) as int;
        let g: nat = gcd(r, a);
        lemma_gcd_divides(r, a);
        lemma_fundamental_div_mod(b as int, a as int);
        lemma_divides_combination(g as int, a as int, r as int, q, 1);
    } else if b > 0 {
        vstd::arithmetic::div_mod::lemma_mod_self_0(b as int);
    }
}

/// Where `gcd(v, m)` is 1, the residue of the first coefficient of `bezout` is
/// the inverse of `v`.
pub proof fn lemma_bezout_inverse(v: nat, m: nat)
    requires
        m > 0,
        gcd(v, m) == 1,
    ensures
        is_inverse(residue(bezout(v, m).0, m as int), v as int, m as int),
{
    let x: int = bezout(v, m).0;
    let y: int = bezout(v, m).1;
    let vi: int = v as int;
    let mi: int = m as int;
    lemma_bezout(v, m);
    assert(vi * x == 1 + (-y) * mi) by (nonlinear_arith)
        requires
            vi * x + mi * y == 1,
    ;
    lemma_congruent(vi * x, 1, -y, mi);
    lemma_mul_mod_noop_general(vi, x, mi);
}

/// A residue has at most one inverse.
pub proof fn lemma_inverse_unique(x: int, y: int, v: int, m: int)
    requires
        is_inverse(x, v, m),
        is_inverse(y, v, m),
    ensures
        x == y,
{
    lemma_mul_mod_noop_general(x, v * y, m);
    lemma_mul_mod_noop_general(y, v * x, m);
    lemma_mul_mod_noop_general(x, 1, m);
    lemma_mul_mod_noop_general(y, 1, m);
    assert(x * (v * y) == y * (v * x)) by (nonlinear_arith);
    assert(x * 1 == x && y * 1 == y);
    lemma_small_mod(x as nat, m as nat);
    lemma_small_mod(y as nat, m as nat);
}

/// An inverse that was found is the one that `inverse` names.
pub proof fn lemma_inverse_is(x: int, v: int, m: int)
    requires
        is_inverse(x, v, m),
    ensures
        inverse(v, m) == x,
{
    lemma_inverse_unique(inverse(v, m), x, v, m);
}

/// One round of binary exponentiation keeps the product of the accumulator
/// and the power that is still owed.
pub proof fn lemma_power_step(acc: int, base: int, e: nat, m: int)
    requires
        m > 0,
        e > 0,
    ensures
        e % 2 == 1 ==> (((acc * base) % m) * pow((base * base) % m, e / 2)) % m == (acc * pow(
            base,
            e,
        )) % m,
        e % 2 == 0 ==> (acc * pow((base * base) % m, e / 2)) % m == (acc * pow(base, e)) % m,
{
    let h: nat = e / 2;
    let square: int = base * base;
    let reduced: int = pow(square % m, h);
    let full: int = pow(square, h);
    lemma_pow1(base);
    lemma_pow_adds(base, 1, 1);
    assert(pow(base, 2) == square);
    lemma_pow_multiplies(base, 2, h);
    assert(pow(base, 2 * h) == full);
    lemma_pow_mod_noop(square, h, m);
    assert(reduced % m == full % m);
    if e % 2 == 1 {
        assert(e == 2 * h + 1);
        lemma_pow_adds(base, 2 * h, 1);
        assert(pow(base, e) == full * base);
        lemma_mul_mod_noop_general(acc * base, reduced, m);
        lemma_mul_mod_noop_general(acc * base, full, m);
        assert((acc * base) * full == acc * (full * base)) by (nonlinear_arith);
    } else {
        assert(e == 2 * h);
        lemma_mul_mod_noop_general(acc, reduced, m);
        lemma_mul_mod_noop_general(acc, full, m);
    }
}

/// Brings a signed 64-bit value into `[0, m)`. A modulus of 0 has no residues;
/// the result is then 0.
pub fn normalize(v: i64, m: u32) -> (r: u32)
    ensures
        r == residue(v as int, m as int),
        m > 0 ==> r < m,
        0 <= v < m ==> r == v,
{
    if m == 0 {
        return 0;
    }
    let m_wide: i64 = m as i64;
    let first: i64 = v % m_wide;
    let shifted: i64 = first + m_wide;
    let second: i64 = shifted % m_wide;
    proof {
        let mi: int = m as int;
        let vi: int = v as int;
        if vi >= 0 {
            lemma_congruent(shifted as int, vi % mi, 1, mi);
            lemma_mod_twice(vi, mi);
        } else {
            let a: int = -vi;
            let q: int = a / mi;
            let t: int = a % mi;
            lemma_fundamental_div_mod(a, mi);
            assert(first as int == -t);
            assert(vi == (mi - t) + (-q - 1) * mi) by (nonlinear_arith)
                requires
                    a == mi * q + t,
                    a == -vi,
            ;
            lemma_congruent(vi, mi - t, -q - 1, mi);
        }
        lemma_residue_idempotent(vi, mi);
    }
    second as u32
}

} // verus!
