//! Laws that relate the operations to one another.

use vstd::prelude::*;
use vstd::arithmetic::div_mod::{
    lemma_add_mod_noop, lemma_fundamental_div_mod, lemma_mul_mod_noop_general, lemma_small_mod,
    lemma_sub_mod_noop,
};
use vstd::arithmetic::power::{
    lemma1_pow, lemma_pow0, lemma_pow_distributes, lemma_pow_mod_noop, pow,
};
use vstd::std_specs::ops::{AddSpec, DivSpec, MulSpec, SubSpec};
use crate::modint::Mod;
use crate::residue::{
    bezout, divides, gcd, inverse, invertible, is_inverse, lemma_bezout, lemma_bezout_inverse,
    lemma_divides_combination, lemma_gcd_divides, lemma_inverse_is, lemma_residue_idempotent,
    power, residue,
};

verus! {

/// Every value made from an integer is canonical, and so is every result of
/// an operator, whatever the operands hold: it lies in `[0, M)`.
pub proof fn law_canonical_range<const M: u32>(v: int, a: Mod<M>, b: Mod<M>, s: i64)
    requires
        M > 0,
    ensures
        0 <= Mod::<M>::of_int(v).value < M,
        Mod::<M>::of_int(v).wf(),
        a.add_spec(b).wf(),
        a.sub_spec(b).wf(),
        a.mul_spec(b).wf(),
        a.div_spec(b).wf(),
        a.add_spec(s).wf(),
        a.sub_spec(s).wf(),
        a.mul_spec(s).wf(),
        a.div_spec(s).wf(),
{
}

/// The operators follow the integers: the sum, difference and product of the
/// values that stand for `x` and `y` stand for `x + y`, `x - y` and `x * y`.
pub proof fn law_operators_follow_integers<const M: u32>(x: int, y: int)
    requires
        M > 0,
    ensures
        Mod::<M>::of_int(x).add_spec(Mod::<M>::of_int(y)) == Mod::<M>::of_int(x + y),
        Mod::<M>::of_int(x).sub_spec(Mod::<M>::of_int(y)) == Mod::<M>::of_int(x - y),
        Mod::<M>::of_int(x).mul_spec(Mod::<M>::of_int(y)) == Mod::<M>::of_int(x * y),
{
    lemma_add_mod_noop(x, y, M as int);
    lemma_sub_mod_noop(x, y, M as int);
    lemma_mul_mod_noop_general(x, y, M as int);
}

/// Making a value from a canonical residue gives that residue back, and
/// making one from the residue of `v` is the same as making it from `v`.
pub proof fn law_normalize_idempotent<const M: u32>(a: Mod<M>, v: int)
    requires
        M > 0,
        a.wf(),
    ensures
        Mod::<M>::of_int(a.value as int) == a,
        Mod::<M>::of_int(Mod::<M>::of_int(v).value as int) == Mod::<M>::of_int(v),
{
    lemma_residue_idempotent(v, M as int);
    lemma_residue_idempotent(a.value as int, M as int);
}

/// Whatever divides both `a` and `b` divides `gcd(a, b)`: among the common
/// divisors it is the greatest.
pub proof fn law_gcd_greatest(a: nat, b: nat, d: nat)
    requires
        divides(d, a),
        divides(d, b),
    ensures
        divides(d, gcd(a, b)),
        a > 0 || b > 0 ==> d <= gcd(a, b),
{
    lemma_bezout(a, b);
    lemma_gcd_divides(a, b);
    if d > 0 {
        lemma_divides_combination(
            d as int,
            a as int,
            b as int,
            bezout(a, b).0,
            bezout(a, b).1,
        );
        let g: nat = gcd(a, b);
        if g > 0 && d > g {
            lemma_small_mod(g, d);
        }
    }
}

/// Only a value that shares no factor with the modulus has an inverse.
pub proof fn law_inverse_needs_coprime(x: int, v: nat, m: nat)
    requires
        m > 1,
        is_inverse(x, v as int, m as int),
    ensures
        invertible(v, m),
{
    let g: nat = gcd(v, m);
    let vi: int = v as int;
    let mi: int = m as int;
    let k: int = (vi * x) / mi;
    lemma_gcd_divides(v, m);
    lemma_small_mod(1, m);
    lemma_fundamental_div_mod(vi * x, mi);
    assert(vi * x + mi * (-k) == 1) by (nonlinear_arith)
        requires
            vi * x == mi * k + 1,
    ;
    lemma_divides_combination(g as int, vi, mi, x, -k);
    if g > 1 {
        lemma_small_mod(1, g);
    }
    if v == 0 {
        assert(vi * x == 0);
    }
}

/// A residue that is not zero and shares no factor with the modulus has
/// exactly one inverse, and `inverse` names it.
pub proof fn law_inverse_exists(v: nat, m: nat)
    requires
        m > 0,
        invertible(v, m),
    ensures
        is_inverse(inverse(v as int, m as int), v as int, m as int),
{
    lemma_bezout_inverse(v, m);
    lemma_inverse_is(residue(bezout(v, m).0, m as int), v as int, m as int);
}

/// Raising to a negative exponent is raising the inverse to the opposite
/// exponent: `a.pow(-n)` equals `a.inv().pow(n)` for every `n` that is not
/// negative and every `a` that has an inverse.
pub proof fn law_negative_exponent<const M: u32>(a: Mod<M>, n: int)
    requires
        M > 0,
        n >= 0,
        invertible(a.value as nat, M as nat),
    ensures
        power(a.value as int, -n, M as int) == power(
            inverse(a.value as int, M as int),
            n,
            M as int,
        ),
{
    if n == 0 {
        lemma_pow0(a.value as int);
        lemma_pow0(inverse(a.value as int, M as int));
    }
}

/// The power with a negative exponent is the inverse of the power with the
/// opposite exponent.
pub proof fn law_negative_power_inverts<const M: u32>(a: Mod<M>, n: int)
    requires
        M > 0,
        n >= 0,
        invertible(a.value as nat, M as nat),
    ensures
        is_inverse(
            power(a.value as int, -n, M as int),
            power(a.value as int, n, M as int),
            M as int,
        ),
{
    let m: int = M as int;
    let v: int = a.value as int;
    let x: int = inverse(v, m);
    let e: nat = n as nat;
    law_inverse_exists(a.value as nat, M as nat);
    law_negative_exponent(a, n);
    assert(power(v, -n, m) == pow(x, e) % m);
    assert(power(v, n, m) == pow(v, e) % m);
    lemma_pow_distributes(v, x, e);
    assert(pow(v * x, e) == pow(v, e) * pow(x, e));
    lemma_pow_mod_noop(v * x, e, m);
    assert((v * x) % m == 1int % m);
    assert(pow(1int % m, e) % m == 1int % m) by {
        if m == 1 {
        } else {
            lemma_small_mod(1, m as nat);
            lemma1_pow(e);
        }
    }
    assert(pow(v * x, e) % m == 1int % m);
    lemma_mul_mod_noop_general(pow(v, e), pow(x, e), m);
}

/// Dividing and then multiplying by the same invertible value gives the
/// first value back: `(a / b) * b == a`.
pub proof fn law_div_mul_round_trip<const M: u32>(a: Mod<M>, b: Mod<M>)
    requires
        M > 0,
        a.wf(),
        invertible(b.value as nat, M as nat),
    ensures
        a.div_req(b),
        a.div_spec(b).mul_req(b),
        a.div_spec(b).mul_spec(b) == a,
{
    let m: int = M as int;
    let av: int = a.value as int;
    let bv: int = b.value as int;
    let x: int = inverse(bv, m);
    law_inverse_exists(b.value as nat, M as nat);
    lemma_mul_mod_noop_general(av * x, bv, m);
    assert((av * x) * bv == av * (bv * x)) by (nonlinear_arith);
    lemma_mul_mod_noop_general(av, bv * x, m);
    lemma_mul_mod_noop_general(av, 1, m);
    assert(av * 1 == av);
    lemma_small_mod(a.value as nat, M as nat);
}

} // verus!
