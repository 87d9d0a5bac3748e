//! The multiplicative inverse, by the extended Euclidean algorithm.

use vstd::prelude::*;
use crate::modint::Mod;
use crate::residue::{
    bezout, gcd, inverse, invertible, is_inverse, lemma_bezout, lemma_bezout_inverse,
    lemma_inverse_is, normalize,
};

verus! {

/// Why a residue has no multiplicative inverse.
#[derive(Clone, Copy, Debug, PartialEq, Eq, Structural)]
pub enum InverseError {
    /// The residue is zero.
    NoInverse,
    /// The residue is not zero and shares a factor with the modulus.
    NotCoprime,
}

impl<const M: u32> Mod<M> {
    /// The extended Euclidean algorithm: the greatest common divisor of `a`
    /// and `b`, and the coefficients `x`, `y` with `a * x + b * y` equal to it.
    pub fn ext_gcd(a: i64, b: i64) -> (r: (i64, i64, i64))
        requires
            0 <= a,
            0 <= b,
        ensures
            r.0 == gcd(a as nat, b as nat),
            (r.1 as int, r.2 as int) == bezout(a as nat, b as nat),
            a * r.1 + b * r.2 == r.0,
        decreases a,
    {
        if a == 0 {
            proof {
                lemma_bezout(a as nat, b as nat);
            }
            return (b, 0, 1);
        }
        let (g, x, y) = Self::ext_gcd(b % a, a);
        let q: i64 = b / a;
        proof {
            lemma_bezout((b % a) as nat, a as nat);
            lemma_bezout(a as nat, b as nat);
            vstd::arithmetic::div_mod::lemma_fundamental_div_mod(b as int, a as int);
            assert(-b <= q * x <= b) by (nonlinear_arith)
                requires
                    b == a * q + b % a,
                    0 <= b % a,
                    q >= 0,
                    -a <= x <= a,
            ;
        }
        (g, y - q * x, x)
    }

    /// The inverse of the receiver, or the reason why it has none.
    pub fn checked_inv(self) -> (r: Result<Self, InverseError>)
        requires
            M > 0,
        ensures
            r is Ok <==> invertible(self.value as nat, M as nat),
            r is Ok ==> r->Ok_0.wf() && is_inverse(
                r->Ok_0.value as int,
                self.value as int,
                M as int,
            ) && r->Ok_0.value == inverse(self.value as int, M as int),
            (r is Err && r->Err_0 == InverseError::NoInverse) <==> self.value == 0,
            (r is Err && r->Err_0 == InverseError::NotCoprime) <==> (self.value != 0 && gcd(
                self.value as nat,
                M as nat,
            ) != 1),
    {
        if self.value == 0 {
            return Err(InverseError::NoInverse);
        }
        let (g, x, _) = Self::ext_gcd(self.value as i64, M as i64);
        if g != 1 {
            return Err(InverseError::NotCoprime);
        }
        let found: u32 = normalize(x, M);
        proof {
            lemma_bezout_inverse(self.value as nat, M as nat);
            lemma_inverse_is(found as int, self.value as int, M as int);
        }
        Ok(Mod { value: found })
    }

    /// The inverse of the receiver: the one `x` in `[0, M)` with
    /// `value * x` congruent to 1. The receiver must have one; a caller that
    /// was not verified and hands over a value without an inverse is stopped
    /// by a panic.
    pub fn inv(self) -> (r: Self)
        requires
            M > 0,
            invertible(self.value as nat, M as nat),
        ensures
            r.wf(),
            is_inverse(r.value as int, self.value as int, M as int),
            r.value == inverse(self.value as int, M as int),
    {
        match self.checked_inv() {
            Ok(x) => x,
            Err(_) => vstd::pervasive::unreached(),
        }
    }
}

} // verus!
