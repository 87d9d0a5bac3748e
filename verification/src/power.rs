//! Exponentiation by repeated squaring, for exponents of either sign.

use vstd::prelude::*;
use vstd::arithmetic::div_mod::{lemma_mul_mod_noop_general, lemma_small_mod};
use vstd::arithmetic::power::{lemma_pow0, pow};
use crate::inverse::InverseError;
use crate::modint::Mod;
use crate::residue::{gcd, invertible, lemma_power_step, power, residue};

verus! {

/// The size of a negative exponent, which for the least `i64` does not fit in
/// an `i64`.
fn magnitude(exp: i64) -> (r: u64)
    requires
        exp < 0,
    ensures
        r == -exp,
{
    let below: i64 = -(exp + 1);
    below as u64 + 1
}

impl<const M: u32> Mod<M> {
    /// The receiver raised to an exponent that is not negative. The base is
    /// squared and the exponent halved; every product is reduced at once.
    pub fn pow_unsigned(self, exp: u64) -> (r: Self)
        requires
            M > 0,
        ensures
            r.value == residue(pow(self.value as int, exp as nat), M as int),
            r.wf(),
    {
        let mut result: Mod<M> = Mod::from(1i64);
        let mut base: Mod<M> = self;
        let mut e: u64 = exp;
        proof {
            lemma_mul_mod_noop_general(1, pow(self.value as int, exp as nat), M as int);
        }
        while e > 0
            invariant
                M > 0,
                result.wf(),
                (result.value * pow(base.value as int, e as nat)) % (M as int) == pow(
                    self.value as int,
                    exp as nat,
                ) % (M as int),
            decreases e,
        {
            proof {
                lemma_power_step(result.value as int, base.value as int, e as nat, M as int);
            }
            if e % 2 == 1 {
                result = result * base;
            }
            base = base * base;
            e = e / 2;
        }
        proof {
            lemma_pow0(base.value as int);
            lemma_small_mod(result.value as nat, M as nat);
        }
        result
    }

    /// The receiver raised to `exp`. For a negative exponent the inverse of
    /// the receiver is raised to `-exp`; the receiver must then have one.
    pub fn pow(self, exp: i64) -> (r: Self)
        requires
            M > 0,
            exp < 0 ==> invertible(self.value as nat, M as nat),
        ensures
            r.value == power(self.value as int, exp as int, M as int),
            r.wf(),
    {
        if exp >= 0 {
            self.pow_unsigned(exp as u64)
        } else {
            self.inv().pow_unsigned(magnitude(exp))
        }
    }

    /// The receiver raised to `exp`, or the reason why a negative exponent
    /// cannot be served: the receiver has no inverse.
    pub fn checked_pow(self, exp: i64) -> (r: Result<Self, InverseError>)
        requires
            M > 0,
        ensures
            r is Ok <==> (exp >= 0 || invertible(self.value as nat, M as nat)),
            r is Ok ==> r->Ok_0.wf() && r->Ok_0.value == power(
                self.value as int,
                exp as int,
                M as int,
            ),
            (r is Err && r->Err_0 == InverseError::NoInverse) <==> (exp < 0 && self.value == 0),
            (r is Err && r->Err_0 == InverseError::NotCoprime) <==> (exp < 0 && self.value != 0
                && gcd(self.value as nat, M as nat) != 1),
    {
        if exp >= 0 {
            Ok(self.pow_unsigned(exp as u64))
        } else {
            match self.checked_inv() {
                Ok(x) => Ok(x.pow_unsigned(magnitude(exp))),
                Err(e) => Err(e),
            }
        }
    }
}

} // verus!
