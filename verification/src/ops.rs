//! The arithmetic operators of residues: between two residues, between a
//! residue and a signed scalar, and the forms that assign in place.
//!
//! Every operator needs a positive modulus. Division also needs a divisor that
//! has an inverse; `checked_div` is the form that tests for one.

use vstd::prelude::*;
use vstd::arithmetic::div_mod::{
    lemma_add_mod_noop_right, lemma_mul_mod_noop_general, lemma_sub_mod_noop_right,
};
use vstd::std_specs::ops::{AddSpecImpl, DivSpecImpl, MulSpecImpl, SubSpecImpl};
use crate::inverse::InverseError;
use crate::modint::Mod;
use crate::residue::{gcd, inverse, invertible, normalize, residue};

verus! {

impl<const M: u32> AddSpecImpl for Mod<M> {
    open spec fn obeys_add_spec() -> bool {
        true
    }

    open spec fn add_req(self, rhs: Self) -> bool {
        M > 0
    }

    open spec fn add_spec(self, rhs: Self) -> Self {
        Self::of_int(self.value + rhs.value)
    }
}

/// The sum of two residues, reduced.
impl<const M: u32> std::ops::Add for Mod<M> {
    type Output = Self;

    fn add(self, rhs: Self) -> (r: Self)
        ensures
            r.wf(),
    {
        let sum: u64 = (self.value as u64 + rhs.value as u64) % (M as u64);
        Mod { value: sum as u32 }
    }
}

impl<const M: u32> SubSpecImpl for Mod<M> {
    open spec fn obeys_sub_spec() -> bool {
        true
    }

    open spec fn sub_req(self, rhs: Self) -> bool {
        M > 0
    }

    open spec fn sub_spec(self, rhs: Self) -> Self {
        Self::of_int(self.value - rhs.value)
    }
}

/// The difference of two residues, brought back into `[0, M)`.
impl<const M: u32> std::ops::Sub for Mod<M> {
    type Output = Self;

    fn sub(self, rhs: Self) -> (r: Self)
        ensures
            r.wf(),
    {
        let difference: i64 = self.value as i64 - rhs.value as i64;
        Mod { value: normalize(difference, M) }
    }
}

impl<const M: u32> MulSpecImpl for Mod<M> {
    open spec fn obeys_mul_spec() -> bool {
        true
    }

    open spec fn mul_req(self, rhs: Self) -> bool {
        M > 0
    }

    open spec fn mul_spec(self, rhs: Self) -> Self {
        Self::of_int(self.value * rhs.value)
    }
}

/// The product of two residues, multiplied in 64 bits and reduced.
impl<const M: u32> std::ops::Mul for Mod<M> {
    type Output = Self;

    fn mul(self, rhs: Self) -> (r: Self)
        ensures
            r.wf(),
    {
        proof {
            assert(0 <= self.value * rhs.value <= 0xffff_ffff * 0xffff_ffff) by (nonlinear_arith)
                requires
                    0 <= self.value <= 0xffff_ffff,
                    0 <= rhs.value <= 0xffff_ffff,
            ;
        }
        let product: u64 = (self.value as u64 * rhs.value as u64) % (M as u64);
        Mod { value: product as u32 }
    }
}

impl<const M: u32> DivSpecImpl for Mod<M> {
    open spec fn obeys_div_spec() -> bool {
        true
    }

    open spec fn div_req(self, rhs: Self) -> bool {
        M > 0 && invertible(rhs.value as nat, M as nat)
    }

    open spec fn div_spec(self, rhs: Self) -> Self {
        Self::of_int(self.value * inverse(rhs.value as int, M as int))
    }
}

/// The quotient of two residues: the product with the inverse of the divisor.
impl<const M: u32> std::ops::Div for Mod<M> {
    type Output = Self;

    fn div(self, rhs: Self) -> (r: Self)
        ensures
            r.wf(),
    {
        self * rhs.inv()
    }
}

impl<const M: u32> AddSpecImpl<i64> for Mod<M> {
    open spec fn obeys_add_spec() -> bool {
        true
    }

    open spec fn add_req(self, rhs: i64) -> bool {
        M > 0
    }

    open spec fn add_spec(self, rhs: i64) -> Self {
        Self::of_int(self.value + rhs)
    }
}

/// The sum of a residue and a scalar.
impl<const M: u32> std::ops::Add<i64> for Mod<M> {
    type Output = Self;

    fn add(self, rhs: i64) -> (r: Self)
        ensures
            r.wf(),
    {
        proof {
            lemma_add_mod_noop_right(self.value as int, rhs as int, M as int);
        }
        self + Mod::from(rhs)
    }
}

impl<const M: u32> SubSpecImpl<i64> for Mod<M> {
    open spec fn obeys_sub_spec() -> bool {
        true
    }

    open spec fn sub_req(self, rhs: i64) -> bool {
        M > 0
    }

    open spec fn sub_spec(self, rhs: i64) -> Self {
        Self::of_int(self.value - rhs)
    }
}

/// The difference of a residue and a scalar.
impl<const M: u32> std::ops::Sub<i64> for Mod<M> {
    type Output = Self;

    fn sub(self, rhs: i64) -> (r: Self)
        ensures
            r.wf(),
    {
        proof {
            lemma_sub_mod_noop_right(self.value as int, rhs as int, M as int);
        }
        self - Mod::from(rhs)
    }
}

impl<const M: u32> MulSpecImpl<i64> for Mod<M> {
    open spec fn obeys_mul_spec() -> bool {
        true
    }

    open spec fn mul_req(self, rhs: i64) -> bool {
        M > 0
    }

    open spec fn mul_spec(self, rhs: i64) -> Self {
        Self::of_int(self.value * rhs)
    }
}

/// The product of a residue and a scalar of any size.
impl<const M: u32> std::ops::Mul<i64> for Mod<M> {
    type Output = Self;

    fn mul(self, rhs: i64) -> (r: Self)
        ensures
            r.wf(),
    {
        proof {
            lemma_mul_mod_noop_general(self.value as int, rhs as int, M as int);
        }
        self * Mod::from(rhs)
    }
}

impl<const M: u32> DivSpecImpl<i64> for Mod<M> {
    open spec fn obeys_div_spec() -> bool {
        true
    }

    open spec fn div_req(self, rhs: i64) -> bool {
        M > 0 && invertible(residue(rhs as int, M as int) as nat, M as nat)
    }

    open spec fn div_spec(self, rhs: i64) -> Self {
        Self::of_int(self.value * inverse(residue(rhs as int, M as int), M as int))
    }
}

/// The quotient of a residue and a scalar: the scalar is reduced, then
/// inverted.
impl<const M: u32> std::ops::Div<i64> for Mod<M> {
    type Output = Self;

    fn div(self, rhs: i64) -> (r: Self)
        ensures
            r.wf(),
    {
        self * Mod::from(rhs).inv()
    }
}

/// Adds `rhs` to the receiver.
impl<const M: u32> std::ops::AddAssign for Mod<M> {
    fn add_assign(&mut self, rhs: Self)
        requires
            M > 0,
        ensures
            *final(self) == Self::of_int(old(self).value + rhs.value),
            final(self).wf(),
    {
        *self = *self + rhs;
    }
}

/// Subtracts `rhs` from the receiver.
impl<const M: u32> std::ops::SubAssign for Mod<M> {
    fn sub_assign(&mut self, rhs: Self)
        requires
            M > 0,
        ensures
            *final(self) == Self::of_int(old(self).value - rhs.value),
            final(self).wf(),
    {
        *self = *self - rhs;
    }
}

/// Multiplies the receiver by `rhs`.
impl<const M: u32> std::ops::MulAssign for Mod<M> {
    fn mul_assign(&mut self, rhs: Self)
        requires
            M > 0,
        ensures
            *final(self) == Self::of_int(old(self).value * rhs.value),
            final(self).wf(),
    {
        *self = *self * rhs;
    }
}

/// Divides the receiver by `rhs`.
impl<const M: u32> std::ops::DivAssign for Mod<M> {
    fn div_assign(&mut self, rhs: Self)
        requires
            M > 0,
            invertible(rhs.value as nat, M as nat),
        ensures
            *final(self) == Self::of_int(old(self).value * inverse(rhs.value as int, M as int)),
            final(self).wf(),
    {
        *self = *self / rhs;
    }
}

impl<const M: u32> Mod<M> {
    /// The quotient of two residues, or the reason why the divisor has no
    /// inverse.
    pub fn checked_div(self, rhs: Self) -> (r: Result<Self, InverseError>)
        requires
            M > 0,
        ensures
            r is Ok <==> invertible(rhs.value as nat, M as nat),
            r is Ok ==> r->Ok_0.wf() && r->Ok_0 == Self::of_int(
                self.value * inverse(rhs.value as int, M as int),
            ),
            (r is Err && r->Err_0 == InverseError::NoInverse) <==> rhs.value == 0,
            (r is Err && r->Err_0 == InverseError::NotCoprime) <==> (rhs.value != 0 && gcd(
                rhs.value as nat,
                M as nat,
            ) != 1),
    {
        match rhs.checked_inv() {
            Ok(x) => Ok(self * x),
            Err(e) => Err(e),
        }
    }
}

} // verus!
