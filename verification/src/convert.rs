//! Making a residue from an integer of any sign.
//!
//! Each source type is first widened to `i64` and then brought into `[0, M)`.

use vstd::prelude::*;
use vstd::std_specs::convert::FromSpecImpl;
use crate::modint::Mod;
use crate::residue::{normalize, residue};

verus! {

/// `num_traits::AsPrimitive::<i64>::as_` on an `i64`: trusted to hand the
/// value back as it is.
#[verifier::external_body]
fn widen_i64(v: i64) -> (r: i64)
    ensures
        r == v,
{
    num_traits::AsPrimitive::<i64>::as_(v)
}

/// `num_traits::AsPrimitive::<i64>::as_` on an `i32`: trusted to be the cast
/// to `i64`, which keeps the value.
#[verifier::external_body]
fn widen_i32(v: i32) -> (r: i64)
    ensures
        r == v,
{
    num_traits::AsPrimitive::<i64>::as_(v)
}

/// `num_traits::AsPrimitive::<i64>::as_` on an `i16`: trusted to be the cast
/// to `i64`, which keeps the value.
#[verifier::external_body]
fn widen_i16(v: i16) -> (r: i64)
    ensures
        r == v,
{
    num_traits::AsPrimitive::<i64>::as_(v)
}

/// `num_traits::AsPrimitive::<i64>::as_` on an `i8`: trusted to be the cast
/// to `i64`, which keeps the value.
#[verifier::external_body]
fn widen_i8(v: i8) -> (r: i64)
    ensures
        r == v,
{
    num_traits::AsPrimitive::<i64>::as_(v)
}

/// `num_traits::AsPrimitive::<i64>::as_` on a `u32`: trusted to be the cast
/// to `i64`, which keeps the value.
#[verifier::external_body]
fn widen_u32(v: u32) -> (r: i64)
    ensures
        r == v,
{
    num_traits::AsPrimitive::<i64>::as_(v)
}

/// `num_traits::AsPrimitive::<i64>::as_` on a `u16`: trusted to be the cast
/// to `i64`, which keeps the value.
#[verifier::external_body]
fn widen_u16(v: u16) -> (r: i64)
    ensures
        r == v,
{
    num_traits::AsPrimitive::<i64>::as_(v)
}

/// `num_traits::AsPrimitive::<i64>::as_` on a `u8`: trusted to be the cast
/// to `i64`, which keeps the value.
#[verifier::external_body]
fn widen_u8(v: u8) -> (r: i64)
    ensures
        r == v,
{
    num_traits::AsPrimitive::<i64>::as_(v)
}

/// The signed 64-bit value that has the bits of `v`: `v` itself where it
/// fits, and `v` lowered by 2^64 where it does not.
pub open spec fn same_bits(v: u64) -> int {
    if v <= 0x7fff_ffff_ffff_ffff {
        v as int
    } else {
        v - 0x1_0000_0000_0000_0000
    }
}

/// `num_traits::AsPrimitive::<i64>::as_` on a `u64`: trusted to be the cast
/// to `i64`, which keeps the bits, so that a value above the largest `i64`
/// comes out lowered by 2^64.
#[verifier::external_body]
fn widen_u64(v: u64) -> (r: i64)
    ensures
        r == same_bits(v),
{
    num_traits::AsPrimitive::<i64>::as_(v)
}

impl<const M: u32> Mod<M> {
    /// The value that stands for the integer `v`: its residue modulo `M`.
    pub open spec fn of_int(v: int) -> Self {
        Mod { value: residue(v, M as int) as u32 }
    }
}

impl<const M: u32> FromSpecImpl<i64> for Mod<M> {
    open spec fn obeys_from_spec() -> bool {
        true
    }

    open spec fn from_spec(v: i64) -> Self {
        Self::of_int(v as int)
    }
}

impl<const M: u32> From<i64> for Mod<M> {
    fn from(v: i64) -> (r: Self)
        ensures
            M > 0 ==> r.wf(),
    {
        Mod { value: normalize(widen_i64(v), M) }
    }
}

impl<const M: u32> FromSpecImpl<i32> for Mod<M> {
    open spec fn obeys_from_spec() -> bool {
        true
    }

    open spec fn from_spec(v: i32) -> Self {
        Self::of_int(v as int)
    }
}

impl<const M: u32> From<i32> for Mod<M> {
    fn from(v: i32) -> (r: Self)
        ensures
            M > 0 ==> r.wf(),
    {
        Mod { value: normalize(widen_i32(v), M) }
    }
}

impl<const M: u32> FromSpecImpl<i16> for Mod<M> {
    open spec fn obeys_from_spec() -> bool {
        true
    }

    open spec fn from_spec(v: i16) -> Self {
        Self::of_int(v as int)
    }
}

impl<const M: u32> From<i16> for Mod<M> {
    fn from(v: i16) -> (r: Self)
        ensures
            M > 0 ==> r.wf(),
    {
        Mod { value: normalize(widen_i16(v), M) }
    }
}

impl<const M: u32> FromSpecImpl<i8> for Mod<M> {
    open spec fn obeys_from_spec() -> bool {
        true
    }

    open spec fn from_spec(v: i8) -> Self {
        Self::of_int(v as int)
    }
}

impl<const M: u32> From<i8> for Mod<M> {
    fn from(v: i8) -> (r: Self)
        ensures
            M > 0 ==> r.wf(),
    {
        Mod { value: normalize(widen_i8(v), M) }
    }
}

impl<const M: u32> FromSpecImpl<u32> for Mod<M> {
    open spec fn obeys_from_spec() -> bool {
        true
    }

    open spec fn from_spec(v: u32) -> Self {
        Self::of_int(v as int)
    }
}

impl<const M: u32> From<u32> for Mod<M> {
    fn from(v: u32) -> (r: Self)
        ensures
            M > 0 ==> r.wf(),
            v < M ==> r.value == v,
    {
        Mod { value: normalize(widen_u32(v), M) }
    }
}

impl<const M: u32> FromSpecImpl<u16> for Mod<M> {
    open spec fn obeys_from_spec() -> bool {
        true
    }

    open spec fn from_spec(v: u16) -> Self {
        Self::of_int(v as int)
    }
}

impl<const M: u32> From<u16> for Mod<M> {
    fn from(v: u16) -> (r: Self)
        ensures
            M > 0 ==> r.wf(),
    {
        Mod { value: normalize(widen_u16(v), M) }
    }
}

impl<const M: u32> FromSpecImpl<u8> for Mod<M> {
    open spec fn obeys_from_spec() -> bool {
        true
    }

    open spec fn from_spec(v: u8) -> Self {
        Self::of_int(v as int)
    }
}

impl<const M: u32> From<u8> for Mod<M> {
    fn from(v: u8) -> (r: Self)
        ensures
            M > 0 ==> r.wf(),
    {
        Mod { value: normalize(widen_u8(v), M) }
    }
}

impl<const M: u32> FromSpecImpl<u64> for Mod<M> {
    open spec fn obeys_from_spec() -> bool {
        true
    }

    open spec fn from_spec(v: u64) -> Self {
        Self::of_int(same_bits(v))
    }
}

/// A `u64` is read as the `i64` with the same bits.
impl<const M: u32> From<u64> for Mod<M> {
    fn from(v: u64) -> (r: Self)
        ensures
            M > 0 ==> r.wf(),
    {
        Mod { value: normalize(widen_u64(v), M) }
    }
}

} // verus!
