//! The residue type, its equality and its access to the stored value.

use vstd::prelude::*;

verus! {

/// An integer modulo `M`. A canonical value holds its residue in `[0, M)`;
/// every operation of this crate returns canonical values.
#[derive(Clone, Copy)]
pub struct Mod<const M: u32> {
    pub value: u32,
}

impl<const M: u32> Mod<M> {
    /// The value is canonical: it lies in `[0, M)`.
    pub open spec fn wf(&self) -> bool {
        self.value < M
    }
}

impl<const M: u32> std::ops::Deref for Mod<M> {
    type Target = u32;

    fn deref(&self) -> (r: &u32)
        ensures
            *r == self.value,
    {
        &self.value
    }
}

impl<const M: u32> vstd::std_specs::cmp::PartialEqSpecImpl for Mod<M> {
    open spec fn obeys_eq_spec() -> bool {
        true
    }

    open spec fn eq_spec(&self, other: &Self) -> bool {
        self.value == other.value
    }
}

/// Two values of one modulus are equal when their stored residues are.
impl<const M: u32> PartialEq for Mod<M> {
    fn eq(&self, other: &Self) -> (r: bool) {
        self.value == other.value
    }
}

impl<const M: u32> Eq for Mod<M> {

}

} // verus!
