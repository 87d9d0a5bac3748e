//! Integers modulo a fixed modulus that is part of the type.
//!
//! `Mod<M>` holds a residue in `[0, M)`. Values are made from integers of any
//! sign, combined with `+ - * /`, inverted and raised to powers; every
//! operation states its result over the integers.

pub mod residue;
pub mod modint;
pub mod convert;
pub mod inverse;
pub mod ops;
pub mod power;
pub mod laws;
pub mod text;

pub use inverse::InverseError;
pub use modint::Mod;
