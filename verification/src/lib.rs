//! An evaluation layer for leveled homomorphic encryption.
//!
//! The crate models encrypted values as vectors of residues together with the
//! bookkeeping state — encoding scale, modulus-chain level, ciphertext size
//! and representation form — that every homomorphic operation must validate
//! and propagate. The [`evaluator::Evaluator`] is the single chokepoint for
//! all transformations; its contracts pin down, for every operation, both the
//! slot values of the result and the exact evolution of the metadata, and say
//! precisely on which inputs each error is returned.

use vstd::prelude::*;

pub mod arith;
pub mod context;
pub mod ciphertext;
pub mod decryptor;
pub mod encoder;
pub mod encryptor;
pub mod error;
pub mod evaluator;
pub mod keys;
pub mod laws;
pub mod plaintext;
pub mod serialization;
pub mod sign;

verus! {

/// Compression applied to a serialized value.
#[derive(Clone, Copy, Debug, PartialEq, Eq, Structural)]
pub enum CompressionType {
    /// Zstandard compression.
    ZStd,
}

/// A trait for converting objects into byte arrays.
pub trait ToBytes {
    /// Returns the object as a byte array.
    fn as_bytes(&self) -> Result<Vec<u8>, error::Error>;
}

/// A trait for converting data from a byte slice under a given context.
pub trait FromBytes {
    /// State used to deserialize an object from bytes.
    type State;

    /// Deserialize an object from the given bytes using the given state.
    fn from_bytes(state: &Self::State, bytes: &[u8]) -> Result<Self, error::Error> where
        Self: core::marker::Sized;
}

} // verus!
