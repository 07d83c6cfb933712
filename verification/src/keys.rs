//! Key material: opaque capability tokens consumed, never mutated, by the
//! evaluator.
//!
//! The evaluator only ever checks sufficiency of key material — how many
//! relinearization keys are available against the size of the operand — so
//! the model carries exactly that count and nothing of the cryptographic
//! content.

use vstd::prelude::*;
use crate::context::Context;

verus! {

/// The secret key of a key pair; an opaque capability token.
pub struct SecretKey {}

/// The public key of a key pair; an opaque capability token.
pub struct PublicKey {}

/// Relinearization keys: enough material to reduce a ciphertext of size
/// `count + 2` back to the canonical size of 2.
pub struct RelinearizationKey {
    /// The number of keys generated.
    pub count: usize,
}

/// Galois keys enabling the batched-matrix rotations; covers every in-range
/// rotation step of its context.
pub struct GaloisKey {}

impl RelinearizationKey {
    /// The number of keys the capability holds.
    pub open spec fn key_count(&self) -> nat {
        self.count as nat
    }

    /// The number of keys the capability holds, as executable data.
    pub fn get_count(&self) -> (n: usize)
        ensures
            n as nat == self.key_count(),
    {
        self.count
    }
}

/// Generates key material for one context.
pub struct KeyGenerator {}

impl KeyGenerator {
    /// Creates a generator bound to the given context.
    pub fn new(ctx: &Context) -> (r: Result<KeyGenerator, crate::error::Error>)
        requires
            ctx.wf(),
        ensures
            r is Ok,
    {
        Ok(KeyGenerator {})
    }

    /// The generator's secret key.
    pub fn secret_key(&self) -> SecretKey {
        SecretKey {}
    }

    /// Derives the public key of the pair.
    pub fn create_public_key(&self) -> PublicKey {
        PublicKey {}
    }

    /// Creates relinearization keys. One key is generated, which covers
    /// relinearizing a ciphertext of size 3 — the size reached by one
    /// multiplication of canonical operands — back to size 2.
    pub fn create_relinearization_keys(&self) -> (r: Result<
        RelinearizationKey,
        crate::error::Error,
    >)
        ensures
            r is Ok,
            r is Ok ==> r->Ok_0.key_count() == 1,
    {
        Ok(RelinearizationKey { count: 1 })
    }

    /// Creates Galois keys covering every in-range rotation step.
    pub fn create_galois_keys(&self) -> (r: Result<GaloisKey, crate::error::Error>)
        ensures
            r is Ok,
    {
        Ok(GaloisKey {})
    }
}

} // verus!
