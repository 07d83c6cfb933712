//! The encryptor: turns plaintexts into fresh ciphertexts.
//!
//! A fresh ciphertext sits at the plaintext's chain level, has the canonical
//! size of 2, carries the plaintext's scale and representation state, and
//! starts with the full invariant noise budget of the modulus chain.

use vstd::prelude::*;
use crate::arith::copy_slots;
use crate::ciphertext::Ciphertext;
use crate::context::{bits_sum, Context};
use crate::error::Error;
use crate::keys::{PublicKey, SecretKey};
use crate::plaintext::Plaintext;

verus! {

/// Computes the fresh noise budget of a chain: the sum of its moduli's bit
/// sizes.
pub(crate) fn sum_chain_bits(ctx: &Context) -> (n: u64)
    requires
        ctx.wf(),
    ensures
        n == ctx.fresh_noise_budget(),
{
    let mut acc: u64 = 0;
    let mut i: usize = 0;
    while i < ctx.moduli_bits.len()
        invariant
            ctx.wf(),
            0 <= i <= ctx.moduli_bits@.len(),
            acc == bits_sum(ctx.moduli_bits@.take(i as int)),
            acc <= 60 * i,
        decreases ctx.moduli_bits@.len() - i,
    {
        proof {
            assert(ctx.moduli_bits@.take(i + 1).drop_last() =~= ctx.moduli_bits@.take(i as int));
        }
        acc = acc + ctx.moduli_bits[i];
        i = i + 1;
    }
    proof {
        assert(ctx.moduli_bits@.take(ctx.moduli_bits@.len() as int) =~= ctx.moduli_bits@);
    }
    acc
}

/// Encrypts plaintexts under one context and key pair.
pub struct Encryptor {
    /// The context the encryptor was built for.
    pub ctx: Context,
}

impl Encryptor {
    /// Validity: a well-formed context.
    pub open spec fn wf(&self) -> bool {
        self.ctx.wf()
    }

    /// Creates an encryptor holding both halves of the key pair.
    pub fn with_public_and_secret_key(ctx: &Context, public_key: &PublicKey, secret_key: &SecretKey)
        -> (r: Result<Encryptor, Error>)
        requires
            ctx.wf(),
        ensures
            r is Ok,
            r is Ok ==> {
                let e = r->Ok_0;
                &&& e.wf()
                &&& e.ctx.scheme == ctx.scheme
                &&& e.ctx.degree == ctx.degree
                &&& e.ctx.moduli_bits@ == ctx.moduli_bits@
                &&& e.ctx.plain_modulus == ctx.plain_modulus
            },
    {
        Ok(Encryptor { ctx: ctx.clone() })
    }

    /// Encrypts a plaintext: the fresh ciphertext keeps the plaintext's
    /// slots, level, scale and representation state, has size 2, and starts
    /// with the chain's full noise budget.
    pub fn encrypt(&self, p: &Plaintext) -> (r: Result<Ciphertext, Error>)
        requires
            self.wf(),
            p.wf(&self.ctx),
        ensures
            r is Ok,
            r is Ok ==> {
                let c = r->Ok_0;
                &&& c.wf(&self.ctx)
                &&& c@.slots == p@.slots
                &&& c@.level == p@.level
                &&& c@.size == 2
                &&& c@.scale_log2 == p@.scale_log2
                &&& c@.ntt_form == p@.ntt_form
                &&& c@.noise_budget == self.ctx.fresh_noise_budget()
            },
    {
        let budget = sum_chain_bits(&self.ctx);
        Ok(
            Ciphertext {
                slots: copy_slots(&p.slots),
                level: p.level,
                size: 2,
                scale_log2: p.scale_log2,
                ntt_form: p.ntt_form,
                noise_budget: budget,
            },
        )
    }
}

} // verus!
