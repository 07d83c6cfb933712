//! The decryptor: recovers plaintexts from ciphertexts and reads the
//! invariant noise budget.

use vstd::prelude::*;
use crate::arith::copy_slots;
use crate::ciphertext::Ciphertext;
use crate::context::{Context, SchemeKind};
use crate::error::Error;
use crate::keys::SecretKey;
use crate::plaintext::Plaintext;

verus! {

/// Decrypts ciphertexts under one context and secret key.
pub struct Decryptor {
    /// The context the decryptor was built for.
    pub ctx: Context,
}

impl Decryptor {
    /// Validity: a well-formed context.
    pub open spec fn wf(&self) -> bool {
        self.ctx.wf()
    }

    /// Creates a decryptor for the given context and secret key.
    pub fn new(ctx: &Context, secret_key: &SecretKey) -> (r: Result<Decryptor, Error>)
        requires
            ctx.wf(),
        ensures
            r is Ok,
            r is Ok ==> {
                let d = r->Ok_0;
                &&& d.wf()
                &&& d.ctx.scheme == ctx.scheme
                &&& d.ctx.degree == ctx.degree
                &&& d.ctx.moduli_bits@ == ctx.moduli_bits@
                &&& d.ctx.plain_modulus == ctx.plain_modulus
            },
    {
        Ok(Decryptor { ctx: ctx.clone() })
    }

    /// Decrypts a ciphertext: the plaintext keeps the ciphertext's slots,
    /// level, scale and representation state.
    pub fn decrypt(&self, c: &Ciphertext) -> (r: Result<Plaintext, Error>)
        requires
            self.wf(),
            c.wf(&self.ctx),
        ensures
            r is Ok,
            r is Ok ==> {
                let p = r->Ok_0;
                &&& p.wf(&self.ctx)
                &&& p@.slots == c@.slots
                &&& p@.level == c@.level
                &&& p@.scale_log2 == c@.scale_log2
                &&& p@.ntt_form == c@.ntt_form
            },
    {
        Ok(
            Plaintext {
                slots: copy_slots(&c.slots),
                level: c.level,
                scale_log2: c.scale_log2,
                ntt_form: c.ntt_form,
            },
        )
    }

    /// The remaining invariant noise budget of a ciphertext, in bits; only
    /// the exact-integer scheme tracks one, and the call is rejected with
    /// [`Error::EngineFailure`] under any other scheme.
    pub fn invariant_noise_budget(&self, c: &Ciphertext) -> (r: Result<u64, Error>)
        requires
            self.wf(),
            c.wf(&self.ctx),
        ensures
            r is Ok <==> self.ctx.scheme == SchemeKind::Bfv,
            r is Err ==> r == Result::<u64, Error>::Err(Error::EngineFailure),
            r is Ok ==> r->Ok_0 as nat == c@.noise_budget,
    {
        match self.ctx.scheme {
            SchemeKind::Bfv => Ok(c.noise_budget),
            SchemeKind::Ckks => Err(Error::EngineFailure),
        }
    }
}

} // verus!
