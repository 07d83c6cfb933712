//! Encoders: the boundary between native integer vectors and plaintext slot
//! vectors.
//!
//! Under the exact-integer scheme a vector of signed integers is stored as
//! residues modulo the plain modulus and recovered through the centered
//! representative. Under the approximate scheme a value `v` encoded at scale
//! `2^e` is stored as the residue of the scaled integer `v * 2^e`; decoding
//! recovers the centered scaled integer, which the caller divides by the
//! scale.

use vstd::prelude::*;
use vstd::arithmetic::power2::pow2;
use crate::arith::{all_below, centered, reduce_signed, pow2_slot, slot_mul};
use crate::context::{Context, SchemeKind};
use crate::error::Error;
use crate::plaintext::Plaintext;

verus! {

/// Encodes signed integer vectors under the exact-integer scheme, viewing
/// the slots as a batched `2 x (degree/2)` matrix.
pub struct BFVEncoder {
    /// The context the encoder was built for.
    pub ctx: Context,
}

impl BFVEncoder {
    /// Validity: a well-formed context of the exact-integer scheme.
    pub open spec fn wf(&self) -> bool {
        &&& self.ctx.wf()
        &&& self.ctx.scheme == SchemeKind::Bfv
    }

    /// Creates an encoder for the context; rejected with
    /// [`Error::EngineFailure`] exactly when the context does not use the
    /// exact-integer scheme.
    pub fn new(ctx: &Context) -> (r: Result<BFVEncoder, Error>)
        requires
            ctx.wf(),
        ensures
            r is Ok <==> ctx.scheme == SchemeKind::Bfv,
            r is Err ==> r == Result::<BFVEncoder, Error>::Err(Error::EngineFailure),
            r is Ok ==> {
                let e = r->Ok_0;
                &&& e.wf()
                &&& e.ctx.scheme == ctx.scheme
                &&& e.ctx.degree == ctx.degree
                &&& e.ctx.moduli_bits@ == ctx.moduli_bits@
                &&& e.ctx.plain_modulus == ctx.plain_modulus
            },
    {
        match ctx.scheme {
            SchemeKind::Bfv => Ok(BFVEncoder { ctx: ctx.clone() }),
            SchemeKind::Ckks => Err(Error::EngineFailure),
        }
    }

    /// The number of slots one plaintext holds.
    pub fn get_slot_count(&self) -> (n: usize)
        ensures
            n as nat == self.ctx.slot_count(),
    {
        self.ctx.get_slot_count()
    }

    /// Encodes a vector of signed integers, one residue per slot, padding
    /// with zeros; rejected with [`Error::EngineFailure`] exactly when the
    /// vector holds more values than there are slots.
    pub fn encode_i64(&self, values: &[i64]) -> (r: Result<Plaintext, Error>)
        requires
            self.wf(),
        ensures
            r is Ok <==> values@.len() <= self.ctx.slot_count(),
            r is Err ==> r == Result::<Plaintext, Error>::Err(Error::EngineFailure),
            r is Ok ==> {
                let p = r->Ok_0;
                &&& p.wf(&self.ctx)
                &&& p@.slots.len() == self.ctx.slot_count()
                &&& (forall|i: int|
                    0 <= i < values@.len() ==> #[trigger] p@.slots[i] == (values@[i] as int)
                        % self.ctx.slot_modulus())
                &&& (forall|i: int|
                    values@.len() <= i < p@.slots.len() ==> #[trigger] p@.slots[i] == 0)
                &&& p@.level == 0
                &&& p@.scale_log2 == 0
                &&& p@.ntt_form == false
            },
    {
        let n = self.ctx.get_slot_count();
        if values.len() > n {
            return Err(Error::EngineFailure);
        }
        let mut slots: Vec<u128> = Vec::new();
        let mut i: usize = 0;
        while i < values.len()
            invariant
                self.wf(),
                values@.len() <= self.ctx.slot_count(),
                0 <= i <= values@.len(),
                slots@.len() == i,
                forall|j: int|
                    0 <= j < i ==> #[trigger] slots@[j] == (values@[j] as int)
                        % self.ctx.slot_modulus(),
                all_below(slots@, self.ctx.slot_modulus()),
            decreases values@.len() - i,
        {
            slots.push(reduce_signed(&self.ctx, values[i]));
            i = i + 1;
        }
        while slots.len() < n
            invariant
                self.wf(),
                n as nat == self.ctx.slot_count(),
                values@.len() <= slots@.len() <= n,
                forall|j: int|
                    0 <= j < values@.len() ==> #[trigger] slots@[j] == (values@[j] as int)
                        % self.ctx.slot_modulus(),
                forall|j: int| values@.len() <= j < slots@.len() ==> #[trigger] slots@[j] == 0,
                all_below(slots@, self.ctx.slot_modulus()),
            decreases n - slots@.len(),
        {
            slots.push(0);
        }
        Ok(Plaintext { slots, level: 0, scale_log2: 0, ntt_form: false })
    }

    /// Decodes a plaintext back to signed integers: the centered
    /// representative of each slot residue.
    pub fn decode_i64(&self, p: &Plaintext) -> (r: Result<Vec<i64>, Error>)
        requires
            self.wf(),
            p.wf(&self.ctx),
        ensures
            r is Ok,
            r is Ok ==> {
                let v = r->Ok_0;
                &&& v@.len() == p@.slots.len()
                &&& (forall|i: int|
                    0 <= i < v@.len() ==> #[trigger] v@[i] == centered(
                        self.ctx.slot_modulus(),
                        p@.slots[i] as int,
                    ))
            },
    {
        let t = self.ctx.plain_modulus as u128;
        let mut v: Vec<i64> = Vec::new();
        let mut i: usize = 0;
        while i < p.slots.len()
            invariant
                self.wf(),
                p.wf(&self.ctx),
                t == self.ctx.plain_modulus,
                0 <= i <= p@.slots.len(),
                v@.len() == i,
                forall|j: int|
                    0 <= j < i ==> #[trigger] v@[j] == centered(
                        self.ctx.slot_modulus(),
                        p@.slots[j] as int,
                    ),
            decreases p@.slots.len() - i,
        {
            let s = p.slots[i];
            let c: i64 = if 2 * s < t {
                s as i64
            } else {
                -((t - s) as i64)
            };
            v.push(c);
            i = i + 1;
        }
        Ok(v)
    }
}

/// Encodes scaled fixed-point integer vectors under the approximate scheme.
pub struct CKKSEncoder {
    /// The context the encoder was built for.
    pub ctx: Context,
    /// Base-two logarithm of the encoding scale.
    pub scale_log2: u32,
}

impl CKKSEncoder {
    /// Validity: a well-formed context of the approximate scheme and a
    /// supported scale.
    pub open spec fn wf(&self) -> bool {
        &&& self.ctx.wf()
        &&& self.ctx.scheme == SchemeKind::Ckks
        &&& self.scale_log2 <= 120
    }

    /// Creates an encoder at scale `2^scale_log2`; rejected with
    /// [`Error::EngineFailure`] exactly when the context does not use the
    /// approximate scheme or the scale exceeds the supported range.
    pub fn new(ctx: &Context, scale_log2: u32) -> (r: Result<CKKSEncoder, Error>)
        requires
            ctx.wf(),
        ensures
            r is Ok <==> (ctx.scheme == SchemeKind::Ckks && scale_log2 <= 120),
            r is Err ==> r == Result::<CKKSEncoder, Error>::Err(Error::EngineFailure),
            r is Ok ==> {
                let e = r->Ok_0;
                &&& e.wf()
                &&& e.scale_log2 == scale_log2
                &&& e.ctx.scheme == ctx.scheme
                &&& e.ctx.degree == ctx.degree
                &&& e.ctx.moduli_bits@ == ctx.moduli_bits@
                &&& e.ctx.plain_modulus == ctx.plain_modulus
            },
    {
        match ctx.scheme {
            SchemeKind::Ckks => {
                if scale_log2 > 120 {
                    Err(Error::EngineFailure)
                } else {
                    Ok(CKKSEncoder { ctx: ctx.clone(), scale_log2 })
                }
            },
            SchemeKind::Bfv => Err(Error::EngineFailure),
        }
    }

    /// The number of slots one plaintext holds.
    pub fn get_slot_count(&self) -> (n: usize)
        ensures
            n as nat == self.ctx.slot_count(),
    {
        self.ctx.get_slot_count()
    }

    /// Encodes a vector of integer values at the encoder's scale: slot `i`
    /// holds the residue of `values[i] * 2^scale_log2`, and the rest are
    /// zero. Rejected with [`Error::EngineFailure`] exactly when the vector
    /// holds more values than there are slots.
    pub fn encode_i64(&self, values: &[i64]) -> (r: Result<Plaintext, Error>)
        requires
            self.wf(),
        ensures
            r is Ok <==> values@.len() <= self.ctx.slot_count(),
            r is Err ==> r == Result::<Plaintext, Error>::Err(Error::EngineFailure),
            r is Ok ==> {
                let p = r->Ok_0;
                &&& p.wf(&self.ctx)
                &&& p@.slots.len() == self.ctx.slot_count()
                &&& (forall|i: int|
                    0 <= i < values@.len() ==> #[trigger] p@.slots[i] == ((values@[i] as int)
                        * pow2(self.scale_log2 as nat)) % self.ctx.slot_modulus())
                &&& (forall|i: int|
                    values@.len() <= i < p@.slots.len() ==> #[trigger] p@.slots[i] == 0)
                &&& p@.level == 0
                &&& p@.scale_log2 == self.scale_log2
                &&& p@.ntt_form == true
            },
    {
        let n = self.ctx.get_slot_count();
        if values.len() > n {
            return Err(Error::EngineFailure);
        }
        let scale = pow2_slot(&self.ctx, self.scale_log2);
        let mut slots: Vec<u128> = Vec::new();
        let mut i: usize = 0;
        while i < values.len()
            invariant
                self.wf(),
                values@.len() <= self.ctx.slot_count(),
                scale == (pow2(self.scale_log2 as nat) as int) % self.ctx.slot_modulus(),
                scale < self.ctx.slot_modulus(),
                0 <= i <= values@.len(),
                slots@.len() == i,
                forall|j: int|
                    0 <= j < i ==> #[trigger] slots@[j] == ((values@[j] as int) * pow2(
                        self.scale_log2 as nat,
                    )) % self.ctx.slot_modulus(),
                all_below(slots@, self.ctx.slot_modulus()),
            decreases values@.len() - i,
        {
            let v = reduce_signed(&self.ctx, values[i]);
            let s = slot_mul(&self.ctx, v, scale);
            proof {
                vstd::arithmetic::div_mod::lemma_mul_mod_noop_general(
                    values@[i as int] as int,
                    pow2(self.scale_log2 as nat) as int,
                    self.ctx.slot_modulus(),
                );
            }
            slots.push(s);
            i = i + 1;
        }
        while slots.len() < n
            invariant
                self.wf(),
                n as nat == self.ctx.slot_count(),
                values@.len() <= slots@.len() <= n,
                forall|j: int|
                    0 <= j < values@.len() ==> #[trigger] slots@[j] == ((values@[j] as int) * pow2(
                        self.scale_log2 as nat,
                    )) % self.ctx.slot_modulus(),
                forall|j: int| values@.len() <= j < slots@.len() ==> #[trigger] slots@[j] == 0,
                all_below(slots@, self.ctx.slot_modulus()),
            decreases n - slots@.len(),
        {
            slots.push(0);
        }
        Ok(Plaintext { slots, level: 0, scale_log2: self.scale_log2 as i64, ntt_form: true })
    }

    /// Decodes a plaintext to centered scaled integers: entry `i` is the
    /// signed value of slot `i`, still carrying the plaintext's scale. The
    /// caller recovers the encoded value by dividing by `2^scale_log2` of
    /// the plaintext.
    pub fn decode_i128(&self, p: &Plaintext) -> (r: Result<Vec<i128>, Error>)
        requires
            self.wf(),
            p.wf(&self.ctx),
        ensures
            r is Ok,
            r is Ok ==> {
                let v = r->Ok_0;
                &&& v@.len() == p@.slots.len()
                &&& (forall|i: int|
                    0 <= i < v@.len() ==> #[trigger] v@[i] == centered(
                        self.ctx.slot_modulus(),
                        p@.slots[i] as int,
                    ))
            },
    {
        let mut v: Vec<i128> = Vec::new();
        let mut i: usize = 0;
        while i < p.slots.len()
            invariant
                self.wf(),
                p.wf(&self.ctx),
                0 <= i <= p@.slots.len(),
                v@.len() == i,
                forall|j: int|
                    0 <= j < i ==> #[trigger] v@[j] == centered(
                        self.ctx.slot_modulus(),
                        p@.slots[j] as int,
                    ),
            decreases p@.slots.len() - i,
        {
            let s = p.slots[i];
            let c: i128 = if s < 0x8000_0000_0000_0000_0000_0000_0000_0000u128 {
                s as i128
            } else if s == 0x8000_0000_0000_0000_0000_0000_0000_0000u128 {
                i128::MIN
            } else {
                -((0u128.wrapping_sub(s)) as i128)
            };
            v.push(c);
            i = i + 1;
        }
        Ok(v)
    }
}

} // verus!
