//! Ciphertext value objects: encrypted slot vectors with their bookkeeping
//! state.
//!
//! A ciphertext carries, besides its slot residues, the metadata the
//! evaluator validates and propagates: its modulus-chain level, its encoding
//! scale, its size (the number of polynomial components, at least 2, growing
//! under multiplication and reduced by relinearization), its representation
//! state, and the invariant noise budget the model tracks.

use vstd::prelude::*;
use crate::arith::all_below;
use crate::context::{Context, SchemeKind};

verus! {

/// The mathematical content of a ciphertext.
#[verifier::ext_equal]
pub struct CtView {
    /// Slot residues, below the context's slot modulus.
    pub slots: Seq<u128>,
    /// Position in the modulus chain, `0` at the top.
    pub level: nat,
    /// Number of polynomial components; `2` is canonical and minimal.
    pub size: nat,
    /// Base-two logarithm of the encoding scale.
    pub scale_log2: int,
    /// Whether the value currently sits in transform (NTT) form.
    pub ntt_form: bool,
    /// Remaining invariant noise budget, in bits.
    pub noise_budget: nat,
}

/// An encrypted value: a slot vector with level, scale, size,
/// representation state and noise budget.
#[derive(Debug)]
pub struct Ciphertext {
    /// Slot residues modulo the context's slot modulus.
    pub slots: Vec<u128>,
    /// Position in the modulus chain, `0` at the top.
    pub level: usize,
    /// Number of polynomial components; `2` is canonical and minimal.
    pub size: usize,
    /// Base-two logarithm of the encoding scale; `0` under the exact-integer
    /// scheme.
    pub scale_log2: i64,
    /// Whether the value currently sits in transform (NTT) form.
    pub ntt_form: bool,
    /// Remaining invariant noise budget, in bits.
    pub noise_budget: u64,
}

impl View for Ciphertext {
    type V = CtView;

    open spec fn view(&self) -> CtView {
        CtView {
            slots: self.slots@,
            level: self.level as nat,
            size: self.size as nat,
            scale_log2: self.scale_log2 as int,
            ntt_form: self.ntt_form,
            noise_budget: self.noise_budget as nat,
        }
    }
}

impl Ciphertext {
    /// Validity under a context: a full vector of reduced slots, a level on
    /// the chain, a size of at least two, and no scale under the
    /// exact-integer scheme.
    pub open spec fn wf(&self, ctx: &Context) -> bool {
        &&& self.slots@.len() == ctx.slot_count()
        &&& all_below(self.slots@, ctx.slot_modulus())
        &&& (self.level as nat) < ctx.chain_len()
        &&& 2 <= self.size
        &&& (ctx.scheme == SchemeKind::Bfv ==> self.scale_log2 == 0)
    }

    /// The ciphertext's position in the modulus chain.
    pub fn get_level(&self) -> (l: usize)
        ensures
            l as nat == self@.level,
    {
        self.level
    }

    /// The number of polynomial components of the ciphertext.
    pub fn get_size(&self) -> (s: usize)
        ensures
            s as nat == self@.size,
    {
        self.size
    }

    /// The base-two logarithm of the ciphertext's encoding scale.
    pub fn get_scale_log2(&self) -> (s: i64)
        ensures
            s as int == self@.scale_log2,
    {
        self.scale_log2
    }

    /// Whether the ciphertext sits in transform (NTT) form.
    pub fn is_ntt_form(&self) -> (b: bool)
        ensures
            b == self@.ntt_form,
    {
        self.ntt_form
    }
}

impl Clone for Ciphertext {
    /// An exact copy of the ciphertext, content and metadata alike.
    fn clone(&self) -> (r: Self)
        ensures
            r@ == self@,
    {
        let r = Ciphertext {
            slots: crate::arith::copy_slots(&self.slots),
            level: self.level,
            size: self.size,
            scale_log2: self.scale_log2,
            ntt_form: self.ntt_form,
            noise_budget: self.noise_budget,
        };
        proof {
            assert(r@ =~= self@);
        }
        r
    }
}

} // verus!
