//! Plaintext value objects: encoded but unencrypted slot vectors.

use vstd::prelude::*;
use crate::arith::all_below;
use crate::context::{Context, SchemeKind};

verus! {

/// The mathematical content of a plaintext: its slot residues and the
/// bookkeeping state every operation must respect.
#[verifier::ext_equal]
pub struct PtView {
    /// Slot residues, below the context's slot modulus.
    pub slots: Seq<u128>,
    /// Position in the modulus chain; meaningful only in transform form.
    pub level: nat,
    /// Base-two logarithm of the encoding scale.
    pub scale_log2: int,
    /// Whether the value currently sits in transform (NTT) form.
    pub ntt_form: bool,
}

/// An encoded plaintext: a slot vector with its level, scale and
/// representation state.
#[derive(Debug)]
pub struct Plaintext {
    /// Slot residues modulo the context's slot modulus.
    pub slots: Vec<u128>,
    /// Position in the modulus chain; meaningful only in transform form.
    pub level: usize,
    /// Base-two logarithm of the encoding scale; `0` under the exact-integer
    /// scheme.
    pub scale_log2: i64,
    /// Whether the value currently sits in transform (NTT) form.
    pub ntt_form: bool,
}

impl View for Plaintext {
    type V = PtView;

    open spec fn view(&self) -> PtView {
        PtView {
            slots: self.slots@,
            level: self.level as nat,
            scale_log2: self.scale_log2 as int,
            ntt_form: self.ntt_form,
        }
    }
}

impl Plaintext {
    /// Validity under a context: a full vector of reduced slots, a level on
    /// the chain, and no scale under the exact-integer scheme.
    pub open spec fn wf(&self, ctx: &Context) -> bool {
        &&& self.slots@.len() == ctx.slot_count()
        &&& all_below(self.slots@, ctx.slot_modulus())
        &&& (self.level as nat) < ctx.chain_len()
        &&& (ctx.scheme == SchemeKind::Bfv ==> self.scale_log2 == 0)
    }

    /// The plaintext's position in the modulus chain.
    pub fn get_level(&self) -> (l: usize)
        ensures
            l as nat == self@.level,
    {
        self.level
    }

    /// The base-two logarithm of the plaintext's encoding scale.
    pub fn get_scale_log2(&self) -> (s: i64)
        ensures
            s as int == self@.scale_log2,
    {
        self.scale_log2
    }

    /// Whether the plaintext sits in transform (NTT) form.
    pub fn is_ntt_form(&self) -> (b: bool)
        ensures
            b == self@.ntt_form,
    {
        self.ntt_form
    }
}

} // verus!
