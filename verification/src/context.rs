//! The encryption context: scheme kind, polynomial degree and modulus chain.
//!
//! A context is immutable once built. The modulus chain is an ordered
//! sequence of coefficient-modulus levels; level `0` is the top of the chain
//! (all moduli present, where freshly encrypted values live) and level
//! `chain_len() - 1` is the bottom (one modulus remaining). Rescaling from
//! level `i` drops the last modulus still present, the one whose bit size is
//! `moduli_bits[chain_len() - 1 - i]`.
//!
//! Slot values of plaintexts and ciphertexts are modeled as residues: modulo
//! the plain modulus under the exact-integer scheme, and modulo `2^128` under
//! the approximate scheme, whose scaled fixed-point integers the model stores
//! in a 128-bit ring.

use vstd::prelude::*;

verus! {

/// The encryption scheme a context was built for.
#[derive(Clone, Copy, Debug, PartialEq, Eq, Structural)]
pub enum SchemeKind {
    /// Exact integer arithmetic modulo a plain modulus; no scale tracking,
    /// and the default representation state is coefficient form.
    Bfv,
    /// Approximate fixed-point arithmetic; every value carries an encoding
    /// scale, and the default representation state is transform form.
    Ckks,
}

/// The residue ring of slot values under the approximate scheme: `2^128`.
pub open spec fn ckks_modulus() -> int {
    0x1_0000_0000_0000_0000_0000_0000_0000_0000int
}

/// Supplies the modulus chain and scheme parameters; immutable once built.
#[derive(Debug)]
pub struct Context {
    /// Which scheme the chain was built for.
    pub scheme: SchemeKind,
    /// The polynomial modulus degree.
    pub degree: usize,
    /// Bit sizes of the coefficient moduli, top of the chain first.
    pub moduli_bits: Vec<u64>,
    /// The plain modulus; `0` when the scheme does not use one.
    pub plain_modulus: u64,
}

/// The sum of a sequence of bit sizes.
pub open spec fn bits_sum(s: Seq<u64>) -> int
    decreases s.len(),
{
    if s.len() == 0 {
        0
    } else {
        bits_sum(s.drop_last()) + s.last()
    }
}

impl Context {
    /// Which scheme the context was built for.
    pub open spec fn scheme_kind(&self) -> SchemeKind {
        self.scheme
    }

    /// The polynomial modulus degree.
    pub open spec fn poly_degree(&self) -> nat {
        self.degree as nat
    }

    /// The number of levels in the modulus chain.
    pub open spec fn chain_len(&self) -> nat {
        self.moduli_bits@.len()
    }

    /// The lowest level of the chain, past which nothing can be switched.
    pub open spec fn bottom_level(&self) -> nat {
        (self.chain_len() - 1) as nat
    }

    /// The bit sizes of the moduli in the chain, top of the chain first.
    pub open spec fn chain_bits(&self) -> Seq<u64> {
        self.moduli_bits@
    }

    /// The bit size of the modulus dropped when rescaling away from `level`.
    pub open spec fn dropped_bits(&self, level: nat) -> u64 {
        self.moduli_bits@[self.chain_len() - 1 - level]
    }

    /// The number of plaintext slots a value under this context encodes: the
    /// batched view is a `2 x (degree/2)` matrix under the exact-integer
    /// scheme, and a `degree/2` vector under the approximate scheme.
    pub open spec fn slot_count(&self) -> nat {
        if self.scheme == SchemeKind::Bfv {
            self.degree as nat
        } else {
            (self.degree / 2) as nat
        }
    }

    /// The width of one matrix row in the batched view.
    pub open spec fn row_size(&self) -> nat {
        (self.degree / 2) as nat
    }

    /// The modulus of the residue ring slot values are stored in.
    pub open spec fn slot_modulus(&self) -> int {
        if self.scheme == SchemeKind::Bfv {
            self.plain_modulus as int
        } else {
            ckks_modulus()
        }
    }

    /// The representation state values must be in for arithmetic: coefficient
    /// form under the exact-integer scheme, transform form under the
    /// approximate one.
    pub open spec fn default_ntt_form(&self) -> bool {
        self.scheme == SchemeKind::Ckks
    }

    /// The invariant noise budget of a freshly encrypted ciphertext: the
    /// total bit size of the modulus chain.
    pub open spec fn fresh_noise_budget(&self) -> int {
        bits_sum(self.moduli_bits@)
    }

    /// What makes scheme parameters acceptable: an even degree within the
    /// supported range, a chain of 1 to 64 moduli of 1 to 60 bits each, and a
    /// plain modulus of 2 to `2^60` exactly when the scheme tracks one.
    pub open spec fn wf(&self) -> bool {
        &&& 2 <= self.degree <= 65536
        &&& self.degree % 2 == 0
        &&& 1 <= self.moduli_bits@.len() <= 64
        &&& (forall|i: int|
            0 <= i < self.moduli_bits@.len() ==> 1 <= #[trigger] self.moduli_bits@[i] <= 60)
        &&& (self.scheme == SchemeKind::Bfv ==> 2 <= self.plain_modulus
            <= 0x1000_0000_0000_0000)
        &&& (self.scheme == SchemeKind::Ckks ==> self.plain_modulus == 0)
    }

    /// Whether two contexts carry the same scheme parameters.
    pub open spec fn matches(&self, other: &Context) -> bool {
        &&& self.scheme == other.scheme
        &&& self.degree == other.degree
        &&& self.moduli_bits@ == other.moduli_bits@
        &&& self.plain_modulus == other.plain_modulus
    }

    /// Builds a context from scheme parameters, validating them as the
    /// engine would: the parameters are rejected with
    /// [`Error::EngineFailure`](crate::error::Error) exactly when they break
    /// the well-formedness conditions of [`Context::wf`].
    pub fn new(scheme: SchemeKind, degree: usize, moduli_bits: Vec<u64>, plain_modulus: u64) -> (r:
        Result<Context, crate::error::Error>)
        ensures
            r is Ok <==> ({
                let c = Context { scheme, degree, moduli_bits: moduli_bits, plain_modulus };
                c.wf()
            }),
            r is Err ==> r == Result::<Context, crate::error::Error>::Err(
                crate::error::Error::EngineFailure,
            ),
            r is Ok ==> {
                let c = r->Ok_0;
                &&& c.scheme == scheme
                &&& c.degree == degree
                &&& c.moduli_bits@ == moduli_bits@
                &&& c.plain_modulus == plain_modulus
                &&& c.wf()
            },
    {
        if !(2 <= degree && degree <= 65536 && degree % 2 == 0) {
            return Err(crate::error::Error::EngineFailure);
        }
        if !(1 <= moduli_bits.len() && moduli_bits.len() <= 64) {
            return Err(crate::error::Error::EngineFailure);
        }
        let mut i: usize = 0;
        while i < moduli_bits.len()
            invariant
                0 <= i <= moduli_bits@.len(),
                forall|j: int| 0 <= j < i ==> 1 <= #[trigger] moduli_bits@[j] <= 60,
            decreases moduli_bits@.len() - i,
        {
            if moduli_bits[i] < 1 || moduli_bits[i] > 60 {
                return Err(crate::error::Error::EngineFailure);
            }
            i = i + 1;
        }
        match scheme {
            SchemeKind::Bfv => {
                if plain_modulus < 2 || plain_modulus > 0x1000_0000_0000_0000 {
                    return Err(crate::error::Error::EngineFailure);
                }
            },
            SchemeKind::Ckks => {
                if plain_modulus != 0 {
                    return Err(crate::error::Error::EngineFailure);
                }
            },
        }
        Ok(Context { scheme, degree, moduli_bits, plain_modulus })
    }

    /// Whether the context's parameters are well formed, as executable data.
    pub fn check_wf(&self) -> (b: bool)
        ensures
            b == self.wf(),
    {
        if !(2 <= self.degree && self.degree <= 65536 && self.degree % 2 == 0) {
            return false;
        }
        if !(1 <= self.moduli_bits.len() && self.moduli_bits.len() <= 64) {
            return false;
        }
        let mut i: usize = 0;
        while i < self.moduli_bits.len()
            invariant
                0 <= i <= self.moduli_bits@.len(),
                forall|j: int| 0 <= j < i ==> 1 <= #[trigger] self.moduli_bits@[j] <= 60,
            decreases self.moduli_bits@.len() - i,
        {
            if self.moduli_bits[i] < 1 || self.moduli_bits[i] > 60 {
                return false;
            }
            i = i + 1;
        }
        match self.scheme {
            SchemeKind::Bfv => 2 <= self.plain_modulus && self.plain_modulus
                <= 0x1000_0000_0000_0000,
            SchemeKind::Ckks => self.plain_modulus == 0,
        }
    }

    /// The scheme kind, as executable data.
    pub fn get_scheme(&self) -> (s: SchemeKind)
        ensures
            s == self.scheme_kind(),
    {
        self.scheme
    }

    /// The number of slots a value under this context encodes.
    pub fn get_slot_count(&self) -> (n: usize)
        ensures
            n == self.slot_count(),
    {
        match self.scheme {
            SchemeKind::Bfv => self.degree,
            SchemeKind::Ckks => self.degree / 2,
        }
    }

    /// The number of levels in the modulus chain.
    pub fn get_chain_len(&self) -> (n: usize)
        ensures
            n == self.chain_len(),
    {
        self.moduli_bits.len()
    }
}

impl Clone for Context {
    /// An exact copy of the context.
    fn clone(&self) -> (r: Self)
        ensures
            r.scheme == self.scheme,
            r.degree == self.degree,
            r.moduli_bits@ == self.moduli_bits@,
            r.plain_modulus == self.plain_modulus,
    {
        let mut bits: Vec<u64> = Vec::new();
        let mut i: usize = 0;
        while i < self.moduli_bits.len()
            invariant
                0 <= i <= self.moduli_bits@.len(),
                bits@ == self.moduli_bits@.take(i as int),
            decreases self.moduli_bits@.len() - i,
        {
            bits.push(self.moduli_bits[i]);
            proof {
                assert(bits@ =~= self.moduli_bits@.take(i + 1));
            }
            i = i + 1;
        }
        proof {
            assert(bits@ =~= self.moduli_bits@);
        }
        Context { scheme: self.scheme, degree: self.degree, moduli_bits: bits, plain_modulus: self.plain_modulus }
    }
}

} // verus!
