//! Sign function as a polynomial approximation.
//!
//! The sign of an encrypted value `x` in `[-1, 1]` is approximated by a
//! fixed pipeline of odd-polynomial stages with precomputed rational
//! coefficients: a degree-3 stage, a degree-7 stage, and a degree-15 stage
//! applied twice. Every stage multiplies the ciphertext by the
//! plaintext-encoded coefficient vector, relinearizes, and rescales to the
//! next level, so the scale stays bounded and each stage pays exactly one
//! level of multiplicative depth. No error is raised for out-of-range
//! inputs: approximation quality degrades silently, a documented caveat of
//! the composition.
//!
//! Each coefficient list is stored as the integers `c * 2^40`, the encoding
//! of the published rational coefficients at the composition's scale; every
//! denominator divides `2^40`, so the encoding is exact.

use vstd::prelude::*;
use crate::arith::reduce_signed;
use crate::ciphertext::{Ciphertext, CtView};
use crate::context::{Context, SchemeKind};
use crate::error::Error;
use crate::evaluator::{
    mul_plain_ct, relin_ct, rescale_ct, Evaluator, EvaluatorOps,
};
use crate::keys::RelinearizationKey;
use crate::plaintext::{Plaintext, PtView};

verus! {

/// The scale, in bits, at which the composition encodes its coefficients.
pub const SIGN_SCALE_LOG2: i64 = 40;

/// The degree-1 coefficient list, as `c * 2^40`: `0, 3/2, 0, -1/2`.
pub open spec fn coeffs_n1() -> Seq<i64> {
    seq![0i64, 1649267441664i64, 0i64, -549755813888i64]
}

/// The degree-3 coefficient list, as `c * 2^40`:
/// `0, 35/16, 0, -35/16, 0, 21/16, 0, -5/16`.
pub open spec fn coeffs_n3() -> Seq<i64> {
    seq![0i64, 2405181685760i64, 0i64, -2405181685760i64, 0i64, 1443109011456i64, 0i64, -343597383680i64]
}

/// The degree-4 coefficient list, as `c * 2^40`:
/// `0, 315/128, 0, -420/128, 0, 378/128, 0, -180/128, 0, 35/128`.
pub open spec fn coeffs_n4() -> Seq<i64> {
    seq![
        0i64,
        2705829396480i64,
        0i64,
        -3607772528640i64,
        0i64,
        3246995275776i64,
        0i64,
        -1546188226560i64,
        0i64,
        300647710720i64,
    ]
}

/// The degree-7 coefficient list, as `c * 2^40`: `0, 6435/2048, 0,
/// -15015/2048, 0, 27027/2048, 0, -32175/2048, 0, 25025/2048, 0,
/// -12285/2048, 0, 3465/2048, 0, -429/2048`.
pub open spec fn coeffs_n7() -> Seq<i64> {
    seq![
        0i64,
        3454764318720i64,
        0i64,
        -8061116743680i64,
        0i64,
        14510010138624i64,
        0i64,
        -17273821593600i64,
        0i64,
        13435194572800i64,
        0i64,
        -6595459153920i64,
        0i64,
        1860257710080i64,
        0i64,
        -230317621248i64,
    ]
}

/// The degree-15 coefficient list, as `c * 2^40`, numerators
/// `300540195, -1502700975, ..., -9694845` over `67108864`.
pub open spec fn coeffs_n15() -> Seq<i64> {
    seq![
        0i64,
        4924050554880i64,
        0i64,
        -24620252774400i64,
        0i64,
        103405061652480i64,
        0i64,
        -320063286067200i64,
        0i64,
        746814334156800i64,
        0i64,
        -1344265801482240i64,
        0i64,
        1895759463628800i64,
        0i64,
        -2112417688043520i64,
        0i64,
        1863897960038400i64,
        0i64,
        -1297098580377600i64,
        0i64,
        704139229347840i64,
        0i64,
        -292231695974400i64,
        0i64,
        89617720098816i64,
        0i64,
        -19149085491200i64,
        0i64,
        2546922700800i64,
        0i64,
        -158840340480i64,
    ]
}

/// The degree-1 coefficient list, as executable data.
pub fn coefficients_n1() -> (r: Vec<i64>)
    ensures
        r@ == coeffs_n1(),
{
    let r = vec![0, 1649267441664, 0, -549755813888i64];
    proof {
        assert(r@ =~= coeffs_n1());
    }
    r
}

/// The degree-3 coefficient list, as executable data.
pub fn coefficients_n3() -> (r: Vec<i64>)
    ensures
        r@ == coeffs_n3(),
{
    let r = vec![0, 2405181685760, 0, -2405181685760, 0, 1443109011456, 0, -343597383680i64];
    proof {
        assert(r@ =~= coeffs_n3());
    }
    r
}

/// The degree-4 coefficient list, as executable data.
pub fn coefficients_n4() -> (r: Vec<i64>)
    ensures
        r@ == coeffs_n4(),
{
    let r = vec![
        0,
        2705829396480,
        0,
        -3607772528640,
        0,
        3246995275776,
        0,
        -1546188226560,
        0,
        300647710720i64,
    ];
    proof {
        assert(r@ =~= coeffs_n4());
    }
    r
}

/// The degree-7 coefficient list, as executable data.
pub fn coefficients_n7() -> (r: Vec<i64>)
    ensures
        r@ == coeffs_n7(),
{
    let r = vec![
        0,
        3454764318720,
        0,
        -8061116743680,
        0,
        14510010138624,
        0,
        -17273821593600,
        0,
        13435194572800,
        0,
        -6595459153920,
        0,
        1860257710080,
        0,
        -230317621248i64,
    ];
    proof {
        assert(r@ =~= coeffs_n7());
    }
    r
}

/// The degree-15 coefficient list, as executable data.
pub fn coefficients_n15() -> (r: Vec<i64>)
    ensures
        r@ == coeffs_n15(),
{
    let r = vec![
        0,
        4924050554880,
        0,
        -24620252774400,
        0,
        103405061652480,
        0,
        -320063286067200,
        0,
        746814334156800,
        0,
        -1344265801482240,
        0,
        1895759463628800,
        0,
        -2112417688043520,
        0,
        1863897960038400,
        0,
        -1297098580377600,
        0,
        704139229347840,
        0,
        -292231695974400,
        0,
        89617720098816,
        0,
        -19149085491200,
        0,
        2546922700800,
        0,
        -158840340480i64,
    ];
    proof {
        assert(r@ =~= coeffs_n15());
    }
    r
}

/// A coefficient list encoded as a plaintext at the given level: one residue
/// per coefficient, zeros beyond, at the composition's scale, in transform
/// form.
pub open spec fn coeff_plaintext_view(ctx: Context, cs: Seq<i64>, level: nat) -> PtView {
    PtView {
        slots: Seq::new(
            ctx.slot_count(),
            |i: int|
                if 0 <= i < cs.len() {
                    ((cs[i] as int) % ctx.slot_modulus()) as u128
                } else {
                    0u128
                },
        ),
        level: level,
        scale_log2: SIGN_SCALE_LOG2 as int,
        ntt_form: true,
    }
}

/// One stage of the composition: multiply by the encoded coefficients,
/// relinearize, rescale to the next level.
pub open spec fn sign_stage(ctx: Context, cs: Seq<i64>, a: CtView) -> CtView {
    rescale_ct(
        ctx.dropped_bits(a.level),
        relin_ct(
            mul_plain_ct(ctx.slot_modulus(), a, coeff_plaintext_view(ctx, cs, a.level)),
        ),
    )
}

/// The whole composition: the degree-3 stage, the degree-7 stage, and the
/// degree-15 stage applied twice.
pub open spec fn sign_ct(ctx: Context, a: CtView) -> CtView {
    sign_stage(
        ctx,
        coeffs_n15(),
        sign_stage(ctx, coeffs_n15(), sign_stage(ctx, coeffs_n7(), sign_stage(ctx, coeffs_n3(), a))),
    )
}

/// Encodes a coefficient list as a plaintext at the given level.
fn encode_coefficients(ctx: &Context, cs: &Vec<i64>, level: usize) -> (p: Plaintext)
    requires
        ctx.wf(),
        ctx.scheme_kind() == SchemeKind::Ckks,
        cs@.len() <= ctx.slot_count(),
        (level as nat) < ctx.chain_len(),
    ensures
        p@ == coeff_plaintext_view(*ctx, cs@, level as nat),
        p.wf(ctx),
{
    let n = ctx.get_slot_count();
    let mut slots: Vec<u128> = Vec::new();
    let mut i: usize = 0;
    while i < cs.len()
        invariant
            ctx.wf(),
            cs@.len() <= ctx.slot_count(),
            0 <= i <= cs@.len(),
            slots@.len() == i,
            forall|j: int|
                0 <= j < i ==> #[trigger] slots@[j] == ((cs@[j] as int) % ctx.slot_modulus())
                    as u128,
            crate::arith::all_below(slots@, ctx.slot_modulus()),
        decreases cs@.len() - i,
    {
        slots.push(reduce_signed(ctx, cs[i]));
        i = i + 1;
    }
    while slots.len() < n
        invariant
            ctx.wf(),
            n as nat == ctx.slot_count(),
            cs@.len() <= slots@.len() <= n,
            forall|j: int|
                0 <= j < cs@.len() ==> #[trigger] slots@[j] == ((cs@[j] as int)
                    % ctx.slot_modulus()) as u128,
            forall|j: int| cs@.len() <= j < slots@.len() ==> #[trigger] slots@[j] == 0,
            crate::arith::all_below(slots@, ctx.slot_modulus()),
        decreases n - slots@.len(),
    {
        slots.push(0);
    }
    let p = Plaintext { slots, level, scale_log2: SIGN_SCALE_LOG2, ntt_form: true };
    proof {
        assert(p@.slots =~= coeff_plaintext_view(*ctx, cs@, level as nat).slots);
        assert(p@ =~= coeff_plaintext_view(*ctx, cs@, level as nat));
    }
    p
}

/// [`Evaluator`] extension that evaluates the sign of a ciphertext; useful
/// for performing comparisons between encrypted values.
pub trait SignEvaluator: EvaluatorOps {
    /// Evaluates the sign of the ciphertext in place, as the fixed
    /// composition [`sign_ct`] of coefficient stages: each stage multiplies
    /// by a plaintext-encoded coefficient list, relinearizes, and rescales,
    /// so the whole composition advances the level by exactly four steps and
    /// leaves the ciphertext at the canonical size of 2. The caller supplies
    /// a ciphertext already within the approximation's valid input range;
    /// out-of-range inputs degrade the approximation silently.
    ///
    /// # Arguments
    /// * `a` - The ciphertext to evaluate the sign of.
    /// * `ctx` - The context, which must be the evaluator's own.
    /// * `relin_keys` - Relinearization keys covering the operand's size.
    fn sign_inplace(&self, a: &mut Self::Ciphertext, ctx: &Context, relin_keys: &RelinearizationKey)
        -> (r: Result<(), Error>)
        requires
            self.wf(),
            self.ct_wf(old(a)),
            self.evaluation_context().matches(ctx),
            self.evaluation_context().scheme_kind() == SchemeKind::Ckks,
            self.evaluation_context().slot_count() >= 32,
            Self::ct(old(a)).ntt_form == self.evaluation_context().default_ntt_form(),
            Self::ct(old(a)).level + 4 <= self.evaluation_context().bottom_level(),
            relin_keys.key_count() + 2 >= Self::ct(old(a)).size,
            i64::MIN + 240 <= Self::ct(old(a)).scale_log2 <= i64::MAX - 160,
        ensures
            r is Ok,
            self.ct_wf(final(a)),
            Self::ct(final(a)) == sign_ct(self.evaluation_context(), Self::ct(old(a))),
            Self::ct(final(a)).level == Self::ct(old(a)).level + 4,
            Self::ct(final(a)).size == 2,
    ;
}

impl SignEvaluator for Evaluator {
    fn sign_inplace(&self, a: &mut Ciphertext, ctx: &Context, relin_keys: &RelinearizationKey)
        -> (r: Result<(), Error>) {
        let ghost ctxv = self.ctx;
        let ghost a0 = a@;
        let c3 = coefficients_n3();
        let p3 = encode_coefficients(&self.ctx, &c3, a.get_level());
        match self.multiply_plain_inplace(a, &p3) {
            Ok(()) => (),
            Err(_) => {
                proof {
                    assert(false);
                }
                return Err(Error::EngineFailure);
            },
        }
        match self.relinearize_inplace(a, relin_keys) {
            Ok(()) => (),
            Err(_) => {
                proof {
                    assert(false);
                }
                return Err(Error::EngineFailure);
            },
        }
        match self.rescale_to_next_inplace(a) {
            Ok(()) => (),
            Err(_) => {
                proof {
                    assert(false);
                }
                return Err(Error::EngineFailure);
            },
        }
        proof {
            assert(a@ == sign_stage(ctxv, coeffs_n3(), a0));
        }
        let ghost a1 = a@;
        let c7 = coefficients_n7();
        let p7 = encode_coefficients(&self.ctx, &c7, a.get_level());
        match self.multiply_plain_inplace(a, &p7) {
            Ok(()) => (),
            Err(_) => {
                proof {
                    assert(false);
                }
                return Err(Error::EngineFailure);
            },
        }
        match self.relinearize_inplace(a, relin_keys) {
            Ok(()) => (),
            Err(_) => {
                proof {
                    assert(false);
                }
                return Err(Error::EngineFailure);
            },
        }
        match self.rescale_to_next_inplace(a) {
            Ok(()) => (),
            Err(_) => {
                proof {
                    assert(false);
                }
                return Err(Error::EngineFailure);
            },
        }
        proof {
            assert(a@ == sign_stage(ctxv, coeffs_n7(), a1));
        }
        let ghost a2 = a@;
        let c15 = coefficients_n15();
        let p15 = encode_coefficients(&self.ctx, &c15, a.get_level());
        match self.multiply_plain_inplace(a, &p15) {
            Ok(()) => (),
            Err(_) => {
                proof {
                    assert(false);
                }
                return Err(Error::EngineFailure);
            },
        }
        match self.relinearize_inplace(a, relin_keys) {
            Ok(()) => (),
            Err(_) => {
                proof {
                    assert(false);
                }
                return Err(Error::EngineFailure);
            },
        }
        match self.rescale_to_next_inplace(a) {
            Ok(()) => (),
            Err(_) => {
                proof {
                    assert(false);
                }
                return Err(Error::EngineFailure);
            },
        }
        proof {
            assert(a@ == sign_stage(ctxv, coeffs_n15(), a2));
        }
        let ghost a3 = a@;
        let p15b = encode_coefficients(&self.ctx, &c15, a.get_level());
        match self.multiply_plain_inplace(a, &p15b) {
            Ok(()) => (),
            Err(_) => {
                proof {
                    assert(false);
                }
                return Err(Error::EngineFailure);
            },
        }
        match self.relinearize_inplace(a, relin_keys) {
            Ok(()) => (),
            Err(_) => {
                proof {
                    assert(false);
                }
                return Err(Error::EngineFailure);
            },
        }
        match self.rescale_to_next_inplace(a) {
            Ok(()) => (),
            Err(_) => {
                proof {
                    assert(false);
                }
                return Err(Error::EngineFailure);
            },
        }
        proof {
            assert(a@ == sign_stage(ctxv, coeffs_n15(), a3));
            assert(a@ == sign_ct(ctxv, a0));
        }
        Ok(())
    }
}

} // verus!
