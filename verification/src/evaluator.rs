//! The evaluator: one algebraic transformation per call, validating and
//! propagating the level, scale, size and representation metadata of every
//! operand.
//!
//! Every contract states exactly which inputs succeed and which error each
//! rejected input raises. Checks happen in a fixed order: representation
//! state first, then chain level, then encoding scale, then key
//! sufficiency. The evaluator is stateless with respect to ciphertext
//! content and holds only its context.

use vstd::prelude::*;
use crate::arith::{
    all_below, mod_add, mod_mul, mod_neg, mod_sub, slots_add, slots_mul, slots_neg, slots_sub,
};
use crate::ciphertext::{Ciphertext, CtView};
use crate::context::{Context, SchemeKind};
use crate::error::Error;
use crate::keys::{GaloisKey, RelinearizationKey};
use crate::plaintext::{Plaintext, PtView};

verus! {

/// The smaller of two naturals.
pub open spec fn nat_min(a: nat, b: nat) -> nat {
    if a <= b {
        a
    } else {
        b
    }
}

/// Subtraction on naturals, floored at zero.
pub open spec fn sub_floor(a: nat, b: nat) -> nat {
    if a >= b {
        (a - b) as nat
    } else {
        0
    }
}

/// The elementwise modular negation of a slot sequence.
pub open spec fn neg_slots_view(m: int, a: Seq<u128>) -> Seq<u128> {
    Seq::new(a.len(), |i: int| mod_neg(m, a[i] as int) as u128)
}

/// The elementwise modular sum of two slot sequences.
pub open spec fn add_slots_view(m: int, a: Seq<u128>, b: Seq<u128>) -> Seq<u128> {
    Seq::new(a.len(), |i: int| mod_add(m, a[i] as int, b[i] as int) as u128)
}

/// The elementwise modular difference of two slot sequences.
pub open spec fn sub_slots_view(m: int, a: Seq<u128>, b: Seq<u128>) -> Seq<u128> {
    Seq::new(a.len(), |i: int| mod_sub(m, a[i] as int, b[i] as int) as u128)
}

/// The elementwise modular product of two slot sequences.
pub open spec fn mul_slots_view(m: int, a: Seq<u128>, b: Seq<u128>) -> Seq<u128> {
    Seq::new(a.len(), |i: int| mod_mul(m, a[i] as int, b[i] as int) as u128)
}

/// What negation makes of a ciphertext: slots negated, metadata untouched.
pub open spec fn neg_ct(m: int, a: CtView) -> CtView {
    CtView { slots: neg_slots_view(m, a.slots), ..a }
}

/// What addition makes of two ciphertexts at equal level and scale: slots
/// added, the larger size, the worse noise budget, the shared metadata.
pub open spec fn add_ct(m: int, a: CtView, b: CtView) -> CtView {
    CtView {
        slots: add_slots_view(m, a.slots, b.slots),
        size: if a.size >= b.size {
            a.size
        } else {
            b.size
        },
        noise_budget: nat_min(a.noise_budget, b.noise_budget),
        ..a
    }
}

/// What subtraction makes of two ciphertexts at equal level and scale.
pub open spec fn sub_ct(m: int, a: CtView, b: CtView) -> CtView {
    CtView {
        slots: sub_slots_view(m, a.slots, b.slots),
        size: if a.size >= b.size {
            a.size
        } else {
            b.size
        },
        noise_budget: nat_min(a.noise_budget, b.noise_budget),
        ..a
    }
}

/// What multiplication makes of two ciphertexts at equal level: slots
/// multiplied, scales added, sizes summed less one, and the noise budget
/// charged the product of the operand sizes. Squaring is exactly this
/// applied to one operand twice.
pub open spec fn mul_ct(m: int, a: CtView, b: CtView) -> CtView {
    CtView {
        slots: mul_slots_view(m, a.slots, b.slots),
        size: (a.size + b.size - 1) as nat,
        scale_log2: a.scale_log2 + b.scale_log2,
        noise_budget: sub_floor(nat_min(a.noise_budget, b.noise_budget), a.size * b.size),
        ..a
    }
}

/// What relinearization makes of a ciphertext: size reduced to the
/// canonical 2, slot content and all other metadata untouched.
pub open spec fn relin_ct(a: CtView) -> CtView {
    CtView { size: 2, ..a }
}

/// What multiplying a ciphertext by a plaintext at equal level makes: slots
/// multiplied, scales added, size and level kept.
pub open spec fn mul_plain_ct(m: int, a: CtView, p: PtView) -> CtView {
    CtView {
        slots: mul_slots_view(m, a.slots, p.slots),
        scale_log2: a.scale_log2 + p.scale_log2,
        ..a
    }
}

/// What adding a plaintext to a ciphertext at equal level and scale makes.
pub open spec fn add_plain_ct(m: int, a: CtView, p: PtView) -> CtView {
    CtView { slots: add_slots_view(m, a.slots, p.slots), ..a }
}

/// What subtracting a plaintext from a ciphertext at equal level and scale
/// makes.
pub open spec fn sub_plain_ct(m: int, a: CtView, p: PtView) -> CtView {
    CtView { slots: sub_slots_view(m, a.slots, p.slots), ..a }
}

/// Whether a plaintext operand's level binds it: only transform-resident
/// plaintexts carry a chain position.
pub open spec fn plain_level_bound(p: PtView) -> bool {
    p.ntt_form
}


/// What a modulus switch makes of a ciphertext: one step down the chain,
/// slots and scale untouched.
pub open spec fn modswitch_ct(a: CtView) -> CtView {
    CtView { level: (a.level + 1) as nat, ..a }
}

/// What a modulus switch makes of a transform-resident plaintext.
pub open spec fn modswitch_pt(p: PtView) -> PtView {
    PtView { level: (p.level + 1) as nat, ..p }
}

/// Every slot rescaled by `2^b`.
pub open spec fn rescale_slots_view(s: Seq<u128>, b: nat) -> Seq<u128> {
    Seq::new(s.len(), |i: int| crate::arith::rescale_slot_spec(s[i], b))
}

/// What one rescale step makes of a ciphertext: the dropped modulus's
/// magnitude divides both the scale and the slots, and the level advances by
/// exactly one.
pub open spec fn rescale_ct(bits: u64, a: CtView) -> CtView {
    CtView {
        slots: rescale_slots_view(a.slots, bits as nat),
        level: (a.level + 1) as nat,
        scale_log2: a.scale_log2 - bits,
        ..a
    }
}

/// Rescale steps repeated until the ciphertext reaches `target`.
pub open spec fn rescale_steps(ctx: Context, a: CtView, target: nat) -> CtView
    decreases target - a.level,
{
    if a.level >= target {
        a
    } else {
        rescale_steps(ctx, rescale_ct(ctx.dropped_bits(a.level), a), target)
    }
}

/// One rescale step, as executable data.
fn rescale_step(ctx: &Context, a: &Ciphertext) -> (c: Ciphertext)
    requires
        ctx.wf(),
        a.wf(ctx),
        ctx.scheme_kind() == SchemeKind::Ckks,
        (a@.level as int) < ctx.bottom_level(),
        a@.scale_log2 >= i64::MIN + 60,
    ensures
        c.wf(ctx),
        c@ == rescale_ct(ctx.dropped_bits(a@.level), a@),
{
    let idx = ctx.moduli_bits.len() - 1 - a.level;
    let bits = ctx.moduli_bits[idx];
    let mut slots: Vec<u128> = Vec::new();
    let mut i: usize = 0;
    while i < a.slots.len()
        invariant
            a@.slots.len() == a.slots@.len(),
            bits <= 60,
            0 <= i <= a@.slots.len(),
            slots@.len() == i,
            forall|j: int|
                0 <= j < i ==> #[trigger] slots@[j] == crate::arith::rescale_slot_spec(
                    a@.slots[j],
                    bits as nat,
                ),
        decreases a@.slots.len() - i,
    {
        slots.push(crate::arith::rescale_slot(a.slots[i], bits));
        i = i + 1;
    }
    let c = Ciphertext {
        slots,
        level: a.level + 1,
        size: a.size,
        scale_log2: a.scale_log2 - (bits as i64),
        ntt_form: a.ntt_form,
        noise_budget: a.noise_budget,
    };
    proof {
        assert(c@.slots =~= rescale_slots_view(a@.slots, bits as nat));
        assert(c@ =~= rescale_ct(ctx.dropped_bits(a@.level), a@));
    }
    c
}


/// A rotation step count reduced to a leftward shift within one row.
pub open spec fn rot_shift(steps: int, row: int) -> int {
    steps % row
}

/// What a row rotation makes of a ciphertext: each row of the batched
/// matrix cyclically shifted left by `steps` (right for negative `steps`),
/// metadata untouched.
pub open spec fn rotate_rows_ct(a: CtView, row: int, steps: int) -> CtView {
    CtView { slots: crate::arith::rotate_rows_spec(a.slots, row, rot_shift(steps, row)), ..a }
}

/// What a column rotation makes of a ciphertext: the two rows of the
/// batched matrix swapped, metadata untouched.
pub open spec fn rotate_columns_ct(a: CtView, row: int) -> CtView {
    CtView { slots: crate::arith::rotate_columns_spec(a.slots, row), ..a }
}

/// The in-row shift of a step count, as executable data.
fn shift_of_steps(steps: i32, row: usize) -> (s: usize)
    requires
        0 < row,
        -(row as int) < steps < row as int,
    ensures
        s == rot_shift(steps as int, row as int),
        s < row,
{
    if steps >= 0 {
        proof {
            vstd::arithmetic::div_mod::lemma_small_mod(steps as nat, row as nat);
        }
        steps as usize
    } else {
        let n = (-(steps as i64)) as usize;
        proof {
            crate::arith::lemma_mod_shift_range(steps as int, row as int);
        }
        row - n
    }
}


/// A list whose members all sit in the default representation state at the
/// head's level and scale passes the metadata scan: the addition reduction
/// owes success on it.
pub proof fn lemma_uniform_list_passes_scan(views: Seq<CtView>, d: bool)
    requires
        forall|j: int| 0 <= j < views.len() ==> meta_ok(views, d, j),
    ensures
        first_meta_err(views, d, 0) is None,
{
    lemma_first_meta_err_skip(views, d, views.len());
}

/// Left-to-right accumulation of a list of ciphertexts by [`add_ct`].
pub open spec fn add_many_ct(m: int, views: Seq<CtView>) -> CtView
    decreases views.len(),
{
    if views.len() <= 1 {
        views[0]
    } else {
        add_ct(m, add_many_ct(m, views.drop_last()), views.last())
    }
}

/// The metadata of element `j` agrees with the head of the list: default
/// representation state, one level, one scale.
pub open spec fn meta_ok(views: Seq<CtView>, d: bool, j: int) -> bool {
    &&& views[j].ntt_form == d
    &&& views[j].level == views[0].level
    &&& views[j].scale_log2 == views[0].scale_log2
}

/// The error that scanning a list's metadata from position `i` onward
/// raises first, if any: a wrong representation state before a level
/// mismatch before a scale mismatch, earlier elements before later ones.
pub open spec fn first_meta_err(views: Seq<CtView>, d: bool, i: nat) -> Option<Error>
    decreases views.len() - i,
{
    if i >= views.len() {
        None
    } else if views[i as int].ntt_form != d {
        Some(Error::RepresentationMismatch)
    } else if views[i as int].level != views[0].level {
        Some(Error::LevelMismatch)
    } else if views[i as int].scale_log2 != views[0].scale_log2 {
        Some(Error::EngineFailure)
    } else {
        first_meta_err(views, d, i + 1)
    }
}

/// Scanning from the start and scanning past a clean prefix find the same
/// first error.
proof fn lemma_first_meta_err_skip(views: Seq<CtView>, d: bool, i: nat)
    requires
        i <= views.len(),
        forall|j: int| 0 <= j < i ==> meta_ok(views, d, j),
    ensures
        first_meta_err(views, d, 0) == first_meta_err(views, d, i),
    decreases i,
{
    if i > 0 {
        lemma_first_meta_err_skip(views, d, (i - 1) as nat);
        assert(meta_ok(views, d, i - 1));
        assert(first_meta_err(views, d, (i - 1) as nat) == first_meta_err(views, d, i));
    }
}


/// Raising a ciphertext to a power by square-and-multiply, relinearizing
/// after every multiplication: the depth-optimal schedule whose length
/// follows the exponent's bit length, not the exponent.
pub open spec fn pow_ct(m: int, a: CtView, e: nat) -> CtView
    decreases e,
{
    if e <= 1 {
        a
    } else {
        let h = pow_ct(m, a, e / 2);
        let sq = relin_ct(mul_ct(m, h, h));
        if e % 2 == 1 {
            relin_ct(mul_ct(m, sq, a))
        } else {
            sq
        }
    }
}


/// One node of the multiplication tree: the operands are checked as in
/// [`EvaluatorOps::multiply`], multiplied, and relinearized back to size 2,
/// with key sufficiency checked against the product's size.
pub open spec fn mul_relin_ct(m: int, d: bool, kc: nat, a: CtView, b: CtView) -> Result<
    CtView,
    Error,
> {
    if a.ntt_form != d || b.ntt_form != d {
        Err(Error::RepresentationMismatch)
    } else if a.level != b.level {
        Err(Error::LevelMismatch)
    } else if kc + 2 < a.size + b.size - 1 {
        Err(Error::InsufficientKeyMaterial)
    } else {
        Ok(relin_ct(mul_ct(m, a, b)))
    }
}

/// The depth-balanced binary multiplication tree over a list: the list is
/// halved, each half reduced, and the two results combined by one
/// multiply-and-relinearize node, so that the multiplicative depth grows
/// with the logarithm of the list length rather than the length.
pub open spec fn mul_tree_ct(m: int, d: bool, kc: nat, views: Seq<CtView>) -> Result<CtView, Error>
    decreases views.len(),
{
    if views.len() <= 1 {
        Ok(views[0])
    } else {
        let left = mul_tree_ct(m, d, kc, views.subrange(0, views.len() as int / 2));
        let right = mul_tree_ct(
            m,
            d,
            kc,
            views.subrange(views.len() as int / 2, views.len() as int),
        );
        if left is Err {
            left
        } else if right is Err {
            right
        } else {
            mul_relin_ct(m, d, kc, left->Ok_0, right->Ok_0)
        }
    }
}

/// The total size of a list of ciphertexts.
pub open spec fn sum_sizes(views: Seq<CtView>) -> int
    decreases views.len(),
{
    if views.len() == 0 {
        0
    } else {
        sum_sizes(views.drop_last()) + views.last().size
    }
}

/// The total magnitude of the scales of a list of ciphertexts.
pub open spec fn sum_abs_scales(views: Seq<CtView>) -> int
    decreases views.len(),
{
    if views.len() == 0 {
        0
    } else {
        sum_abs_scales(views.drop_last()) + vstd::math::abs(views.last().scale_log2)
    }
}

/// Both list totals are sums of nonnegative terms.
proof fn lemma_sums_nonneg(views: Seq<CtView>)
    ensures
        sum_sizes(views) >= 0,
        sum_abs_scales(views) >= 0,
    decreases views.len(),
{
    if views.len() > 0 {
        lemma_sums_nonneg(views.drop_last());
    }
}

/// Both list totals split at any cut point.
proof fn lemma_sums_split(views: Seq<CtView>, k: int)
    requires
        0 <= k <= views.len(),
    ensures
        sum_sizes(views) == sum_sizes(views.subrange(0, k)) + sum_sizes(
            views.subrange(k, views.len() as int),
        ),
        sum_abs_scales(views) == sum_abs_scales(views.subrange(0, k)) + sum_abs_scales(
            views.subrange(k, views.len() as int),
        ),
    decreases views.len(),
{
    if k == views.len() {
        assert(views.subrange(0, k) =~= views);
        assert(views.subrange(k, views.len() as int) =~= Seq::<CtView>::empty());
    } else {
        let last = views.last();
        lemma_sums_split(views.drop_last(), k);
        assert(views.drop_last().subrange(0, k) =~= views.subrange(0, k));
        assert(views.drop_last().subrange(k, views.len() - 1) =~= views.subrange(
            k,
            views.len() as int,
        ).drop_last());
        assert(views.subrange(k, views.len() as int).last() == last);
    }
}

/// The noise budget after a ciphertext-ciphertext multiplication, as
/// executable data.
fn noise_after_mul(na: u64, nb: u64, sa: usize, sb: usize) -> (r: u64)
    ensures
        r as nat == sub_floor(nat_min(na as nat, nb as nat), (sa as nat) * (sb as nat)),
{
    let n: u64 = if na <= nb {
        na
    } else {
        nb
    };
    proof {
        assert((sa as int) * (sb as int) < 0x1_0000_0000_0000_0000_0000_0000_0000_0000int)
            by (nonlinear_arith)
            requires
                sa as int <= 0xffff_ffff_ffff_ffffint,
                sb as int <= 0xffff_ffff_ffff_ffffint,
        ;
    }
    let p: u128 = (sa as u128) * (sb as u128);
    if p >= n as u128 {
        0
    } else {
        n - (p as u64)
    }
}

/// Operations provided by the evaluator.
///
/// The spec functions name, for any implementation, the context operated
/// over and the mathematical content of its value types; every method's
/// contract is stated through them.
pub trait EvaluatorOps {
    /// The plaintext type.
    type Plaintext;

    /// The ciphertext type.
    type Ciphertext;

    /// The context the evaluator operates over.
    spec fn evaluation_context(&self) -> Context;

    /// The evaluator is ready for use.
    spec fn wf(&self) -> bool;

    /// A ciphertext operand is valid under the evaluator's context.
    spec fn ct_wf(&self, c: &Self::Ciphertext) -> bool;

    /// A plaintext operand is valid under the evaluator's context.
    spec fn pt_wf(&self, p: &Self::Plaintext) -> bool;

    /// The mathematical content of a ciphertext.
    spec fn ct(c: &Self::Ciphertext) -> CtView;

    /// The mathematical content of a plaintext.
    spec fn pt(p: &Self::Plaintext) -> PtView;

    /// Negates a ciphertext in place. Never fails; slot values are negated
    /// and the metadata is untouched.
    ///   * `a` - the value to negate
    fn negate_inplace(&self, a: &mut Self::Ciphertext) -> (r: Result<(), Error>)
        requires
            self.wf(),
            self.ct_wf(old(a)),
        ensures
            r is Ok,
            self.ct_wf(final(a)),
            Self::ct(final(a)) == neg_ct(self.evaluation_context().slot_modulus(), Self::ct(old(a))),
    ;

    /// Negates a ciphertext into a new ciphertext. Never fails.
    ///   * `a` - the value to negate
    fn negate(&self, a: &Self::Ciphertext) -> (r: Result<Self::Ciphertext, Error>)
        requires
            self.wf(),
            self.ct_wf(a),
        ensures
            r is Ok,
            r is Ok ==> self.ct_wf(&r->Ok_0) && Self::ct(&r->Ok_0) == neg_ct(
                self.evaluation_context().slot_modulus(),
                Self::ct(a),
            ),
    ;

    /// Add `a` and `b` and store the result in `a`. The operands must be in
    /// the scheme's default representation state (else
    /// [`Error::RepresentationMismatch`]), at one level (else
    /// [`Error::LevelMismatch`]) and at one scale (else
    /// [`Error::EngineFailure`]), in that order of checking.
    ///  * `a` - the accumulator
    ///  * `b` - the added value
    fn add_inplace(&self, a: &mut Self::Ciphertext, b: &Self::Ciphertext) -> (r: Result<(), Error>)
        requires
            self.wf(),
            self.ct_wf(old(a)),
            self.ct_wf(b),
        ensures
            ({
                let ctx = self.evaluation_context();
                let av = Self::ct(old(a));
                let bv = Self::ct(b);
                if av.ntt_form != ctx.default_ntt_form() || bv.ntt_form != ctx.default_ntt_form() {
                    r == Result::<(), Error>::Err(Error::RepresentationMismatch) && Self::ct(
                        final(a),
                    ) == av
                } else if av.level != bv.level {
                    r == Result::<(), Error>::Err(Error::LevelMismatch) && Self::ct(final(a)) == av
                } else if av.scale_log2 != bv.scale_log2 {
                    r == Result::<(), Error>::Err(Error::EngineFailure) && Self::ct(final(a)) == av
                } else {
                    r is Ok && Self::ct(final(a)) == add_ct(ctx.slot_modulus(), av, bv)
                }
            }),
            self.ct_wf(final(a)),
    ;

    /// Adds `a` and `b` into a new ciphertext, under the same conditions as
    /// [`EvaluatorOps::add_inplace`].
    ///  * `a` - first operand
    ///  * `b` - second operand
    fn add(&self, a: &Self::Ciphertext, b: &Self::Ciphertext) -> (r: Result<
        Self::Ciphertext,
        Error,
    >)
        requires
            self.wf(),
            self.ct_wf(a),
            self.ct_wf(b),
        ensures
            ({
                let ctx = self.evaluation_context();
                let av = Self::ct(a);
                let bv = Self::ct(b);
                if av.ntt_form != ctx.default_ntt_form() || bv.ntt_form != ctx.default_ntt_form() {
                    r == Result::<Self::Ciphertext, Error>::Err(Error::RepresentationMismatch)
                } else if av.level != bv.level {
                    r == Result::<Self::Ciphertext, Error>::Err(Error::LevelMismatch)
                } else if av.scale_log2 != bv.scale_log2 {
                    r == Result::<Self::Ciphertext, Error>::Err(Error::EngineFailure)
                } else {
                    r is Ok && self.ct_wf(&r->Ok_0) && Self::ct(&r->Ok_0) == add_ct(
                        ctx.slot_modulus(),
                        av,
                        bv,
                    )
                }
            }),
    ;

    /// Subtracts `b` from `a` and stores the result in `a`, under the same
    /// conditions as [`EvaluatorOps::add_inplace`].
    ///  * `a` - the left operand and destination
    ///  * `b` - the right operand
    fn sub_inplace(&self, a: &mut Self::Ciphertext, b: &Self::Ciphertext) -> (r: Result<(), Error>)
        requires
            self.wf(),
            self.ct_wf(old(a)),
            self.ct_wf(b),
        ensures
            ({
                let ctx = self.evaluation_context();
                let av = Self::ct(old(a));
                let bv = Self::ct(b);
                if av.ntt_form != ctx.default_ntt_form() || bv.ntt_form != ctx.default_ntt_form() {
                    r == Result::<(), Error>::Err(Error::RepresentationMismatch) && Self::ct(
                        final(a),
                    ) == av
                } else if av.level != bv.level {
                    r == Result::<(), Error>::Err(Error::LevelMismatch) && Self::ct(final(a)) == av
                } else if av.scale_log2 != bv.scale_log2 {
                    r == Result::<(), Error>::Err(Error::EngineFailure) && Self::ct(final(a)) == av
                } else {
                    r is Ok && Self::ct(final(a)) == sub_ct(ctx.slot_modulus(), av, bv)
                }
            }),
            self.ct_wf(final(a)),
    ;

    /// Subtracts `b` from `a` into a new ciphertext, under the same
    /// conditions as [`EvaluatorOps::add_inplace`].
    ///  * `a` - the left operand
    ///  * `b` - the right operand
    fn sub(&self, a: &Self::Ciphertext, b: &Self::Ciphertext) -> (r: Result<
        Self::Ciphertext,
        Error,
    >)
        requires
            self.wf(),
            self.ct_wf(a),
            self.ct_wf(b),
        ensures
            ({
                let ctx = self.evaluation_context();
                let av = Self::ct(a);
                let bv = Self::ct(b);
                if av.ntt_form != ctx.default_ntt_form() || bv.ntt_form != ctx.default_ntt_form() {
                    r == Result::<Self::Ciphertext, Error>::Err(Error::RepresentationMismatch)
                } else if av.level != bv.level {
                    r == Result::<Self::Ciphertext, Error>::Err(Error::LevelMismatch)
                } else if av.scale_log2 != bv.scale_log2 {
                    r == Result::<Self::Ciphertext, Error>::Err(Error::EngineFailure)
                } else {
                    r is Ok && self.ct_wf(&r->Ok_0) && Self::ct(&r->Ok_0) == sub_ct(
                        ctx.slot_modulus(),
                        av,
                        bv,
                    )
                }
            }),
    ;

    /// Multiplies `a` and `b` and stores the result in `a`. Operands must be
    /// in the default representation state (else
    /// [`Error::RepresentationMismatch`]) and at one level (else
    /// [`Error::LevelMismatch`]); scales multiply rather than needing to
    /// match, and the result's size is the sum of the operand sizes less
    /// one.
    ///  * `a` - the left operand and destination.
    ///  * `b` - the right operand.
    fn multiply_inplace(&self, a: &mut Self::Ciphertext, b: &Self::Ciphertext) -> (r: Result<
        (),
        Error,
    >)
        requires
            self.wf(),
            self.ct_wf(old(a)),
            self.ct_wf(b),
            Self::ct(old(a)).size + Self::ct(b).size - 1 <= usize::MAX,
            i64::MIN <= Self::ct(old(a)).scale_log2 + Self::ct(b).scale_log2 <= i64::MAX,
        ensures
            ({
                let ctx = self.evaluation_context();
                let av = Self::ct(old(a));
                let bv = Self::ct(b);
                if av.ntt_form != ctx.default_ntt_form() || bv.ntt_form != ctx.default_ntt_form() {
                    r == Result::<(), Error>::Err(Error::RepresentationMismatch) && Self::ct(
                        final(a),
                    ) == av
                } else if av.level != bv.level {
                    r == Result::<(), Error>::Err(Error::LevelMismatch) && Self::ct(final(a)) == av
                } else {
                    r is Ok && Self::ct(final(a)) == mul_ct(ctx.slot_modulus(), av, bv)
                }
            }),
            self.ct_wf(final(a)),
    ;

    /// Multiplies `a` and `b` into a new ciphertext, under the same
    /// conditions as [`EvaluatorOps::multiply_inplace`].
    ///  * `a` - the left operand.
    ///  * `b` - the right operand.
    fn multiply(&self, a: &Self::Ciphertext, b: &Self::Ciphertext) -> (r: Result<
        Self::Ciphertext,
        Error,
    >)
        requires
            self.wf(),
            self.ct_wf(a),
            self.ct_wf(b),
            Self::ct(a).size + Self::ct(b).size - 1 <= usize::MAX,
            i64::MIN <= Self::ct(a).scale_log2 + Self::ct(b).scale_log2 <= i64::MAX,
        ensures
            ({
                let ctx = self.evaluation_context();
                let av = Self::ct(a);
                let bv = Self::ct(b);
                if av.ntt_form != ctx.default_ntt_form() || bv.ntt_form != ctx.default_ntt_form() {
                    r == Result::<Self::Ciphertext, Error>::Err(Error::RepresentationMismatch)
                } else if av.level != bv.level {
                    r == Result::<Self::Ciphertext, Error>::Err(Error::LevelMismatch)
                } else {
                    r is Ok && self.ct_wf(&r->Ok_0) && Self::ct(&r->Ok_0) == mul_ct(
                        ctx.slot_modulus(),
                        av,
                        bv,
                    )
                }
            }),
    ;

    /// Squares `a` and stores the result in `a`: exactly the self-multiply
    /// `mul_ct` of the operand with itself, in size, scale, level and slot
    /// content alike.
    ///  * `a` - the value to square.
    fn square_inplace(&self, a: &mut Self::Ciphertext) -> (r: Result<(), Error>)
        requires
            self.wf(),
            self.ct_wf(old(a)),
            Self::ct(old(a)).size + Self::ct(old(a)).size - 1 <= usize::MAX,
            i64::MIN <= Self::ct(old(a)).scale_log2 + Self::ct(old(a)).scale_log2 <= i64::MAX,
        ensures
            ({
                let ctx = self.evaluation_context();
                let av = Self::ct(old(a));
                if av.ntt_form != ctx.default_ntt_form() {
                    r == Result::<(), Error>::Err(Error::RepresentationMismatch) && Self::ct(
                        final(a),
                    ) == av
                } else {
                    r is Ok && Self::ct(final(a)) == mul_ct(ctx.slot_modulus(), av, av)
                }
            }),
            self.ct_wf(final(a)),
    ;

    /// Squares `a` into a new ciphertext, under the same conditions as
    /// [`EvaluatorOps::square_inplace`].
    ///  * `a` - the value to square.
    fn square(&self, a: &Self::Ciphertext) -> (r: Result<Self::Ciphertext, Error>)
        requires
            self.wf(),
            self.ct_wf(a),
            Self::ct(a).size + Self::ct(a).size - 1 <= usize::MAX,
            i64::MIN <= Self::ct(a).scale_log2 + Self::ct(a).scale_log2 <= i64::MAX,
        ensures
            ({
                let ctx = self.evaluation_context();
                let av = Self::ct(a);
                if av.ntt_form != ctx.default_ntt_form() {
                    r == Result::<Self::Ciphertext, Error>::Err(Error::RepresentationMismatch)
                } else {
                    r is Ok && self.ct_wf(&r->Ok_0) && Self::ct(&r->Ok_0) == mul_ct(
                        ctx.slot_modulus(),
                        av,
                        av,
                    )
                }
            }),
    ;

    /// Relinearizes a ciphertext in place, reducing it to the canonical size
    /// of 2 without touching its slot content, level or scale. The operand
    /// must be in the default representation state (else
    /// [`Error::RepresentationMismatch`]) and the keys must cover its size:
    /// a ciphertext of size `k + 2` needs at least `k` keys (else
    /// [`Error::InsufficientKeyMaterial`]).
    fn relinearize_inplace(&self, a: &mut Self::Ciphertext, relin_keys: &RelinearizationKey) -> (r:
        Result<(), Error>)
        requires
            self.wf(),
            self.ct_wf(old(a)),
        ensures
            ({
                let ctx = self.evaluation_context();
                let av = Self::ct(old(a));
                if av.ntt_form != ctx.default_ntt_form() {
                    r == Result::<(), Error>::Err(Error::RepresentationMismatch) && Self::ct(
                        final(a),
                    ) == av
                } else if relin_keys.key_count() + 2 < av.size {
                    r == Result::<(), Error>::Err(Error::InsufficientKeyMaterial) && Self::ct(
                        final(a),
                    ) == av
                } else {
                    r is Ok && Self::ct(final(a)) == relin_ct(av)
                }
            }),
            self.ct_wf(final(a)),
    ;

    /// Relinearizes a ciphertext into a new one, under the same conditions
    /// as [`EvaluatorOps::relinearize_inplace`].
    fn relinearize(&self, a: &Self::Ciphertext, relin_keys: &RelinearizationKey) -> (r: Result<
        Self::Ciphertext,
        Error,
    >)
        requires
            self.wf(),
            self.ct_wf(a),
        ensures
            ({
                let ctx = self.evaluation_context();
                let av = Self::ct(a);
                if av.ntt_form != ctx.default_ntt_form() {
                    r == Result::<Self::Ciphertext, Error>::Err(Error::RepresentationMismatch)
                } else if relin_keys.key_count() + 2 < av.size {
                    r == Result::<Self::Ciphertext, Error>::Err(Error::InsufficientKeyMaterial)
                } else {
                    r is Ok && self.ct_wf(&r->Ok_0) && Self::ct(&r->Ok_0) == relin_ct(av)
                }
            }),
    ;

    /// Switches a ciphertext down to the next level of the modulus chain
    /// into a new ciphertext, without touching its slots, size or scale.
    /// The operand must be in the default representation state (else
    /// [`Error::RepresentationMismatch`]) and not yet at the bottom of the
    /// chain (else [`Error::ChainExhausted`]).
    fn mod_switch_to_next(&self, a: &Self::Ciphertext) -> (r: Result<Self::Ciphertext, Error>)
        requires
            self.wf(),
            self.ct_wf(a),
        ensures
            ({
                let ctx = self.evaluation_context();
                let av = Self::ct(a);
                if av.ntt_form != ctx.default_ntt_form() {
                    r == Result::<Self::Ciphertext, Error>::Err(Error::RepresentationMismatch)
                } else if av.level == ctx.bottom_level() {
                    r == Result::<Self::Ciphertext, Error>::Err(Error::ChainExhausted)
                } else {
                    r is Ok && self.ct_wf(&r->Ok_0) && Self::ct(&r->Ok_0) == modswitch_ct(av)
                }
            }),
    ;

    /// Switches a ciphertext down to the next level of the modulus chain in
    /// place, under the same conditions as
    /// [`EvaluatorOps::mod_switch_to_next`].
    fn mod_switch_to_next_inplace(&self, a: &mut Self::Ciphertext) -> (r: Result<(), Error>)
        requires
            self.wf(),
            self.ct_wf(old(a)),
        ensures
            ({
                let ctx = self.evaluation_context();
                let av = Self::ct(old(a));
                if av.ntt_form != ctx.default_ntt_form() {
                    r == Result::<(), Error>::Err(Error::RepresentationMismatch) && Self::ct(
                        final(a),
                    ) == av
                } else if av.level == ctx.bottom_level() {
                    r == Result::<(), Error>::Err(Error::ChainExhausted) && Self::ct(final(a)) == av
                } else {
                    r is Ok && Self::ct(final(a)) == modswitch_ct(av)
                }
            }),
            self.ct_wf(final(a)),
    ;

    /// Modulus switches a transform-resident plaintext down to the next
    /// level into a new plaintext. A plaintext in coefficient form carries
    /// no chain position and is rejected with
    /// [`Error::RepresentationMismatch`]; at the bottom of the chain the
    /// switch fails with [`Error::ChainExhausted`].
    fn mod_switch_to_next_plaintext(&self, a: &Self::Plaintext) -> (r: Result<
        Self::Plaintext,
        Error,
    >)
        requires
            self.wf(),
            self.pt_wf(a),
        ensures
            ({
                let ctx = self.evaluation_context();
                let pv = Self::pt(a);
                if !pv.ntt_form {
                    r == Result::<Self::Plaintext, Error>::Err(Error::RepresentationMismatch)
                } else if pv.level == ctx.bottom_level() {
                    r == Result::<Self::Plaintext, Error>::Err(Error::ChainExhausted)
                } else {
                    r is Ok && self.pt_wf(&r->Ok_0) && Self::pt(&r->Ok_0) == modswitch_pt(pv)
                }
            }),
    ;

    /// Modulus switches a transform-resident plaintext down to the next
    /// level in place, under the same conditions as
    /// [`EvaluatorOps::mod_switch_to_next_plaintext`].
    fn mod_switch_to_next_inplace_plaintext(&self, a: &mut Self::Plaintext) -> (r: Result<
        (),
        Error,
    >)
        requires
            self.wf(),
            self.pt_wf(old(a)),
        ensures
            ({
                let ctx = self.evaluation_context();
                let pv = Self::pt(old(a));
                if !pv.ntt_form {
                    r == Result::<(), Error>::Err(Error::RepresentationMismatch) && Self::pt(
                        final(a),
                    ) == pv
                } else if pv.level == ctx.bottom_level() {
                    r == Result::<(), Error>::Err(Error::ChainExhausted) && Self::pt(final(a)) == pv
                } else {
                    r is Ok && Self::pt(final(a)) == modswitch_pt(pv)
                }
            }),
            self.pt_wf(final(a)),
    ;

    /// Rescales a ciphertext to the next level into a new ciphertext,
    /// dividing its scale — and, up to less than one unit of rounding, its
    /// centered slot values — by the dropped modulus's magnitude, and
    /// advancing the level by exactly one step. Valid only under the scheme
    /// that tracks scales. The operand must be in the default representation
    /// state (else [`Error::RepresentationMismatch`]) and not yet at the
    /// bottom of the chain (else [`Error::ChainExhausted`]).
    ///
    /// * `a` - the ciphertext to rescale
    fn rescale_to_next(&self, a: &Self::Ciphertext) -> (r: Result<Self::Ciphertext, Error>)
        requires
            self.wf(),
            self.ct_wf(a),
            self.evaluation_context().scheme_kind() == SchemeKind::Ckks,
            Self::ct(a).scale_log2 >= i64::MIN + 60,
        ensures
            ({
                let ctx = self.evaluation_context();
                let av = Self::ct(a);
                if av.ntt_form != ctx.default_ntt_form() {
                    r == Result::<Self::Ciphertext, Error>::Err(Error::RepresentationMismatch)
                } else if av.level == ctx.bottom_level() {
                    r == Result::<Self::Ciphertext, Error>::Err(Error::ChainExhausted)
                } else {
                    r is Ok && self.ct_wf(&r->Ok_0) && Self::ct(&r->Ok_0) == rescale_ct(
                        ctx.dropped_bits(av.level),
                        av,
                    )
                }
            }),
    ;

    /// Rescales a ciphertext to the next level in place, under the same
    /// conditions as [`EvaluatorOps::rescale_to_next`].
    ///
    /// * `a` - the ciphertext to rescale
    fn rescale_to_next_inplace(&self, a: &mut Self::Ciphertext) -> (r: Result<(), Error>)
        requires
            self.wf(),
            self.ct_wf(old(a)),
            self.evaluation_context().scheme_kind() == SchemeKind::Ckks,
            Self::ct(old(a)).scale_log2 >= i64::MIN + 60,
        ensures
            ({
                let ctx = self.evaluation_context();
                let av = Self::ct(old(a));
                if av.ntt_form != ctx.default_ntt_form() {
                    r == Result::<(), Error>::Err(Error::RepresentationMismatch) && Self::ct(
                        final(a),
                    ) == av
                } else if av.level == ctx.bottom_level() {
                    r == Result::<(), Error>::Err(Error::ChainExhausted) && Self::ct(final(a)) == av
                } else {
                    r is Ok && Self::ct(final(a)) == rescale_ct(ctx.dropped_bits(av.level), av)
                }
            }),
            self.ct_wf(final(a)),
    ;

    /// Rescales a ciphertext down to the given chain level, one step at a
    /// time. The target must lie strictly below the operand's level and on
    /// the chain (else [`Error::InvalidLevelTarget`]); the operand must be
    /// in the default representation state (else
    /// [`Error::RepresentationMismatch`]).
    ///
    /// * `a` - the ciphertext to rescale
    /// * `parms_level` - the chain level to rescale to
    fn rescale_to(&self, a: &Self::Ciphertext, parms_level: usize) -> (r: Result<
        Self::Ciphertext,
        Error,
    >)
        requires
            self.wf(),
            self.ct_wf(a),
            self.evaluation_context().scheme_kind() == SchemeKind::Ckks,
            Self::ct(a).scale_log2 >= i64::MIN + 3840,
        ensures
            ({
                let ctx = self.evaluation_context();
                let av = Self::ct(a);
                if av.ntt_form != ctx.default_ntt_form() {
                    r == Result::<Self::Ciphertext, Error>::Err(Error::RepresentationMismatch)
                } else if parms_level <= av.level || parms_level > ctx.bottom_level() {
                    r == Result::<Self::Ciphertext, Error>::Err(Error::InvalidLevelTarget)
                } else {
                    r is Ok && self.ct_wf(&r->Ok_0) && Self::ct(&r->Ok_0) == rescale_steps(
                        ctx,
                        av,
                        parms_level as nat,
                    )
                }
            }),
    ;

    /// Adds a plaintext to a ciphertext into a new ciphertext. Both operands
    /// must be in the default representation state (else
    /// [`Error::RepresentationMismatch`]); a transform-resident plaintext
    /// must share the ciphertext's level (else [`Error::LevelMismatch`]);
    /// the scales must match (else [`Error::EngineFailure`]).
    /// * `a` - the ciphertext
    /// * `b` - the plaintext
    fn add_plain(&self, a: &Self::Ciphertext, b: &Self::Plaintext) -> (r: Result<
        Self::Ciphertext,
        Error,
    >)
        requires
            self.wf(),
            self.ct_wf(a),
            self.pt_wf(b),
        ensures
            ({
                let ctx = self.evaluation_context();
                let av = Self::ct(a);
                let pv = Self::pt(b);
                if av.ntt_form != ctx.default_ntt_form() || pv.ntt_form != ctx.default_ntt_form() {
                    r == Result::<Self::Ciphertext, Error>::Err(Error::RepresentationMismatch)
                } else if plain_level_bound(pv) && pv.level != av.level {
                    r == Result::<Self::Ciphertext, Error>::Err(Error::LevelMismatch)
                } else if pv.scale_log2 != av.scale_log2 {
                    r == Result::<Self::Ciphertext, Error>::Err(Error::EngineFailure)
                } else {
                    r is Ok && self.ct_wf(&r->Ok_0) && Self::ct(&r->Ok_0) == add_plain_ct(
                        ctx.slot_modulus(),
                        av,
                        pv,
                    )
                }
            }),
    ;

    /// Adds a plaintext to a ciphertext in place, under the same conditions
    /// as [`EvaluatorOps::add_plain`].
    /// * `a` - the ciphertext
    /// * `b` - the plaintext
    fn add_plain_inplace(&self, a: &mut Self::Ciphertext, b: &Self::Plaintext) -> (r: Result<
        (),
        Error,
    >)
        requires
            self.wf(),
            self.ct_wf(old(a)),
            self.pt_wf(b),
        ensures
            ({
                let ctx = self.evaluation_context();
                let av = Self::ct(old(a));
                let pv = Self::pt(b);
                if av.ntt_form != ctx.default_ntt_form() || pv.ntt_form != ctx.default_ntt_form() {
                    r == Result::<(), Error>::Err(Error::RepresentationMismatch) && Self::ct(
                        final(a),
                    ) == av
                } else if plain_level_bound(pv) && pv.level != av.level {
                    r == Result::<(), Error>::Err(Error::LevelMismatch) && Self::ct(final(a)) == av
                } else if pv.scale_log2 != av.scale_log2 {
                    r == Result::<(), Error>::Err(Error::EngineFailure) && Self::ct(final(a)) == av
                } else {
                    r is Ok && Self::ct(final(a)) == add_plain_ct(ctx.slot_modulus(), av, pv)
                }
            }),
            self.ct_wf(final(a)),
    ;

    /// Subtracts a plaintext from a ciphertext into a new ciphertext, under
    /// the same conditions as [`EvaluatorOps::add_plain`].
    /// * `a` - the ciphertext
    /// * `b` - the plaintext
    fn sub_plain(&self, a: &Self::Ciphertext, b: &Self::Plaintext) -> (r: Result<
        Self::Ciphertext,
        Error,
    >)
        requires
            self.wf(),
            self.ct_wf(a),
            self.pt_wf(b),
        ensures
            ({
                let ctx = self.evaluation_context();
                let av = Self::ct(a);
                let pv = Self::pt(b);
                if av.ntt_form != ctx.default_ntt_form() || pv.ntt_form != ctx.default_ntt_form() {
                    r == Result::<Self::Ciphertext, Error>::Err(Error::RepresentationMismatch)
                } else if plain_level_bound(pv) && pv.level != av.level {
                    r == Result::<Self::Ciphertext, Error>::Err(Error::LevelMismatch)
                } else if pv.scale_log2 != av.scale_log2 {
                    r == Result::<Self::Ciphertext, Error>::Err(Error::EngineFailure)
                } else {
                    r is Ok && self.ct_wf(&r->Ok_0) && Self::ct(&r->Ok_0) == sub_plain_ct(
                        ctx.slot_modulus(),
                        av,
                        pv,
                    )
                }
            }),
    ;

    /// Subtracts a plaintext from a ciphertext in place, under the same
    /// conditions as [`EvaluatorOps::add_plain`].
    ///  * `a` - the ciphertext
    ///  * `b` - the plaintext
    fn sub_plain_inplace(&self, a: &mut Self::Ciphertext, b: &Self::Plaintext) -> (r: Result<
        (),
        Error,
    >)
        requires
            self.wf(),
            self.ct_wf(old(a)),
            self.pt_wf(b),
        ensures
            ({
                let ctx = self.evaluation_context();
                let av = Self::ct(old(a));
                let pv = Self::pt(b);
                if av.ntt_form != ctx.default_ntt_form() || pv.ntt_form != ctx.default_ntt_form() {
                    r == Result::<(), Error>::Err(Error::RepresentationMismatch) && Self::ct(
                        final(a),
                    ) == av
                } else if plain_level_bound(pv) && pv.level != av.level {
                    r == Result::<(), Error>::Err(Error::LevelMismatch) && Self::ct(final(a)) == av
                } else if pv.scale_log2 != av.scale_log2 {
                    r == Result::<(), Error>::Err(Error::EngineFailure) && Self::ct(final(a)) == av
                } else {
                    r is Ok && Self::ct(final(a)) == sub_plain_ct(ctx.slot_modulus(), av, pv)
                }
            }),
            self.ct_wf(final(a)),
    ;

    /// Multiplies a ciphertext by a plaintext into a new ciphertext: slots
    /// multiply elementwise, scales add, and size and level are kept. Both
    /// operands must be in the default representation state (else
    /// [`Error::RepresentationMismatch`]); a transform-resident plaintext
    /// must share the ciphertext's level (else [`Error::LevelMismatch`]).
    ///  * `a` - the ciphertext
    ///  * `b` - the plaintext
    fn multiply_plain(&self, a: &Self::Ciphertext, b: &Self::Plaintext) -> (r: Result<
        Self::Ciphertext,
        Error,
    >)
        requires
            self.wf(),
            self.ct_wf(a),
            self.pt_wf(b),
            i64::MIN <= Self::ct(a).scale_log2 + Self::pt(b).scale_log2 <= i64::MAX,
        ensures
            ({
                let ctx = self.evaluation_context();
                let av = Self::ct(a);
                let pv = Self::pt(b);
                if av.ntt_form != ctx.default_ntt_form() || pv.ntt_form != ctx.default_ntt_form() {
                    r == Result::<Self::Ciphertext, Error>::Err(Error::RepresentationMismatch)
                } else if plain_level_bound(pv) && pv.level != av.level {
                    r == Result::<Self::Ciphertext, Error>::Err(Error::LevelMismatch)
                } else {
                    r is Ok && self.ct_wf(&r->Ok_0) && Self::ct(&r->Ok_0) == mul_plain_ct(
                        ctx.slot_modulus(),
                        av,
                        pv,
                    )
                }
            }),
    ;

    /// Multiplies a ciphertext by a plaintext in place, under the same
    /// conditions as [`EvaluatorOps::multiply_plain`].
    ///  * `a` - the ciphertext
    ///  * `b` - the plaintext
    fn multiply_plain_inplace(&self, a: &mut Self::Ciphertext, b: &Self::Plaintext) -> (r: Result<
        (),
        Error,
    >)
        requires
            self.wf(),
            self.ct_wf(old(a)),
            self.pt_wf(b),
            i64::MIN <= Self::ct(old(a)).scale_log2 + Self::pt(b).scale_log2 <= i64::MAX,
        ensures
            ({
                let ctx = self.evaluation_context();
                let av = Self::ct(old(a));
                let pv = Self::pt(b);
                if av.ntt_form != ctx.default_ntt_form() || pv.ntt_form != ctx.default_ntt_form() {
                    r == Result::<(), Error>::Err(Error::RepresentationMismatch) && Self::ct(
                        final(a),
                    ) == av
                } else if plain_level_bound(pv) && pv.level != av.level {
                    r == Result::<(), Error>::Err(Error::LevelMismatch) && Self::ct(final(a)) == av
                } else {
                    r is Ok && Self::ct(final(a)) == mul_plain_ct(ctx.slot_modulus(), av, pv)
                }
            }),
            self.ct_wf(final(a)),
    ;

    /// Rotates the rows of the batched plaintext matrix cyclically, to the
    /// left for positive `steps` and to the right for negative ones, in the
    /// exact-integer scheme's batched view. The operand must be in the
    /// default representation state (else [`Error::RepresentationMismatch`])
    /// and the step count's absolute value must stay below half the slot
    /// width (else [`Error::InvalidRotationStep`]).
    ///
    /// * `a` - The ciphertext to rotate
    /// * `steps` - The number of steps to rotate (positive left, negative right)
    /// * `galois_keys` - The Galois keys
    fn rotate_rows(&self, a: &Self::Ciphertext, steps: i32, galois_keys: &GaloisKey) -> (r: Result<
        Self::Ciphertext,
        Error,
    >)
        requires
            self.wf(),
            self.ct_wf(a),
            self.evaluation_context().scheme_kind() == SchemeKind::Bfv,
        ensures
            ({
                let ctx = self.evaluation_context();
                let av = Self::ct(a);
                let row = ctx.row_size() as int;
                if av.ntt_form != ctx.default_ntt_form() {
                    r == Result::<Self::Ciphertext, Error>::Err(Error::RepresentationMismatch)
                } else if steps <= -row || steps >= row {
                    r == Result::<Self::Ciphertext, Error>::Err(Error::InvalidRotationStep)
                } else {
                    r is Ok && self.ct_wf(&r->Ok_0) && Self::ct(&r->Ok_0) == rotate_rows_ct(
                        av,
                        row,
                        steps as int,
                    )
                }
            }),
    ;

    /// Rotates the rows of the batched plaintext matrix in place, under the
    /// same conditions as [`EvaluatorOps::rotate_rows`].
    ///
    /// * `a` - The ciphertext to rotate
    /// * `steps` - The number of steps to rotate (positive left, negative right)
    /// * `galois_keys` - The Galois keys
    fn rotate_rows_inplace(&self, a: &mut Self::Ciphertext, steps: i32, galois_keys: &GaloisKey)
        -> (r: Result<(), Error>)
        requires
            self.wf(),
            self.ct_wf(old(a)),
            self.evaluation_context().scheme_kind() == SchemeKind::Bfv,
        ensures
            ({
                let ctx = self.evaluation_context();
                let av = Self::ct(old(a));
                let row = ctx.row_size() as int;
                if av.ntt_form != ctx.default_ntt_form() {
                    r == Result::<(), Error>::Err(Error::RepresentationMismatch) && Self::ct(
                        final(a),
                    ) == av
                } else if steps <= -row || steps >= row {
                    r == Result::<(), Error>::Err(Error::InvalidRotationStep) && Self::ct(final(a))
                        == av
                } else {
                    r is Ok && Self::ct(final(a)) == rotate_rows_ct(av, row, steps as int)
                }
            }),
            self.ct_wf(final(a)),
    ;

    /// Swaps the two rows of the batched plaintext matrix — a fixed
    /// involution needing no step argument. The operand must be in the
    /// default representation state (else [`Error::RepresentationMismatch`]).
    ///
    /// * `a` - The ciphertext to rotate
    /// * `galois_keys` - The Galois keys
    fn rotate_columns(&self, a: &Self::Ciphertext, galois_keys: &GaloisKey) -> (r: Result<
        Self::Ciphertext,
        Error,
    >)
        requires
            self.wf(),
            self.ct_wf(a),
            self.evaluation_context().scheme_kind() == SchemeKind::Bfv,
        ensures
            ({
                let ctx = self.evaluation_context();
                let av = Self::ct(a);
                if av.ntt_form != ctx.default_ntt_form() {
                    r == Result::<Self::Ciphertext, Error>::Err(Error::RepresentationMismatch)
                } else {
                    r is Ok && self.ct_wf(&r->Ok_0) && Self::ct(&r->Ok_0) == rotate_columns_ct(
                        av,
                        ctx.row_size() as int,
                    )
                }
            }),
    ;

    /// Swaps the two rows of the batched plaintext matrix in place, under
    /// the same conditions as [`EvaluatorOps::rotate_columns`].
    ///
    /// * `a` - The ciphertext to rotate
    /// * `galois_keys` - The Galois keys
    fn rotate_columns_inplace(&self, a: &mut Self::Ciphertext, galois_keys: &GaloisKey) -> (r:
        Result<(), Error>)
        requires
            self.wf(),
            self.ct_wf(old(a)),
            self.evaluation_context().scheme_kind() == SchemeKind::Bfv,
        ensures
            ({
                let ctx = self.evaluation_context();
                let av = Self::ct(old(a));
                if av.ntt_form != ctx.default_ntt_form() {
                    r == Result::<(), Error>::Err(Error::RepresentationMismatch) && Self::ct(
                        final(a),
                    ) == av
                } else {
                    r is Ok && Self::ct(final(a)) == rotate_columns_ct(av, ctx.row_size() as int)
                }
            }),
            self.ct_wf(final(a)),
    ;

    /// Performs an addition reduction of multiple ciphertexts packed into a
    /// slice, accumulating left to right. The list must be non-empty; its
    /// elements are scanned in order, and the first one out of the default
    /// representation state, off the head's level, or off the head's scale
    /// decides the error as in [`EvaluatorOps::add_inplace`].
    ///  * `a` - a slice of ciphertexts to sum.
    fn add_many(&self, a: &[Self::Ciphertext]) -> (r: Result<Self::Ciphertext, Error>)
        requires
            self.wf(),
            a@.len() >= 1,
            forall|i: int| 0 <= i < a@.len() ==> self.ct_wf(#[trigger] &a@[i]),
        ensures
            ({
                let ctx = self.evaluation_context();
                let views = a@.map_values(|c: Self::Ciphertext| Self::ct(&c));
                let scan = first_meta_err(views, ctx.default_ntt_form(), 0);
                if scan is Some {
                    r == Result::<Self::Ciphertext, Error>::Err(scan->Some_0)
                } else {
                    r is Ok && self.ct_wf(&r->Ok_0) && Self::ct(&r->Ok_0) == add_many_ct(
                        ctx.slot_modulus(),
                        views,
                    )
                }
            }),
    ;

    /// Raises a ciphertext to the power `exponent` into a new ciphertext,
    /// using the depth-optimal square-and-multiply schedule and
    /// relinearizing after every multiplication, so that the result has the
    /// canonical size of 2 whenever `exponent >= 2`. A zero exponent is not
    /// derivable homomorphically and must be special-cased by the caller.
    /// The operand must be in the default representation state (else
    /// [`Error::RepresentationMismatch`]) and the keys must cover the
    /// squarings (else [`Error::InsufficientKeyMaterial`]).
    fn exponentiate(
        &self,
        a: &Self::Ciphertext,
        exponent: u64,
        relin_keys: &RelinearizationKey,
    ) -> (r: Result<Self::Ciphertext, Error>)
        requires
            self.wf(),
            self.ct_wf(a),
            exponent >= 1,
            Self::ct(a).size + Self::ct(a).size <= usize::MAX,
            exponent * vstd::math::abs(Self::ct(a).scale_log2) <= i64::MAX,
        ensures
            ({
                let ctx = self.evaluation_context();
                let av = Self::ct(a);
                if av.ntt_form != ctx.default_ntt_form() {
                    r == Result::<Self::Ciphertext, Error>::Err(Error::RepresentationMismatch)
                } else if exponent >= 2 && relin_keys.key_count() + 3 < 2 * av.size {
                    r == Result::<Self::Ciphertext, Error>::Err(Error::InsufficientKeyMaterial)
                } else {
                    r is Ok && self.ct_wf(&r->Ok_0) && Self::ct(&r->Ok_0) == pow_ct(
                        ctx.slot_modulus(),
                        av,
                        exponent as nat,
                    )
                }
            }),
    ;

    /// Raises a ciphertext to the power `exponent` in place, under the same
    /// conditions as [`EvaluatorOps::exponentiate`].
    fn exponentiate_inplace(
        &self,
        a: &mut Self::Ciphertext,
        exponent: u64,
        relin_keys: &RelinearizationKey,
    ) -> (r: Result<(), Error>)
        requires
            self.wf(),
            self.ct_wf(old(a)),
            exponent >= 1,
            Self::ct(old(a)).size + Self::ct(old(a)).size <= usize::MAX,
            exponent * vstd::math::abs(Self::ct(old(a)).scale_log2) <= i64::MAX,
        ensures
            ({
                let ctx = self.evaluation_context();
                let av = Self::ct(old(a));
                if av.ntt_form != ctx.default_ntt_form() {
                    r == Result::<(), Error>::Err(Error::RepresentationMismatch) && Self::ct(
                        final(a),
                    ) == av
                } else if exponent >= 2 && relin_keys.key_count() + 3 < 2 * av.size {
                    r == Result::<(), Error>::Err(Error::InsufficientKeyMaterial) && Self::ct(
                        final(a),
                    ) == av
                } else {
                    r is Ok && Self::ct(final(a)) == pow_ct(ctx.slot_modulus(), av, exponent as nat)
                }
            }),
            self.ct_wf(final(a)),
    ;

    /// Performs a multiplication reduction of multiple ciphertexts packed
    /// into a slice: a depth-balanced binary tree of multiplications, each
    /// followed by a relinearization, so that the multiplicative depth is
    /// the logarithm of the list length and every intermediate size stays
    /// bounded. The list must be non-empty; each tree node checks its
    /// operands as in [`EvaluatorOps::multiply`] and its keys as in
    /// [`EvaluatorOps::relinearize`].
    ///  * `a` - a slice of ciphertexts to multiply together.
    ///  * `relin_keys` - the relinearization keys.
    fn multiply_many(&self, a: &[Self::Ciphertext], relin_keys: &RelinearizationKey) -> (r: Result<
        Self::Ciphertext,
        Error,
    >)
        requires
            self.wf(),
            a@.len() >= 1,
            forall|i: int| 0 <= i < a@.len() ==> self.ct_wf(#[trigger] &a@[i]),
            sum_sizes(a@.map_values(|c: Self::Ciphertext| Self::ct(&c))) <= usize::MAX,
            sum_abs_scales(a@.map_values(|c: Self::Ciphertext| Self::ct(&c))) <= i64::MAX,
        ensures
            ({
                let ctx = self.evaluation_context();
                let views = a@.map_values(|c: Self::Ciphertext| Self::ct(&c));
                let tree = mul_tree_ct(
                    ctx.slot_modulus(),
                    ctx.default_ntt_form(),
                    relin_keys.key_count(),
                    views,
                );
                if tree is Err {
                    r == Result::<Self::Ciphertext, Error>::Err(tree->Err_0)
                } else {
                    r is Ok && self.ct_wf(&r->Ok_0) && Self::ct(&r->Ok_0) == tree->Ok_0
                }
            }),
    ;
}

/// Performs the operation set over one context; stateless with respect to
/// ciphertext content.
pub struct Evaluator {
    /// The context the evaluator was built for.
    pub ctx: Context,
}

impl Evaluator {
    /// Creates an evaluator bound to the given context.
    pub fn new(ctx: &Context) -> (r: Result<Evaluator, Error>)
        requires
            ctx.wf(),
        ensures
            r is Ok,
            r is Ok ==> {
                let e = r->Ok_0;
                &&& e.wf()
                &&& e.ctx.scheme == ctx.scheme
                &&& e.ctx.degree == ctx.degree
                &&& e.ctx.moduli_bits@ == ctx.moduli_bits@
                &&& e.ctx.plain_modulus == ctx.plain_modulus
            },
    {
        Ok(Evaluator { ctx: ctx.clone() })
    }

    /// Whether both representation flags sit in the scheme's default state.
    fn forms_ok(&self, a_ntt: bool, b_ntt: bool) -> (ok: bool)
        ensures
            ok == (a_ntt == self.ctx.default_ntt_form() && b_ntt == self.ctx.default_ntt_form()),
    {
        let d = self.ctx.get_scheme() == crate::context::SchemeKind::Ckks;
        a_ntt == d && b_ntt == d
    }

    /// The square-and-multiply chain itself, with every precondition already
    /// validated.
    fn pow_exec(&self, a: &Ciphertext, e: u64, relin_keys: &RelinearizationKey) -> (c: Ciphertext)
        requires
            self.wf(),
            a.wf(&self.ctx),
            e >= 1,
            a@.ntt_form == self.ctx.default_ntt_form(),
            a@.size + a@.size <= usize::MAX,
            e * vstd::math::abs(a@.scale_log2) <= i64::MAX,
            e >= 2 ==> relin_keys.key_count() + 3 >= 2 * a@.size,
        ensures
            c.wf(&self.ctx),
            c@ == pow_ct(self.ctx.slot_modulus(), a@, e as nat),
            c@.scale_log2 == e * a@.scale_log2,
            c@.size == if e == 1 {
                a@.size
            } else {
                2nat
            },
            c@.level == a@.level,
            c@.ntt_form == a@.ntt_form,
        decreases e,
    {
        let ghost m = self.ctx.slot_modulus();
        let ghost s = a@.scale_log2;
        if e == 1 {
            return a.clone();
        }
        proof {
            assert((e / 2) * vstd::math::abs(s) <= e * vstd::math::abs(s)) by (nonlinear_arith)
                requires
                    e >= 2,
            ;
        }
        let h = self.pow_exec(a, e / 2, relin_keys);
        proof {
            assert(h@.scale_log2 + h@.scale_log2 == (2 * (e / 2)) * s) by (nonlinear_arith)
                requires
                    h@.scale_log2 == (e / 2) * s,
            ;
            assert(vstd::math::abs((2 * (e / 2)) * s) <= e * vstd::math::abs(s))
                by (nonlinear_arith)
                requires
                    2 * (e / 2) <= e,
            ;
        }
        let sq0 = match self.multiply(&h, &h) {
            Ok(c) => c,
            Err(_) => {
                proof {
                    assert(false);
                }
                return a.clone();
            },
        };
        let sq = match self.relinearize(&sq0, relin_keys) {
            Ok(c) => c,
            Err(_) => {
                proof {
                    assert(false);
                }
                return a.clone();
            },
        };
        if e % 2 == 1 {
            proof {
                assert(sq@.scale_log2 + s == e * s) by (nonlinear_arith)
                    requires
                        sq@.scale_log2 == (2 * (e / 2)) * s,
                        2 * (e / 2) + 1 == e,
                ;
                assert(vstd::math::abs(e * s) <= e * vstd::math::abs(s)) by (nonlinear_arith)
                    requires
                        e >= 1,
                ;
            }
            let t0 = match self.multiply(&sq, a) {
                Ok(c) => c,
                Err(_) => {
                    proof {
                        assert(false);
                    }
                    return a.clone();
                },
            };
            let t = match self.relinearize(&t0, relin_keys) {
                Ok(c) => c,
                Err(_) => {
                    proof {
                        assert(false);
                    }
                    return a.clone();
                },
            };
            proof {
                assert(t@ == pow_ct(m, a@, e as nat));
            }
            t
        } else {
            proof {
                assert(sq@.scale_log2 == e * s) by (nonlinear_arith)
                    requires
                        sq@.scale_log2 == (2 * (e / 2)) * s,
                        2 * (e / 2) == e,
                ;
                assert(sq@ == pow_ct(m, a@, e as nat));
            }
            sq
        }
    }

    /// One range of the multiplication tree, reduced recursively.
    fn mul_tree_exec(
        &self,
        a: &[Ciphertext],
        lo: usize,
        hi: usize,
        relin_keys: &RelinearizationKey,
    ) -> (r: Result<Ciphertext, Error>)
        requires
            self.wf(),
            0 <= lo < hi <= a@.len(),
            forall|i: int| 0 <= i < a@.len() ==> (#[trigger] a@[i]).wf(&self.ctx),
            sum_sizes(a@.map_values(|c: Ciphertext| c@)) <= usize::MAX,
            sum_abs_scales(a@.map_values(|c: Ciphertext| c@)) <= i64::MAX,
        ensures
            ({
                let views = a@.map_values(|c: Ciphertext| c@);
                let sub = views.subrange(lo as int, hi as int);
                let tree = mul_tree_ct(
                    self.ctx.slot_modulus(),
                    self.ctx.default_ntt_form(),
                    relin_keys.key_count(),
                    sub,
                );
                match r {
                    Ok(c) => {
                        &&& tree == Ok::<CtView, Error>(c@)
                        &&& c.wf(&self.ctx)
                        &&& c@.size <= sum_sizes(sub)
                        &&& (hi - lo >= 2 ==> c@.size == 2 && c@.ntt_form
                            == self.ctx.default_ntt_form())
                        &&& vstd::math::abs(c@.scale_log2) <= sum_abs_scales(sub)
                        &&& c@.level == views[lo as int].level
                    },
                    Err(e) => tree == Err::<CtView, Error>(e),
                }
            }),
        decreases hi - lo,
    {
        let ghost views = a@.map_values(|c: Ciphertext| c@);
        let ghost sub = views.subrange(lo as int, hi as int);
        let ghost m = self.ctx.slot_modulus();
        let ghost d = self.ctx.default_ntt_form();
        let ghost kc = relin_keys.key_count();
        proof {
            lemma_sums_nonneg(views.subrange(0, lo as int));
            lemma_sums_nonneg(views.subrange(hi as int, views.len() as int));
            lemma_sums_nonneg(sub);
            lemma_sums_split(views, lo as int);
            lemma_sums_split(views.subrange(lo as int, views.len() as int), hi - lo);
            assert(views.subrange(lo as int, views.len() as int).subrange(0, hi - lo) =~= sub);
            assert(views.subrange(lo as int, views.len() as int).subrange(
                hi - lo,
                views.len() - lo,
            ) =~= views.subrange(hi as int, views.len() as int));
        }
        if hi - lo == 1 {
            proof {
                assert(a@[lo as int].wf(&self.ctx));
                assert(sub.len() == 1);
                assert(sub[0] == views[lo as int]);
                assert(sub.drop_last() =~= Seq::<CtView>::empty());
                assert(sum_sizes(Seq::<CtView>::empty()) == 0);
                assert(sum_abs_scales(Seq::<CtView>::empty()) == 0);
                assert(sub.last() == views[lo as int]);
                assert(sum_sizes(sub) == views[lo as int].size);
                assert(sum_abs_scales(sub) == vstd::math::abs(views[lo as int].scale_log2));
            }
            return Ok(a[lo].clone());
        }
        let mid = lo + (hi - lo) / 2;
        proof {
            lemma_sums_split(sub, (hi - lo) / 2);
            assert(sub.subrange(0, (hi - lo) / 2) =~= views.subrange(lo as int, mid as int));
            assert(sub.subrange((hi - lo) / 2, sub.len() as int) =~= views.subrange(
                mid as int,
                hi as int,
            ));
            lemma_sums_nonneg(views.subrange(lo as int, mid as int));
            lemma_sums_nonneg(views.subrange(mid as int, hi as int));
        }
        let l = match self.mul_tree_exec(a, lo, mid, relin_keys) {
            Ok(c) => c,
            Err(e) => {
                return Err(e);
            },
        };
        let rgt = match self.mul_tree_exec(a, mid, hi, relin_keys) {
            Ok(c) => c,
            Err(e) => {
                return Err(e);
            },
        };
        let d_exec = self.ctx.get_scheme() == SchemeKind::Ckks;
        if l.ntt_form != d_exec || rgt.ntt_form != d_exec {
            return Err(Error::RepresentationMismatch);
        }
        if l.level != rgt.level {
            return Err(Error::LevelMismatch);
        }
        let node_size = l.size - 1 + rgt.size;
        if relin_keys.get_count() < node_size - 2 {
            return Err(Error::InsufficientKeyMaterial);
        }
        let prod = match self.multiply(&l, &rgt) {
            Ok(c) => c,
            Err(_) => {
                proof {
                    assert(false);
                }
                return Err(Error::EngineFailure);
            },
        };
        let node = match self.relinearize(&prod, relin_keys) {
            Ok(c) => c,
            Err(_) => {
                proof {
                    assert(false);
                }
                return Err(Error::EngineFailure);
            },
        };
        Ok(node)
    }

    /// Transforms a ciphertext into NTT form without changing its logical
    /// content; rejected with [`Error::RepresentationMismatch`] exactly when
    /// the operand is already there.
    pub fn transform_to_ntt(&self, a: &Ciphertext) -> (r: Result<Ciphertext, Error>)
        requires
            self.ctx.wf(),
            a.wf(&self.ctx),
        ensures
            a@.ntt_form ==> r == Result::<Ciphertext, Error>::Err(Error::RepresentationMismatch),
            !a@.ntt_form ==> r is Ok && r->Ok_0.wf(&self.ctx) && r->Ok_0@ == (CtView {
                ntt_form: true,
                ..a@
            }),
    {
        if a.ntt_form {
            return Err(Error::RepresentationMismatch);
        }
        let c = Ciphertext {
            slots: crate::arith::copy_slots(&a.slots),
            level: a.level,
            size: a.size,
            scale_log2: a.scale_log2,
            ntt_form: true,
            noise_budget: a.noise_budget,
        };
        proof {
            assert(c@ =~= (CtView { ntt_form: true, ..a@ }));
        }
        Ok(c)
    }

    /// Transforms a ciphertext out of NTT form without changing its logical
    /// content; rejected with [`Error::RepresentationMismatch`] exactly when
    /// the operand is not in it.
    pub fn transform_from_ntt(&self, a: &Ciphertext) -> (r: Result<Ciphertext, Error>)
        requires
            self.ctx.wf(),
            a.wf(&self.ctx),
        ensures
            !a@.ntt_form ==> r == Result::<Ciphertext, Error>::Err(Error::RepresentationMismatch),
            a@.ntt_form ==> r is Ok && r->Ok_0.wf(&self.ctx) && r->Ok_0@ == (CtView {
                ntt_form: false,
                ..a@
            }),
    {
        if !a.ntt_form {
            return Err(Error::RepresentationMismatch);
        }
        let c = Ciphertext {
            slots: crate::arith::copy_slots(&a.slots),
            level: a.level,
            size: a.size,
            scale_log2: a.scale_log2,
            ntt_form: false,
            noise_budget: a.noise_budget,
        };
        proof {
            assert(c@ =~= (CtView { ntt_form: false, ..a@ }));
        }
        Ok(c)
    }

    /// Switches a ciphertext down to the given chain level without touching
    /// its slots, size or scale — used to align two values living at
    /// different levels before combining them. The target must lie strictly
    /// below the operand's level and on the chain (else
    /// [`Error::InvalidLevelTarget`]); the operand must be in the default
    /// representation state (else [`Error::RepresentationMismatch`]).
    pub fn mod_switch_to(&self, a: &Ciphertext, parms_level: usize) -> (r: Result<
        Ciphertext,
        Error,
    >)
        requires
            self.ctx.wf(),
            a.wf(&self.ctx),
        ensures
            ({
                let av = a@;
                if av.ntt_form != self.ctx.default_ntt_form() {
                    r == Result::<Ciphertext, Error>::Err(Error::RepresentationMismatch)
                } else if parms_level <= av.level || parms_level > self.ctx.bottom_level() {
                    r == Result::<Ciphertext, Error>::Err(Error::InvalidLevelTarget)
                } else {
                    r is Ok && r->Ok_0.wf(&self.ctx) && r->Ok_0@ == (CtView {
                        level: parms_level as nat,
                        ..av
                    })
                }
            }),
    {
        if !self.forms_ok(a.ntt_form, a.ntt_form) {
            return Err(Error::RepresentationMismatch);
        }
        if parms_level <= a.level || parms_level > self.ctx.moduli_bits.len() - 1 {
            return Err(Error::InvalidLevelTarget);
        }
        let c = Ciphertext {
            slots: crate::arith::copy_slots(&a.slots),
            level: parms_level,
            size: a.size,
            scale_log2: a.scale_log2,
            ntt_form: a.ntt_form,
            noise_budget: a.noise_budget,
        };
        proof {
            assert(c@ =~= (CtView { level: parms_level as nat, ..a@ }));
        }
        Ok(c)
    }
}

impl EvaluatorOps for Evaluator {
    type Plaintext = Plaintext;

    type Ciphertext = Ciphertext;

    open spec fn evaluation_context(&self) -> Context {
        self.ctx
    }

    open spec fn wf(&self) -> bool {
        self.ctx.wf()
    }

    open spec fn ct_wf(&self, c: &Ciphertext) -> bool {
        c.wf(&self.ctx)
    }

    open spec fn pt_wf(&self, p: &Plaintext) -> bool {
        p.wf(&self.ctx)
    }

    open spec fn ct(c: &Ciphertext) -> CtView {
        c@
    }

    open spec fn pt(p: &Plaintext) -> PtView {
        p@
    }

    fn negate_inplace(&self, a: &mut Ciphertext) -> (r: Result<(), Error>) {
        let slots = slots_neg(&self.ctx, &a.slots);
        a.slots = slots;
        proof {
            assert(a@ =~= neg_ct(self.ctx.slot_modulus(), old(a)@));
        }
        Ok(())
    }

    fn negate(&self, a: &Ciphertext) -> (r: Result<Ciphertext, Error>) {
        let c = Ciphertext {
            slots: slots_neg(&self.ctx, &a.slots),
            level: a.level,
            size: a.size,
            scale_log2: a.scale_log2,
            ntt_form: a.ntt_form,
            noise_budget: a.noise_budget,
        };
        proof {
            assert(c@ =~= neg_ct(self.ctx.slot_modulus(), a@));
        }
        Ok(c)
    }

    fn add_inplace(&self, a: &mut Ciphertext, b: &Ciphertext) -> (r: Result<(), Error>) {
        if !self.forms_ok(a.ntt_form, b.ntt_form) {
            return Err(Error::RepresentationMismatch);
        }
        if a.level != b.level {
            return Err(Error::LevelMismatch);
        }
        if a.scale_log2 != b.scale_log2 {
            return Err(Error::EngineFailure);
        }
        let slots = slots_add(&self.ctx, &a.slots, &b.slots);
        a.slots = slots;
        if b.size > a.size {
            a.size = b.size;
        }
        if b.noise_budget < a.noise_budget {
            a.noise_budget = b.noise_budget;
        }
        proof {
            assert(a@ =~= add_ct(self.ctx.slot_modulus(), old(a)@, b@));
        }
        Ok(())
    }

    fn add(&self, a: &Ciphertext, b: &Ciphertext) -> (r: Result<Ciphertext, Error>) {
        if !self.forms_ok(a.ntt_form, b.ntt_form) {
            return Err(Error::RepresentationMismatch);
        }
        if a.level != b.level {
            return Err(Error::LevelMismatch);
        }
        if a.scale_log2 != b.scale_log2 {
            return Err(Error::EngineFailure);
        }
        let c = Ciphertext {
            slots: slots_add(&self.ctx, &a.slots, &b.slots),
            level: a.level,
            size: if a.size >= b.size {
                a.size
            } else {
                b.size
            },
            scale_log2: a.scale_log2,
            ntt_form: a.ntt_form,
            noise_budget: if a.noise_budget <= b.noise_budget {
                a.noise_budget
            } else {
                b.noise_budget
            },
        };
        proof {
            assert(c@ =~= add_ct(self.ctx.slot_modulus(), a@, b@));
        }
        Ok(c)
    }

    fn sub_inplace(&self, a: &mut Ciphertext, b: &Ciphertext) -> (r: Result<(), Error>) {
        if !self.forms_ok(a.ntt_form, b.ntt_form) {
            return Err(Error::RepresentationMismatch);
        }
        if a.level != b.level {
            return Err(Error::LevelMismatch);
        }
        if a.scale_log2 != b.scale_log2 {
            return Err(Error::EngineFailure);
        }
        let slots = slots_sub(&self.ctx, &a.slots, &b.slots);
        a.slots = slots;
        if b.size > a.size {
            a.size = b.size;
        }
        if b.noise_budget < a.noise_budget {
            a.noise_budget = b.noise_budget;
        }
        proof {
            assert(a@ =~= sub_ct(self.ctx.slot_modulus(), old(a)@, b@));
        }
        Ok(())
    }

    fn sub(&self, a: &Ciphertext, b: &Ciphertext) -> (r: Result<Ciphertext, Error>) {
        if !self.forms_ok(a.ntt_form, b.ntt_form) {
            return Err(Error::RepresentationMismatch);
        }
        if a.level != b.level {
            return Err(Error::LevelMismatch);
        }
        if a.scale_log2 != b.scale_log2 {
            return Err(Error::EngineFailure);
        }
        let c = Ciphertext {
            slots: slots_sub(&self.ctx, &a.slots, &b.slots),
            level: a.level,
            size: if a.size >= b.size {
                a.size
            } else {
                b.size
            },
            scale_log2: a.scale_log2,
            ntt_form: a.ntt_form,
            noise_budget: if a.noise_budget <= b.noise_budget {
                a.noise_budget
            } else {
                b.noise_budget
            },
        };
        proof {
            assert(c@ =~= sub_ct(self.ctx.slot_modulus(), a@, b@));
        }
        Ok(c)
    }

    fn multiply_inplace(&self, a: &mut Ciphertext, b: &Ciphertext) -> (r: Result<(), Error>) {
        if !self.forms_ok(a.ntt_form, b.ntt_form) {
            return Err(Error::RepresentationMismatch);
        }
        if a.level != b.level {
            return Err(Error::LevelMismatch);
        }
        let slots = slots_mul(&self.ctx, &a.slots, &b.slots);
        let noise = noise_after_mul(a.noise_budget, b.noise_budget, a.size, b.size);
        a.slots = slots;
        a.size = a.size - 1 + b.size;
        a.scale_log2 = a.scale_log2 + b.scale_log2;
        a.noise_budget = noise;
        proof {
            assert(a@ =~= mul_ct(self.ctx.slot_modulus(), old(a)@, b@));
        }
        Ok(())
    }

    fn multiply(&self, a: &Ciphertext, b: &Ciphertext) -> (r: Result<Ciphertext, Error>) {
        if !self.forms_ok(a.ntt_form, b.ntt_form) {
            return Err(Error::RepresentationMismatch);
        }
        if a.level != b.level {
            return Err(Error::LevelMismatch);
        }
        let c = Ciphertext {
            slots: slots_mul(&self.ctx, &a.slots, &b.slots),
            level: a.level,
            size: a.size - 1 + b.size,
            scale_log2: a.scale_log2 + b.scale_log2,
            ntt_form: a.ntt_form,
            noise_budget: noise_after_mul(a.noise_budget, b.noise_budget, a.size, b.size),
        };
        proof {
            assert(c@ =~= mul_ct(self.ctx.slot_modulus(), a@, b@));
        }
        Ok(c)
    }

    fn square_inplace(&self, a: &mut Ciphertext) -> (r: Result<(), Error>) {
        if !self.forms_ok(a.ntt_form, a.ntt_form) {
            return Err(Error::RepresentationMismatch);
        }
        let slots = slots_mul(&self.ctx, &a.slots, &a.slots);
        let noise = noise_after_mul(a.noise_budget, a.noise_budget, a.size, a.size);
        a.slots = slots;
        a.size = a.size - 1 + a.size;
        a.scale_log2 = a.scale_log2 + a.scale_log2;
        a.noise_budget = noise;
        proof {
            assert(a@ =~= mul_ct(self.ctx.slot_modulus(), old(a)@, old(a)@));
        }
        Ok(())
    }

    fn square(&self, a: &Ciphertext) -> (r: Result<Ciphertext, Error>) {
        if !self.forms_ok(a.ntt_form, a.ntt_form) {
            return Err(Error::RepresentationMismatch);
        }
        let c = Ciphertext {
            slots: slots_mul(&self.ctx, &a.slots, &a.slots),
            level: a.level,
            size: a.size - 1 + a.size,
            scale_log2: a.scale_log2 + a.scale_log2,
            ntt_form: a.ntt_form,
            noise_budget: noise_after_mul(a.noise_budget, a.noise_budget, a.size, a.size),
        };
        proof {
            assert(c@ =~= mul_ct(self.ctx.slot_modulus(), a@, a@));
        }
        Ok(c)
    }

    fn relinearize_inplace(&self, a: &mut Ciphertext, relin_keys: &RelinearizationKey) -> (r:
        Result<(), Error>) {
        if !self.forms_ok(a.ntt_form, a.ntt_form) {
            return Err(Error::RepresentationMismatch);
        }
        if a.size >= 2 && relin_keys.get_count() < a.size - 2 {
            return Err(Error::InsufficientKeyMaterial);
        }
        a.size = 2;
        proof {
            assert(a@ =~= relin_ct(old(a)@));
        }
        Ok(())
    }

    fn relinearize(&self, a: &Ciphertext, relin_keys: &RelinearizationKey) -> (r: Result<
        Ciphertext,
        Error,
    >) {
        if !self.forms_ok(a.ntt_form, a.ntt_form) {
            return Err(Error::RepresentationMismatch);
        }
        if a.size >= 2 && relin_keys.get_count() < a.size - 2 {
            return Err(Error::InsufficientKeyMaterial);
        }
        let c = Ciphertext {
            slots: crate::arith::copy_slots(&a.slots),
            level: a.level,
            size: 2,
            scale_log2: a.scale_log2,
            ntt_form: a.ntt_form,
            noise_budget: a.noise_budget,
        };
        proof {
            assert(c@ =~= relin_ct(a@));
        }
        Ok(c)
    }

    fn mod_switch_to_next(&self, a: &Ciphertext) -> (r: Result<Ciphertext, Error>) {
        if !self.forms_ok(a.ntt_form, a.ntt_form) {
            return Err(Error::RepresentationMismatch);
        }
        if a.level == self.ctx.moduli_bits.len() - 1 {
            return Err(Error::ChainExhausted);
        }
        let c = Ciphertext {
            slots: crate::arith::copy_slots(&a.slots),
            level: a.level + 1,
            size: a.size,
            scale_log2: a.scale_log2,
            ntt_form: a.ntt_form,
            noise_budget: a.noise_budget,
        };
        proof {
            assert(c@ =~= modswitch_ct(a@));
        }
        Ok(c)
    }

    fn mod_switch_to_next_inplace(&self, a: &mut Ciphertext) -> (r: Result<(), Error>) {
        if !self.forms_ok(a.ntt_form, a.ntt_form) {
            return Err(Error::RepresentationMismatch);
        }
        if a.level == self.ctx.moduli_bits.len() - 1 {
            return Err(Error::ChainExhausted);
        }
        a.level = a.level + 1;
        proof {
            assert(a@ =~= modswitch_ct(old(a)@));
        }
        Ok(())
    }

    fn mod_switch_to_next_plaintext(&self, a: &Plaintext) -> (r: Result<Plaintext, Error>) {
        if !a.ntt_form {
            return Err(Error::RepresentationMismatch);
        }
        if a.level == self.ctx.moduli_bits.len() - 1 {
            return Err(Error::ChainExhausted);
        }
        let p = Plaintext {
            slots: crate::arith::copy_slots(&a.slots),
            level: a.level + 1,
            scale_log2: a.scale_log2,
            ntt_form: a.ntt_form,
        };
        proof {
            assert(p@ =~= modswitch_pt(a@));
        }
        Ok(p)
    }

    fn mod_switch_to_next_inplace_plaintext(&self, a: &mut Plaintext) -> (r: Result<(), Error>) {
        if !a.ntt_form {
            return Err(Error::RepresentationMismatch);
        }
        if a.level == self.ctx.moduli_bits.len() - 1 {
            return Err(Error::ChainExhausted);
        }
        a.level = a.level + 1;
        proof {
            assert(a@ =~= modswitch_pt(old(a)@));
        }
        Ok(())
    }

    fn rescale_to_next(&self, a: &Ciphertext) -> (r: Result<Ciphertext, Error>) {
        if !self.forms_ok(a.ntt_form, a.ntt_form) {
            return Err(Error::RepresentationMismatch);
        }
        if a.level == self.ctx.moduli_bits.len() - 1 {
            return Err(Error::ChainExhausted);
        }
        Ok(rescale_step(&self.ctx, a))
    }

    fn rescale_to_next_inplace(&self, a: &mut Ciphertext) -> (r: Result<(), Error>) {
        if !self.forms_ok(a.ntt_form, a.ntt_form) {
            return Err(Error::RepresentationMismatch);
        }
        if a.level == self.ctx.moduli_bits.len() - 1 {
            return Err(Error::ChainExhausted);
        }
        let c = rescale_step(&self.ctx, a);
        *a = c;
        Ok(())
    }

    fn rescale_to(&self, a: &Ciphertext, parms_level: usize) -> (r: Result<Ciphertext, Error>) {
        if !self.forms_ok(a.ntt_form, a.ntt_form) {
            return Err(Error::RepresentationMismatch);
        }
        if parms_level <= a.level || parms_level > self.ctx.moduli_bits.len() - 1 {
            return Err(Error::InvalidLevelTarget);
        }
        let mut cur = a.clone();
        while cur.level < parms_level
            invariant
                self.wf(),
                cur.wf(&self.ctx),
                self.ctx.scheme_kind() == SchemeKind::Ckks,
                parms_level <= self.ctx.bottom_level(),
                cur@.level <= parms_level,
                cur@.scale_log2 >= i64::MIN + 60 * (parms_level - cur@.level),
                rescale_steps(self.ctx, cur@, parms_level as nat) == rescale_steps(
                    self.ctx,
                    a@,
                    parms_level as nat,
                ),
            decreases parms_level - cur@.level,
        {
            let next = rescale_step(&self.ctx, &cur);
            cur = next;
        }
        Ok(cur)
    }

    fn add_plain(&self, a: &Ciphertext, b: &Plaintext) -> (r: Result<Ciphertext, Error>) {
        if !self.forms_ok(a.ntt_form, b.ntt_form) {
            return Err(Error::RepresentationMismatch);
        }
        if b.ntt_form && b.level != a.level {
            return Err(Error::LevelMismatch);
        }
        if b.scale_log2 != a.scale_log2 {
            return Err(Error::EngineFailure);
        }
        let c = Ciphertext {
            slots: slots_add(&self.ctx, &a.slots, &b.slots),
            level: a.level,
            size: a.size,
            scale_log2: a.scale_log2,
            ntt_form: a.ntt_form,
            noise_budget: a.noise_budget,
        };
        proof {
            assert(c@ =~= add_plain_ct(self.ctx.slot_modulus(), a@, b@));
        }
        Ok(c)
    }

    fn add_plain_inplace(&self, a: &mut Ciphertext, b: &Plaintext) -> (r: Result<(), Error>) {
        if !self.forms_ok(a.ntt_form, b.ntt_form) {
            return Err(Error::RepresentationMismatch);
        }
        if b.ntt_form && b.level != a.level {
            return Err(Error::LevelMismatch);
        }
        if b.scale_log2 != a.scale_log2 {
            return Err(Error::EngineFailure);
        }
        let slots = slots_add(&self.ctx, &a.slots, &b.slots);
        a.slots = slots;
        proof {
            assert(a@ =~= add_plain_ct(self.ctx.slot_modulus(), old(a)@, b@));
        }
        Ok(())
    }

    fn sub_plain(&self, a: &Ciphertext, b: &Plaintext) -> (r: Result<Ciphertext, Error>) {
        if !self.forms_ok(a.ntt_form, b.ntt_form) {
            return Err(Error::RepresentationMismatch);
        }
        if b.ntt_form && b.level != a.level {
            return Err(Error::LevelMismatch);
        }
        if b.scale_log2 != a.scale_log2 {
            return Err(Error::EngineFailure);
        }
        let c = Ciphertext {
            slots: slots_sub(&self.ctx, &a.slots, &b.slots),
            level: a.level,
            size: a.size,
            scale_log2: a.scale_log2,
            ntt_form: a.ntt_form,
            noise_budget: a.noise_budget,
        };
        proof {
            assert(c@ =~= sub_plain_ct(self.ctx.slot_modulus(), a@, b@));
        }
        Ok(c)
    }

    fn sub_plain_inplace(&self, a: &mut Ciphertext, b: &Plaintext) -> (r: Result<(), Error>) {
        if !self.forms_ok(a.ntt_form, b.ntt_form) {
            return Err(Error::RepresentationMismatch);
        }
        if b.ntt_form && b.level != a.level {
            return Err(Error::LevelMismatch);
        }
        if b.scale_log2 != a.scale_log2 {
            return Err(Error::EngineFailure);
        }
        let slots = slots_sub(&self.ctx, &a.slots, &b.slots);
        a.slots = slots;
        proof {
            assert(a@ =~= sub_plain_ct(self.ctx.slot_modulus(), old(a)@, b@));
        }
        Ok(())
    }

    fn multiply_plain(&self, a: &Ciphertext, b: &Plaintext) -> (r: Result<Ciphertext, Error>) {
        if !self.forms_ok(a.ntt_form, b.ntt_form) {
            return Err(Error::RepresentationMismatch);
        }
        if b.ntt_form && b.level != a.level {
            return Err(Error::LevelMismatch);
        }
        let c = Ciphertext {
            slots: slots_mul(&self.ctx, &a.slots, &b.slots),
            level: a.level,
            size: a.size,
            scale_log2: a.scale_log2 + b.scale_log2,
            ntt_form: a.ntt_form,
            noise_budget: a.noise_budget,
        };
        proof {
            assert(c@ =~= mul_plain_ct(self.ctx.slot_modulus(), a@, b@));
        }
        Ok(c)
    }

    fn multiply_plain_inplace(&self, a: &mut Ciphertext, b: &Plaintext) -> (r: Result<(), Error>) {
        if !self.forms_ok(a.ntt_form, b.ntt_form) {
            return Err(Error::RepresentationMismatch);
        }
        if b.ntt_form && b.level != a.level {
            return Err(Error::LevelMismatch);
        }
        let slots = slots_mul(&self.ctx, &a.slots, &b.slots);
        a.slots = slots;
        a.scale_log2 = a.scale_log2 + b.scale_log2;
        proof {
            assert(a@ =~= mul_plain_ct(self.ctx.slot_modulus(), old(a)@, b@));
        }
        Ok(())
    }

    fn rotate_rows(&self, a: &Ciphertext, steps: i32, galois_keys: &GaloisKey) -> (r: Result<
        Ciphertext,
        Error,
    >) {
        if !self.forms_ok(a.ntt_form, a.ntt_form) {
            return Err(Error::RepresentationMismatch);
        }
        let row = self.ctx.degree / 2;
        if (steps as i64) <= -(row as i64) || (steps as i64) >= (row as i64) {
            return Err(Error::InvalidRotationStep);
        }
        let shift = shift_of_steps(steps, row);
        let c = Ciphertext {
            slots: crate::arith::rotate_rows_slots(&a.slots, row, shift),
            level: a.level,
            size: a.size,
            scale_log2: a.scale_log2,
            ntt_form: a.ntt_form,
            noise_budget: a.noise_budget,
        };
        proof {
            assert(c@ =~= rotate_rows_ct(a@, row as int, steps as int));
        }
        Ok(c)
    }

    fn rotate_rows_inplace(&self, a: &mut Ciphertext, steps: i32, galois_keys: &GaloisKey) -> (r:
        Result<(), Error>) {
        if !self.forms_ok(a.ntt_form, a.ntt_form) {
            return Err(Error::RepresentationMismatch);
        }
        let row = self.ctx.degree / 2;
        if (steps as i64) <= -(row as i64) || (steps as i64) >= (row as i64) {
            return Err(Error::InvalidRotationStep);
        }
        let shift = shift_of_steps(steps, row);
        let slots = crate::arith::rotate_rows_slots(&a.slots, row, shift);
        a.slots = slots;
        proof {
            assert(a@ =~= rotate_rows_ct(old(a)@, row as int, steps as int));
        }
        Ok(())
    }

    fn rotate_columns(&self, a: &Ciphertext, galois_keys: &GaloisKey) -> (r: Result<
        Ciphertext,
        Error,
    >) {
        if !self.forms_ok(a.ntt_form, a.ntt_form) {
            return Err(Error::RepresentationMismatch);
        }
        let row = self.ctx.degree / 2;
        let c = Ciphertext {
            slots: crate::arith::rotate_columns_slots(&a.slots, row),
            level: a.level,
            size: a.size,
            scale_log2: a.scale_log2,
            ntt_form: a.ntt_form,
            noise_budget: a.noise_budget,
        };
        proof {
            assert(c@ =~= rotate_columns_ct(a@, row as int));
        }
        Ok(c)
    }

    fn rotate_columns_inplace(&self, a: &mut Ciphertext, galois_keys: &GaloisKey) -> (r: Result<
        (),
        Error,
    >) {
        if !self.forms_ok(a.ntt_form, a.ntt_form) {
            return Err(Error::RepresentationMismatch);
        }
        let row = self.ctx.degree / 2;
        let slots = crate::arith::rotate_columns_slots(&a.slots, row);
        a.slots = slots;
        proof {
            assert(a@ =~= rotate_columns_ct(old(a)@, row as int));
        }
        Ok(())
    }

    fn add_many(&self, a: &[Ciphertext]) -> (r: Result<Ciphertext, Error>) {
        let ghost views = a@.map_values(|c: Ciphertext| Self::ct(&c));
        let ghost d = self.ctx.default_ntt_form();
        let d_exec = self.ctx.get_scheme() == SchemeKind::Ckks;
        let mut i: usize = 0;
        while i < a.len()
            invariant
                self.wf(),
                a@.len() >= 1,
                views == a@.map_values(|c: Ciphertext| Self::ct(&c)),
                d == self.ctx.default_ntt_form(),
                d_exec == d,
                0 <= i <= a@.len(),
                forall|j: int| 0 <= j < i ==> meta_ok(views, d, j),
            decreases a@.len() - i,
        {
            proof {
                lemma_first_meta_err_skip(views, d, i as nat);
                assert(views[i as int] == a@[i as int]@);
                assert(views[0] == a@[0]@);
            }
            if a[i].ntt_form != d_exec {
                return Err(Error::RepresentationMismatch);
            }
            if a[i].level != a[0].level {
                return Err(Error::LevelMismatch);
            }
            if a[i].scale_log2 != a[0].scale_log2 {
                return Err(Error::EngineFailure);
            }
            i = i + 1;
        }
        proof {
            lemma_first_meta_err_skip(views, d, a@.len());
        }
        let mut acc = a[0].clone();
        proof {
            assert(views.take(1).drop_last() =~= Seq::<CtView>::empty());
            assert(acc@ == add_many_ct(self.ctx.slot_modulus(), views.take(1)));
        }
        let mut k: usize = 1;
        while k < a.len()
            invariant
                self.wf(),
                a@.len() >= 1,
                views == a@.map_values(|c: Ciphertext| Self::ct(&c)),
                d == self.ctx.default_ntt_form(),
                forall|j: int| 0 <= j < a@.len() ==> self.ct_wf(#[trigger] &a@[j]),
                forall|j: int| 0 <= j < a@.len() ==> meta_ok(views, d, j),
                1 <= k <= a@.len(),
                acc.wf(&self.ctx),
                acc@ == add_many_ct(self.ctx.slot_modulus(), views.take(k as int)),
                acc@.ntt_form == d,
                acc@.level == views[0].level,
                acc@.scale_log2 == views[0].scale_log2,
            decreases a@.len() - k,
        {
            proof {
                assert(views[k as int] == a@[k as int]@);
                assert(views[0] == a@[0]@);
                assert(meta_ok(views, d, k as int));
            }
            let step = self.add(&acc, &a[k]);
            match step {
                Ok(c) => {
                    proof {
                        assert(views.take(k + 1).drop_last() =~= views.take(k as int));
                        assert(views.take(k + 1).last() == views[k as int]);
                    }
                    acc = c;
                },
                Err(e) => {
                    proof {
                        assert(false);
                    }
                    return Err(e);
                },
            }
            k = k + 1;
        }
        proof {
            assert(views.take(a@.len() as int) =~= views);
        }
        Ok(acc)
    }

    fn exponentiate(&self, a: &Ciphertext, exponent: u64, relin_keys: &RelinearizationKey) -> (r:
        Result<Ciphertext, Error>) {
        if !self.forms_ok(a.ntt_form, a.ntt_form) {
            return Err(Error::RepresentationMismatch);
        }
        if exponent >= 2 && relin_keys.get_count() < 2 * a.size - 3 {
            return Err(Error::InsufficientKeyMaterial);
        }
        Ok(self.pow_exec(a, exponent, relin_keys))
    }

    fn exponentiate_inplace(
        &self,
        a: &mut Ciphertext,
        exponent: u64,
        relin_keys: &RelinearizationKey,
    ) -> (r: Result<(), Error>) {
        if !self.forms_ok(a.ntt_form, a.ntt_form) {
            return Err(Error::RepresentationMismatch);
        }
        if exponent >= 2 && relin_keys.get_count() < 2 * a.size - 3 {
            return Err(Error::InsufficientKeyMaterial);
        }
        let c = self.pow_exec(a, exponent, relin_keys);
        *a = c;
        Ok(())
    }

    fn multiply_many(&self, a: &[Ciphertext], relin_keys: &RelinearizationKey) -> (r: Result<
        Ciphertext,
        Error,
    >) {
        let ghost views = a@.map_values(|c: Ciphertext| Self::ct(&c));
        proof {
            assert(views =~= a@.map_values(|c: Ciphertext| c@));
            assert(views.subrange(0, views.len() as int) =~= views);
        }
        self.mul_tree_exec(a, 0, a.len(), relin_keys)
    }
}

} // verus!
