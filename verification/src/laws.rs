//! The algebraic laws of the evaluation layer.
//!
//! Each public proof function here states one guarantee of the operation set
//! over the spec functions the evaluator's contracts use: what a combined
//! ciphertext decrypts to, slot by slot, in terms of what its operands
//! decrypt to. Decoding a slot means taking the centered representative of
//! its residue, as the encoders' contracts state.

use vstd::prelude::*;
use vstd::arithmetic::div_mod::{
    lemma_add_mod_noop, lemma_fundamental_div_mod, lemma_mod_bound, lemma_mod_multiples_vanish,
    lemma_mod_twice, lemma_mul_mod_noop_general, lemma_small_mod, lemma_sub_mod_noop,
};
use vstd::arithmetic::power::pow;
use crate::arith::{centered, mod_add, mod_mul};
use crate::ciphertext::CtView;

use crate::evaluator::{add_ct, add_many_ct, mul_ct, mul_relin_ct, mul_tree_ct, relin_ct};

verus! {

/// A residue's centered representative is congruent to it and lies in the
/// centered band `-m <= 2c < m`.
pub proof fn lemma_centered_of_residue(m: int, r: int)
    requires
        0 < m,
        0 <= r < m,
    ensures
        (centered(m, r) - r) % m == 0,
        -m <= 2 * centered(m, r) < m,
{
    if 2 * r < m {
        lemma_small_mod(0nat, m as nat);
    } else {
        lemma_mod_multiples_vanish(-1, 0, m);
        lemma_small_mod(0nat, m as nat);
    }
}

/// Two congruent values of the centered band are equal: the band is one
/// residue class wide.
pub proof fn lemma_band_unique(m: int, c1: int, c2: int)
    requires
        0 < m,
        -m <= 2 * c1 < m,
        -m <= 2 * c2 < m,
        (c1 - c2) % m == 0,
    ensures
        c1 == c2,
{
    let d = c1 - c2;
    if d >= 0 {
        lemma_small_mod(d as nat, m as nat);
    } else {
        lemma_mod_multiples_vanish(1, d, m);
        lemma_small_mod((d + m) as nat, m as nat);
    }
}

/// Congruence is transitive.
proof fn lemma_cong_trans(m: int, a: int, b: int, c: int)
    requires
        0 < m,
        (a - b) % m == 0,
        (b - c) % m == 0,
    ensures
        (a - c) % m == 0,
{
    lemma_add_mod_noop(a - b, b - c, m);
    lemma_small_mod(0nat, m as nat);
}

/// Congruence is symmetric.
proof fn lemma_cong_sym(m: int, a: int, b: int)
    requires
        0 < m,
        (a - b) % m == 0,
    ensures
        (b - a) % m == 0,
{
    lemma_fundamental_div_mod(a - b, m);
    let t = (a - b) / m;
    assert(b - a == m * (0 - t) + 0) by (nonlinear_arith)
        requires
            a - b == m * t,
    ;
    lemma_mod_multiples_vanish(0 - t, 0, m);
    lemma_small_mod(0nat, m as nat);
}

/// Congruent values have one residue.
proof fn lemma_cong_mod_eq(m: int, a: int, b: int)
    requires
        0 < m,
        (a - b) % m == 0,
    ensures
        a % m == b % m,
{
    lemma_fundamental_div_mod(a - b, m);
    let t = (a - b) / m;
    assert(a == m * t + b);
    lemma_mod_multiples_vanish(t, b, m);
}

/// Values with one residue are congruent.
proof fn lemma_mod_eq_cong(m: int, a: int, b: int)
    requires
        0 < m,
        a % m == b % m,
    ensures
        (a - b) % m == 0,
{
    lemma_sub_mod_noop(a, b, m);
    lemma_small_mod(0nat, m as nat);
}

/// Congruence passes through sums.
proof fn lemma_cong_add(m: int, a1: int, a2: int, b1: int, b2: int)
    requires
        0 < m,
        (a1 - b1) % m == 0,
        (a2 - b2) % m == 0,
    ensures
        ((a1 + a2) - (b1 + b2)) % m == 0,
{
    lemma_add_mod_noop(a1 - b1, a2 - b2, m);
    lemma_small_mod(0nat, m as nat);
}

/// Congruence passes through products.
proof fn lemma_cong_mul(m: int, a1: int, a2: int, b1: int, b2: int)
    requires
        0 < m,
        (a1 - b1) % m == 0,
        (a2 - b2) % m == 0,
    ensures
        (a1 * a2 - b1 * b2) % m == 0,
{
    lemma_cong_mod_eq(m, a1, b1);
    lemma_cong_mod_eq(m, a2, b2);
    lemma_mul_mod_noop_general(a1, a2, m);
    lemma_mul_mod_noop_general(b1, b2, m);
    lemma_mod_eq_cong(m, a1 * a2, b1 * b2);
}

/// A reduced value is congruent to the value it reduces.
proof fn lemma_reduce_cong(m: int, x: int)
    requires
        0 < m,
    ensures
        (x % m - x) % m == 0,
{
    lemma_mod_twice(x, m);
    lemma_mod_eq_cong(m, x % m, x);
}

/// Adding two ciphertexts adds the plaintexts they decrypt to: in each slot
/// the decoded value of the sum is congruent, modulo the slot modulus, to
/// the sum of the decoded operands, and equals it exactly whenever that sum
/// stays within the centered band — near-exact addition, with wraparound
/// only at the ring boundary.
pub proof fn lemma_add_decrypts_to_sum(m: int, x: u128, y: u128)
    requires
        2 <= m,
        x < m,
        y < m,
    ensures
        (centered(m, mod_add(m, x as int, y as int)) - (centered(m, x as int) + centered(
            m,
            y as int,
        ))) % m == 0,
        -m <= 2 * (centered(m, x as int) + centered(m, y as int)) < m ==> centered(
            m,
            mod_add(m, x as int, y as int),
        ) == centered(m, x as int) + centered(m, y as int),
{
    let cx = centered(m, x as int);
    let cy = centered(m, y as int);
    let v = mod_add(m, x as int, y as int);
    lemma_mod_bound(x + y, m);
    lemma_centered_of_residue(m, x as int);
    lemma_centered_of_residue(m, y as int);
    lemma_centered_of_residue(m, v);
    lemma_reduce_cong(m, x + y);
    lemma_cong_sym(m, cx, x as int);
    lemma_cong_sym(m, cy, y as int);
    lemma_cong_add(m, x as int, y as int, cx, cy);
    lemma_cong_trans(m, centered(m, v), v, x + y);
    lemma_cong_trans(m, centered(m, v), x + y, cx + cy);
    if -m <= 2 * (cx + cy) < m {
        lemma_band_unique(m, centered(m, v), cx + cy);
    }
}

/// Multiplying two ciphertexts multiplies the plaintexts they decrypt to: in
/// each slot the decoded value of the product is congruent, modulo the slot
/// modulus, to the product of the decoded operands, and equals it exactly
/// whenever that product stays within the centered band.
pub proof fn lemma_multiply_decrypts_to_product(m: int, x: u128, y: u128)
    requires
        2 <= m,
        x < m,
        y < m,
    ensures
        (centered(m, mod_mul(m, x as int, y as int)) - centered(m, x as int) * centered(
            m,
            y as int,
        )) % m == 0,
        -m <= 2 * (centered(m, x as int) * centered(m, y as int)) < m ==> centered(
            m,
            mod_mul(m, x as int, y as int),
        ) == centered(m, x as int) * centered(m, y as int),
{
    let cx = centered(m, x as int);
    let cy = centered(m, y as int);
    let v = mod_mul(m, x as int, y as int);
    lemma_mod_bound((x as int) * (y as int), m);
    lemma_centered_of_residue(m, x as int);
    lemma_centered_of_residue(m, y as int);
    lemma_centered_of_residue(m, v);
    lemma_reduce_cong(m, (x as int) * (y as int));
    lemma_cong_sym(m, cx, x as int);
    lemma_cong_sym(m, cy, y as int);
    lemma_cong_mul(m, x as int, y as int, cx, cy);
    lemma_cong_trans(m, centered(m, v), v, (x as int) * (y as int));
    lemma_cong_trans(m, centered(m, v), (x as int) * (y as int), cx * cy);
    if -m <= 2 * (cx * cy) < m {
        lemma_band_unique(m, centered(m, v), cx * cy);
    }
}

/// Relinearization does not touch the plaintext a ciphertext decrypts to:
/// the slots are exactly those of the input, while the size becomes the
/// canonical 2 whatever it was before.
pub proof fn lemma_relinearize_preserves_plaintext(a: CtView)
    ensures
        relin_ct(a).slots == a.slots,
        relin_ct(a).size == 2,
        relin_ct(a).level == a.level,
        relin_ct(a).scale_log2 == a.scale_log2,
{
}

/// Rescaling is a no-op on the decrypted value up to the scheme's rounding
/// error: the rescaled slot decodes to the old slot's centered value
/// divided by the dropped modulus's magnitude, rounded toward negative
/// infinity — so the quotient times the magnitude sits within one
/// magnitude below the original, as [`crate::arith::lemma_rescale_rounding`]
/// bounds it. The level advance of exactly one step is part of
/// [`crate::evaluator::rescale_ct`] itself.
pub proof fn lemma_rescale_decrypts_to_quotient(s: u128, b: nat)
    ensures
        ({
            let m = crate::context::ckks_modulus();
            let d = vstd::arithmetic::power2::pow2(b) as int;
            centered(m, crate::arith::rescale_slot_spec(s, b) as int) == centered(m, s as int) / d
        }),
{
    let m = crate::context::ckks_modulus();
    let d = vstd::arithmetic::power2::pow2(b) as int;
    vstd::arithmetic::power2::lemma_pow2_pos(b);
    let c = centered(m, s as int);
    let q = c / d;
    lemma_centered_of_residue(m, s as int);
    lemma_fundamental_div_mod(c, d);
    let r0 = c % d;
    lemma_mod_bound(c, d);
    assert(c == d * q + r0);
    if c >= 0 {
        assert(q >= 0) by (nonlinear_arith)
            requires
                c == d * q + r0,
                c >= 0,
                0 <= r0 < d,
                d >= 1,
        ;
        assert(q <= c) by (nonlinear_arith)
            requires
                c == d * q + r0,
                0 <= r0,
                d >= 1,
                q >= 0,
        ;
        lemma_small_mod(q as nat, m as nat);
        assert(centered(m, q % m) == q);
    } else {
        assert(q <= 0) by (nonlinear_arith)
            requires
                c == d * q + r0,
                c < 0,
                0 <= r0 < d,
                d >= 1,
        ;
        assert(c <= q) by (nonlinear_arith)
            requires
                c == d * q + r0,
                c < 0,
                0 <= r0 < d,
                d >= 1,
                q <= 0,
        ;
        if q == 0 {
            lemma_small_mod(0nat, m as nat);
            assert(centered(m, q % m) == q);
        } else {
            lemma_mod_multiples_vanish(1, q, m);
            lemma_small_mod((q + m) as nat, m as nat);
            assert(q % m == q + m);
            assert(2 * (q + m) >= m);
            assert(centered(m, q % m) == q);
        }
    }
    assert(crate::arith::rescale_slot_spec(s, b) as int == q % m);
}

/// Encoding then decoding is the identity on every value the centered band
/// holds: reducing a signed value to its residue and taking the centered
/// representative gives the value back — the general fact behind the
/// encoders' exact round trip.
pub proof fn lemma_encode_decode_round_trip(m: int, v: int)
    requires
        2 <= m,
        -m <= 2 * v < m,
    ensures
        centered(m, v % m) == v,
{
    lemma_mod_bound(v, m);
    lemma_centered_of_residue(m, v % m);
    lemma_reduce_cong(m, v);
    lemma_cong_trans(m, centered(m, v % m), v % m, v);
    lemma_band_unique(m, centered(m, v % m), v);
}

/// The sum of the decoded values of slot `k` across a list of ciphertexts.
pub open spec fn sum_centered(m: int, views: Seq<CtView>, k: int) -> int
    decreases views.len(),
{
    if views.len() == 0 {
        0
    } else {
        sum_centered(m, views.drop_last(), k) + centered(m, views.last().slots[k] as int)
    }
}

/// The product of the decoded values of slot `k` across a list of
/// ciphertexts.
pub open spec fn prod_centered(m: int, views: Seq<CtView>, k: int) -> int
    decreases views.len(),
{
    if views.len() == 0 {
        1
    } else {
        prod_centered(m, views.drop_last(), k) * centered(m, views.last().slots[k] as int)
    }
}

/// The addition reduction of a list decrypts to the sum of what its
/// elements decrypt to: in each slot the decoded value of `add_many`'s
/// result is congruent, modulo the slot modulus, to the sum of the decoded
/// inputs.
pub proof fn lemma_add_many_decrypts_to_sum(m: int, views: Seq<CtView>, k: int)
    requires
        2 <= m <= 0x1_0000_0000_0000_0000_0000_0000_0000_0000int,
        views.len() >= 1,
        forall|i: int|
            0 <= i < views.len() ==> (#[trigger] views[i]).slots.len() == views[0].slots.len(),
        forall|i: int| 0 <= i < views.len() ==> (#[trigger] views[i]).slots[k] < m,
        0 <= k < views[0].slots.len(),
    ensures
        add_many_ct(m, views).slots.len() == views[0].slots.len(),
        add_many_ct(m, views).slots[k] < m,
        (centered(m, add_many_ct(m, views).slots[k] as int) - sum_centered(m, views, k)) % m == 0,
    decreases views.len(),
{
    if views.len() == 1 {
        assert(views.drop_last() =~= Seq::<CtView>::empty());
        assert(sum_centered(m, Seq::<CtView>::empty(), k) == 0);
        assert(views.last() == views[0]);
        assert(sum_centered(m, views, k) == centered(m, views[0].slots[k] as int));
        lemma_centered_of_residue(m, views[0].slots[k] as int);
        lemma_small_mod(0nat, m as nat);
    } else {
        let prev = views.drop_last();
        let last = views.last();
        assert(prev[0] == views[0]);
        lemma_add_many_decrypts_to_sum(m, prev, k);
        let acc = add_many_ct(m, prev);
        let whole = add_ct(m, acc, last);
        assert(add_many_ct(m, views) == whole);
        lemma_mod_bound(acc.slots[k] + last.slots[k], m);
        assert(last.slots[k] < m);
        assert(whole.slots[k] == mod_add(m, acc.slots[k] as int, last.slots[k] as int) as u128);
        lemma_small_mod(0nat, m as nat);
        lemma_add_decrypts_to_sum(m, acc.slots[k], last.slots[k]);
        lemma_cong_add(
            m,
            centered(m, acc.slots[k] as int),
            centered(m, last.slots[k] as int),
            sum_centered(m, prev, k),
            centered(m, last.slots[k] as int),
        );
        lemma_cong_trans(
            m,
            centered(m, whole.slots[k] as int),
            centered(m, acc.slots[k] as int) + centered(m, last.slots[k] as int),
            sum_centered(m, views, k),
        );
    }
}

/// A list product of decoded slots splits at any cut point.
proof fn lemma_prod_centered_split(m: int, views: Seq<CtView>, k: int, j: int)
    requires
        0 <= j <= views.len(),
    ensures
        prod_centered(m, views, k) == prod_centered(m, views.subrange(0, j), k) * prod_centered(
            m,
            views.subrange(j, views.len() as int),
            k,
        ),
    decreases views.len(),
{
    if j == views.len() {
        assert(views.subrange(0, j) =~= views);
        assert(views.subrange(j, views.len() as int) =~= Seq::<CtView>::empty());
    } else {
        let last = views.last();
        let cl = centered(m, last.slots[k] as int);
        lemma_prod_centered_split(m, views.drop_last(), k, j);
        assert(views.drop_last().subrange(0, j) =~= views.subrange(0, j));
        assert(views.drop_last().subrange(j, views.len() - 1) =~= views.subrange(
            j,
            views.len() as int,
        ).drop_last());
        assert(views.subrange(j, views.len() as int).last() == last);
        let a = prod_centered(m, views.subrange(0, j), k);
        let b = prod_centered(m, views.subrange(j, views.len() as int).drop_last(), k);
        assert((a * b) * cl == a * (b * cl)) by (nonlinear_arith);
    }
}

/// The multiplication reduction of a list of canonical ciphertexts at one
/// level, given at least one relinearization key, succeeds and decrypts to
/// the product of what its elements decrypt to: in each slot the decoded
/// value of `multiply_many`'s result is congruent, modulo the slot modulus,
/// to the product of the decoded inputs — and it comes back relinearized,
/// at size 2, whenever the list has at least two elements.
pub proof fn lemma_multiply_many_decrypts_to_product(
    m: int,
    d: bool,
    kc: nat,
    views: Seq<CtView>,
    k: int,
)
    requires
        2 <= m <= 0x1_0000_0000_0000_0000_0000_0000_0000_0000int,
        1 <= kc,
        views.len() >= 1,
        forall|i: int| 0 <= i < views.len() ==> (#[trigger] views[i]).ntt_form == d,
        forall|i: int| 0 <= i < views.len() ==> (#[trigger] views[i]).level == views[0].level,
        forall|i: int| 0 <= i < views.len() ==> (#[trigger] views[i]).size == 2,
        forall|i: int|
            0 <= i < views.len() ==> (#[trigger] views[i]).slots.len() == views[0].slots.len(),
        forall|i: int| 0 <= i < views.len() ==> (#[trigger] views[i]).slots[k] < m,
        0 <= k < views[0].slots.len(),
    ensures
        mul_tree_ct(m, d, kc, views) is Ok,
        ({
            let c = mul_tree_ct(m, d, kc, views)->Ok_0;
            &&& c.slots.len() == views[0].slots.len()
            &&& c.slots[k] < m
            &&& c.ntt_form == d
            &&& c.level == views[0].level
            &&& c.size == 2
            &&& (centered(m, c.slots[k] as int) - prod_centered(m, views, k)) % m == 0
        }),
    decreases views.len(),
{
    if views.len() == 1 {
        assert(views.drop_last() =~= Seq::<CtView>::empty());
        assert(prod_centered(m, Seq::<CtView>::empty(), k) == 1);
        assert(views.last() == views[0]);
        assert(prod_centered(m, views, k) == 1 * centered(m, views[0].slots[k] as int));
        lemma_small_mod(0nat, m as nat);
    } else {
        let n = views.len() as int;
        let left = views.subrange(0, n / 2);
        let right = views.subrange(n / 2, n);
        assert(left[0] == views[0]);
        assert(right[0] == views[n / 2]);
        lemma_multiply_many_decrypts_to_product(m, d, kc, left, k);
        lemma_multiply_many_decrypts_to_product(m, d, kc, right, k);
        let lc = mul_tree_ct(m, d, kc, left)->Ok_0;
        let rc = mul_tree_ct(m, d, kc, right)->Ok_0;
        let node = mul_relin_ct(m, d, kc, lc, rc);
        assert(node is Ok);
        let c = node->Ok_0;
        lemma_mod_bound((lc.slots[k] as int) * (rc.slots[k] as int), m);
        assert(c.slots[k] == mod_mul(m, lc.slots[k] as int, rc.slots[k] as int) as u128);
        lemma_multiply_decrypts_to_product(m, lc.slots[k], rc.slots[k]);
        lemma_cong_mul(
            m,
            centered(m, lc.slots[k] as int),
            centered(m, rc.slots[k] as int),
            prod_centered(m, left, k),
            prod_centered(m, right, k),
        );
        lemma_prod_centered_split(m, views, k, n / 2);
        lemma_cong_trans(
            m,
            centered(m, c.slots[k] as int),
            centered(m, lc.slots[k] as int) * centered(m, rc.slots[k] as int),
            prod_centered(m, views, k),
        );
    }
}

/// Exponentiation decrypts to the power of what its operand decrypts to,
/// and always comes back relinearized: for every exponent of at least 2 the
/// result has the canonical size of 2, whatever the chain of squarings and
/// multiplications did in between, while level, scale bookkeeping and
/// representation state follow the square-and-multiply schedule.
pub proof fn lemma_exponentiate_decrypts_to_power(m: int, a: CtView, e: nat, k: int)
    requires
        2 <= m <= 0x1_0000_0000_0000_0000_0000_0000_0000_0000int,
        1 <= e,
        0 <= k < a.slots.len(),
        a.slots[k] < m,
    ensures
        ({
            let c = crate::evaluator::pow_ct(m, a, e);
            &&& c.size == if e == 1 {
                a.size
            } else {
                2nat
            }
            &&& c.level == a.level
            &&& c.ntt_form == a.ntt_form
            &&& c.slots.len() == a.slots.len()
            &&& c.slots[k] < m
            &&& (centered(m, c.slots[k] as int) - pow(centered(m, a.slots[k] as int), e)) % m == 0
        }),
    decreases e,
{
    let c = crate::evaluator::pow_ct(m, a, e);
    let ca = centered(m, a.slots[k] as int);
    if e == 1 {
        vstd::arithmetic::power::lemma_pow1(ca);
        lemma_centered_of_residue(m, a.slots[k] as int);
        lemma_small_mod(0nat, m as nat);
        assert((centered(m, c.slots[k] as int) - pow(ca, e)) % m == 0);
    } else {
        lemma_exponentiate_decrypts_to_power(m, a, e / 2, k);
        let h = crate::evaluator::pow_ct(m, a, e / 2);
        let sq = relin_ct(mul_ct(m, h, h));
        lemma_mod_bound((h.slots[k] as int) * (h.slots[k] as int), m);
        assert(sq.slots[k] == mod_mul(m, h.slots[k] as int, h.slots[k] as int) as u128);
        lemma_multiply_decrypts_to_product(m, h.slots[k], h.slots[k]);
        lemma_cong_mul(
            m,
            centered(m, h.slots[k] as int),
            centered(m, h.slots[k] as int),
            pow(ca, e / 2),
            pow(ca, e / 2),
        );
        vstd::arithmetic::power::lemma_pow_adds(ca, e / 2, e / 2);
        lemma_cong_trans(
            m,
            centered(m, sq.slots[k] as int),
            centered(m, h.slots[k] as int) * centered(m, h.slots[k] as int),
            pow(ca, (e / 2 + e / 2) as nat),
        );
        if e % 2 == 1 {
            let t = relin_ct(mul_ct(m, sq, a));
            lemma_mod_bound((sq.slots[k] as int) * (a.slots[k] as int), m);
            assert(t.slots[k] == mod_mul(m, sq.slots[k] as int, a.slots[k] as int) as u128);
            lemma_multiply_decrypts_to_product(m, sq.slots[k], a.slots[k]);
            lemma_centered_of_residue(m, a.slots[k] as int);
            vstd::arithmetic::power::lemma_pow1(ca);
            lemma_small_mod(0nat, m as nat);
            lemma_cong_mul(
                m,
                centered(m, sq.slots[k] as int),
                centered(m, a.slots[k] as int),
                pow(ca, (e / 2 + e / 2) as nat),
                pow(ca, 1),
            );
            vstd::arithmetic::power::lemma_pow_adds(ca, (e / 2 + e / 2) as nat, 1);
            assert(e / 2 + e / 2 + 1 == e);
            lemma_cong_trans(
                m,
                centered(m, t.slots[k] as int),
                centered(m, sq.slots[k] as int) * centered(m, a.slots[k] as int),
                pow(ca, e),
            );
        } else {
            assert(e / 2 + e / 2 == e);
        }
    }
}

} // verus!
