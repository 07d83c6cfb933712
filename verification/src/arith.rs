//! Residue arithmetic on slot vectors.
//!
//! Slot values live in the ring of residues modulo [`Context::slot_modulus`]:
//! the plain modulus under the exact-integer scheme, `2^128` under the
//! approximate scheme. All evaluator operations reduce to the elementwise
//! functions here, each proved against its mathematical statement.

use vstd::prelude::*;
use vstd::arithmetic::div_mod::{lemma_small_mod, lemma_mod_multiples_vanish};
use crate::context::{Context, SchemeKind, ckks_modulus};

verus! {

/// The sum of two residues, reduced.
pub open spec fn mod_add(m: int, x: int, y: int) -> int {
    (x + y) % m
}

/// The difference of two residues, reduced into `[0, m)`.
pub open spec fn mod_sub(m: int, x: int, y: int) -> int {
    (x - y) % m
}

/// The additive inverse of a residue.
pub open spec fn mod_neg(m: int, x: int) -> int {
    (0 - x) % m
}

/// The product of two residues, reduced.
pub open spec fn mod_mul(m: int, x: int, y: int) -> int {
    (x * y) % m
}

/// Every element of `s` is a residue below `m`.
pub open spec fn all_below(s: Seq<u128>, m: int) -> bool {
    forall|i: int| 0 <= i < s.len() ==> #[trigger] s[i] < m
}

/// The signed value a residue stands for: the representative of its class in
/// `[-m/2, m/2)` for even `m`, `(-m/2, m/2]`-symmetric for odd `m`.
pub open spec fn centered(m: int, r: int) -> int {
    if 2 * r < m {
        r
    } else {
        r - m
    }
}

/// A residue modulo `m` taken from anywhere in `(-m, 2m)`.
proof fn lemma_shift_into_range(x: int, m: int)
    requires
        0 < m,
        -m <= x < 2 * m,
    ensures
        (x % m) == if x < 0 {
            x + m
        } else if x < m {
            x
        } else {
            x - m
        },
{
    if x < 0 {
        lemma_mod_multiples_vanish(1, x, m);
        lemma_small_mod((x + m) as nat, m as nat);
    } else if x < m {
        lemma_small_mod(x as nat, m as nat);
    } else {
        lemma_mod_multiples_vanish(1, x - m, m);
        lemma_small_mod((x - m) as nat, m as nat);
    }
}

/// The sum of two slots, modulo the context's slot modulus.
pub fn slot_add(ctx: &Context, x: u128, y: u128) -> (r: u128)
    requires
        ctx.wf(),
        x < ctx.slot_modulus(),
        y < ctx.slot_modulus(),
    ensures
        r == mod_add(ctx.slot_modulus(), x as int, y as int),
        r < ctx.slot_modulus(),
{
    match ctx.scheme {
        SchemeKind::Bfv => {
            let m = ctx.plain_modulus as u128;
            proof {
                lemma_shift_into_range(x + y, m as int);
            }
            (x + y) % m
        },
        SchemeKind::Ckks => {
            proof {
                lemma_shift_into_range(x + y, ckks_modulus());
            }
            x.wrapping_add(y)
        },
    }
}

/// The difference of two slots, modulo the context's slot modulus.
pub fn slot_sub(ctx: &Context, x: u128, y: u128) -> (r: u128)
    requires
        ctx.wf(),
        x < ctx.slot_modulus(),
        y < ctx.slot_modulus(),
    ensures
        r == mod_sub(ctx.slot_modulus(), x as int, y as int),
        r < ctx.slot_modulus(),
{
    match ctx.scheme {
        SchemeKind::Bfv => {
            let m = ctx.plain_modulus as u128;
            proof {
                lemma_shift_into_range(x as int - y as int, m as int);
                lemma_shift_into_range(x + m - y, m as int);
                lemma_mod_multiples_vanish(1, x as int - y as int, m as int);
            }
            (x + m - y) % m
        },
        SchemeKind::Ckks => {
            proof {
                lemma_shift_into_range(x as int - y as int, ckks_modulus());
            }
            x.wrapping_sub(y)
        },
    }
}

/// The additive inverse of a slot, modulo the context's slot modulus.
pub fn slot_neg(ctx: &Context, x: u128) -> (r: u128)
    requires
        ctx.wf(),
        x < ctx.slot_modulus(),
    ensures
        r == mod_neg(ctx.slot_modulus(), x as int),
        r < ctx.slot_modulus(),
{
    slot_sub(ctx, 0, x)
}

/// The product of two slots, modulo the context's slot modulus.
pub fn slot_mul(ctx: &Context, x: u128, y: u128) -> (r: u128)
    requires
        ctx.wf(),
        x < ctx.slot_modulus(),
        y < ctx.slot_modulus(),
    ensures
        r == mod_mul(ctx.slot_modulus(), x as int, y as int),
        r < ctx.slot_modulus(),
{
    match ctx.scheme {
        SchemeKind::Bfv => {
            let m = ctx.plain_modulus as u128;
            proof {
                assert((x as int) * (y as int) < 0x1_0000_0000_0000_0000_0000_0000_0000_0000int)
                    by (nonlinear_arith)
                    requires
                        x < 0x1000_0000_0000_0001u128,
                        y < 0x1000_0000_0000_0001u128,
                ;
            }
            (x * y) % m
        },
        SchemeKind::Ckks => x.wrapping_mul(y),
    }
}

/// Elementwise modular sum of two equally long slot vectors.
pub fn slots_add(ctx: &Context, a: &Vec<u128>, b: &Vec<u128>) -> (r: Vec<u128>)
    requires
        ctx.wf(),
        a@.len() == b@.len(),
        all_below(a@, ctx.slot_modulus()),
        all_below(b@, ctx.slot_modulus()),
    ensures
        r@.len() == a@.len(),
        forall|i: int|
            0 <= i < r@.len() ==> #[trigger] r@[i] == mod_add(
                ctx.slot_modulus(),
                a@[i] as int,
                b@[i] as int,
            ),
        all_below(r@, ctx.slot_modulus()),
{
    let mut r: Vec<u128> = Vec::new();
    let mut i: usize = 0;
    while i < a.len()
        invariant
            ctx.wf(),
            a@.len() == b@.len(),
            all_below(a@, ctx.slot_modulus()),
            all_below(b@, ctx.slot_modulus()),
            0 <= i <= a@.len(),
            r@.len() == i,
            forall|j: int|
                0 <= j < i ==> #[trigger] r@[j] == mod_add(
                    ctx.slot_modulus(),
                    a@[j] as int,
                    b@[j] as int,
                ),
            all_below(r@, ctx.slot_modulus()),
        decreases a@.len() - i,
    {
        r.push(slot_add(ctx, a[i], b[i]));
        i = i + 1;
    }
    r
}

/// Elementwise modular difference of two equally long slot vectors.
pub fn slots_sub(ctx: &Context, a: &Vec<u128>, b: &Vec<u128>) -> (r: Vec<u128>)
    requires
        ctx.wf(),
        a@.len() == b@.len(),
        all_below(a@, ctx.slot_modulus()),
        all_below(b@, ctx.slot_modulus()),
    ensures
        r@.len() == a@.len(),
        forall|i: int|
            0 <= i < r@.len() ==> #[trigger] r@[i] == mod_sub(
                ctx.slot_modulus(),
                a@[i] as int,
                b@[i] as int,
            ),
        all_below(r@, ctx.slot_modulus()),
{
    let mut r: Vec<u128> = Vec::new();
    let mut i: usize = 0;
    while i < a.len()
        invariant
            ctx.wf(),
            a@.len() == b@.len(),
            all_below(a@, ctx.slot_modulus()),
            all_below(b@, ctx.slot_modulus()),
            0 <= i <= a@.len(),
            r@.len() == i,
            forall|j: int|
                0 <= j < i ==> #[trigger] r@[j] == mod_sub(
                    ctx.slot_modulus(),
                    a@[j] as int,
                    b@[j] as int,
                ),
            all_below(r@, ctx.slot_modulus()),
        decreases a@.len() - i,
    {
        r.push(slot_sub(ctx, a[i], b[i]));
        i = i + 1;
    }
    r
}

/// Elementwise modular product of two equally long slot vectors.
pub fn slots_mul(ctx: &Context, a: &Vec<u128>, b: &Vec<u128>) -> (r: Vec<u128>)
    requires
        ctx.wf(),
        a@.len() == b@.len(),
        all_below(a@, ctx.slot_modulus()),
        all_below(b@, ctx.slot_modulus()),
    ensures
        r@.len() == a@.len(),
        forall|i: int|
            0 <= i < r@.len() ==> #[trigger] r@[i] == mod_mul(
                ctx.slot_modulus(),
                a@[i] as int,
                b@[i] as int,
            ),
        all_below(r@, ctx.slot_modulus()),
{
    let mut r: Vec<u128> = Vec::new();
    let mut i: usize = 0;
    while i < a.len()
        invariant
            ctx.wf(),
            a@.len() == b@.len(),
            all_below(a@, ctx.slot_modulus()),
            all_below(b@, ctx.slot_modulus()),
            0 <= i <= a@.len(),
            r@.len() == i,
            forall|j: int|
                0 <= j < i ==> #[trigger] r@[j] == mod_mul(
                    ctx.slot_modulus(),
                    a@[j] as int,
                    b@[j] as int,
                ),
            all_below(r@, ctx.slot_modulus()),
        decreases a@.len() - i,
    {
        r.push(slot_mul(ctx, a[i], b[i]));
        i = i + 1;
    }
    r
}

/// Elementwise modular negation of a slot vector.
pub fn slots_neg(ctx: &Context, a: &Vec<u128>) -> (r: Vec<u128>)
    requires
        ctx.wf(),
        all_below(a@, ctx.slot_modulus()),
    ensures
        r@.len() == a@.len(),
        forall|i: int|
            0 <= i < r@.len() ==> #[trigger] r@[i] == mod_neg(ctx.slot_modulus(), a@[i] as int),
        all_below(r@, ctx.slot_modulus()),
{
    let mut r: Vec<u128> = Vec::new();
    let mut i: usize = 0;
    while i < a.len()
        invariant
            ctx.wf(),
            all_below(a@, ctx.slot_modulus()),
            0 <= i <= a@.len(),
            r@.len() == i,
            forall|j: int|
                0 <= j < i ==> #[trigger] r@[j] == mod_neg(ctx.slot_modulus(), a@[j] as int),
            all_below(r@, ctx.slot_modulus()),
        decreases a@.len() - i,
    {
        r.push(slot_neg(ctx, a[i]));
        i = i + 1;
    }
    r
}

/// The batched `2 x row` matrix with each row rotated left by `shift`.
pub open spec fn rotate_rows_spec(s: Seq<u128>, row: int, shift: int) -> Seq<u128> {
    Seq::new(
        s.len(),
        |k: int|
            if k < row {
                s[(k + shift) % row]
            } else {
                s[row + ((k - row + shift) % row)]
            },
    )
}

/// The batched `2 x row` matrix with its two rows swapped.
pub open spec fn rotate_columns_spec(s: Seq<u128>, row: int) -> Seq<u128> {
    Seq::new(
        s.len(),
        |k: int|
            if k < row {
                s[k + row]
            } else {
                s[k - row]
            },
    )
}

/// Rotates each row of the batched matrix left by `shift` positions.
pub fn rotate_rows_slots(a: &Vec<u128>, row: usize, shift: usize) -> (r: Vec<u128>)
    requires
        a@.len() == 2 * row,
        0 < row,
        shift < row,
    ensures
        r@ == rotate_rows_spec(a@, row as int, shift as int),
{
    let mut r: Vec<u128> = Vec::new();
    let mut k: usize = 0;
    while k < a.len()
        invariant
            a@.len() == 2 * row,
            0 < row,
            shift < row,
            0 <= k <= a@.len(),
            r@.len() == k,
            forall|j: int|
                0 <= j < k ==> #[trigger] r@[j] == rotate_rows_spec(a@, row as int, shift as int)[j],
        decreases a@.len() - k,
    {
        let src: usize = if k < row {
            (k + shift) % row
        } else {
            row + ((k - row + shift) % row)
        };
        r.push(a[src]);
        k = k + 1;
    }
    proof {
        assert(r@ =~= rotate_rows_spec(a@, row as int, shift as int));
    }
    r
}

/// Swaps the two rows of the batched matrix.
pub fn rotate_columns_slots(a: &Vec<u128>, row: usize) -> (r: Vec<u128>)
    requires
        a@.len() == 2 * row,
        0 < row,
    ensures
        r@ == rotate_columns_spec(a@, row as int),
{
    let mut r: Vec<u128> = Vec::new();
    let mut k: usize = 0;
    while k < a.len()
        invariant
            a@.len() == 2 * row,
            0 < row,
            0 <= k <= a@.len(),
            r@.len() == k,
            forall|j: int|
                0 <= j < k ==> #[trigger] r@[j] == rotate_columns_spec(a@, row as int)[j],
        decreases a@.len() - k,
    {
        let src: usize = if k < row {
            k + row
        } else {
            k - row
        };
        r.push(a[src]);
        k = k + 1;
    }
    proof {
        assert(r@ =~= rotate_columns_spec(a@, row as int));
    }
    r
}


/// An exact copy of a slot vector.
pub fn copy_slots(v: &Vec<u128>) -> (r: Vec<u128>)
    ensures
        r@ == v@,
{
    let mut r: Vec<u128> = Vec::new();
    let mut i: usize = 0;
    while i < v.len()
        invariant
            0 <= i <= v@.len(),
            r@ == v@.take(i as int),
        decreases v@.len() - i,
    {
        r.push(v[i]);
        proof {
            assert(r@ =~= v@.take(i + 1));
        }
        i = i + 1;
    }
    proof {
        assert(r@ =~= v@);
    }
    r
}


/// The residue of a signed value modulo the context's slot modulus.
pub fn reduce_signed(ctx: &Context, v: i64) -> (r: u128)
    requires
        ctx.wf(),
    ensures
        r == (v as int) % ctx.slot_modulus(),
        r < ctx.slot_modulus(),
{
    let ghost m = ctx.slot_modulus();
    if v >= 0 {
        match ctx.scheme {
            SchemeKind::Bfv => {
                let t = ctx.plain_modulus as u128;
                (v as u128) % t
            },
            SchemeKind::Ckks => {
                proof {
                    lemma_small_mod(v as nat, ckks_modulus() as nat);
                }
                v as u128
            },
        }
    } else {
        let neg: u128 = (-(v as i128)) as u128;
        let q = match ctx.scheme {
            SchemeKind::Bfv => {
                let t = ctx.plain_modulus as u128;
                neg % t
            },
            SchemeKind::Ckks => {
                proof {
                    lemma_small_mod(neg as nat, ckks_modulus() as nat);
                }
                neg
            },
        };
        proof {
            vstd::arithmetic::div_mod::lemma_fundamental_div_mod(neg as int, m);
            let d = (neg as int) / m;
            assert(neg as int == m * d + q);
            assert(m * (-d) == -(m * d)) by (nonlinear_arith);
            assert(v as int == m * (-d) + (0 - q));
            lemma_mod_multiples_vanish(-d, 0 - q, m);
            lemma_shift_into_range(0 - q, m);
        }
        slot_neg(ctx, q)
    }
}

/// `2^e`, reduced modulo the context's slot modulus.
pub fn pow2_slot(ctx: &Context, e: u32) -> (r: u128)
    requires
        ctx.wf(),
    ensures
        r == (vstd::arithmetic::power2::pow2(e as nat) as int) % ctx.slot_modulus(),
        r < ctx.slot_modulus(),
{
    let ghost m = ctx.slot_modulus();
    let two = reduce_signed(ctx, 2);
    let mut r = reduce_signed(ctx, 1);
    let mut i: u32 = 0;
    proof {
        vstd::arithmetic::power2::lemma2_to64();
    }
    while i < e
        invariant
            ctx.wf(),
            m == ctx.slot_modulus(),
            two == 2int % m,
            0 <= i <= e,
            r == (vstd::arithmetic::power2::pow2(i as nat) as int) % m,
            r < m,
        decreases e - i,
    {
        let ghost p = vstd::arithmetic::power2::pow2(i as nat) as int;
        r = slot_mul(ctx, r, two);
        proof {
            vstd::arithmetic::div_mod::lemma_mul_mod_noop_general(p, 2, m);
            vstd::arithmetic::power2::lemma_pow2_unfold((i + 1) as nat);
        }
        i = i + 1;
    }
    r
}


/// `2^b` for a chain-modulus bit size, as executable data.
pub fn pow2_u128(b: u64) -> (r: u128)
    requires
        b <= 60,
    ensures
        r == vstd::arithmetic::power2::pow2(b as nat),
        1 <= r <= 0x1000_0000_0000_0000u128,
{
    proof {
        vstd::arithmetic::power2::lemma2_to64();
        vstd::arithmetic::power2::lemma2_to64_rest();
    }
    let mut r: u128 = 1;
    let mut i: u64 = 0;
    while i < b
        invariant
            b <= 60,
            0 <= i <= b,
            r == vstd::arithmetic::power2::pow2(i as nat),
        decreases b - i,
    {
        proof {
            if (i as nat) < 60 {
                vstd::arithmetic::power2::lemma_pow2_strictly_increases(i as nat, 60);
            }
            vstd::arithmetic::power2::lemma2_to64();
            vstd::arithmetic::power2::lemma2_to64_rest();
            vstd::arithmetic::power2::lemma_pow2_unfold((i + 1) as nat);
        }
        r = r * 2;
        i = i + 1;
    }
    proof {
        if (b as nat) < 60 {
            vstd::arithmetic::power2::lemma_pow2_strictly_increases(b as nat, 60);
        }
        vstd::arithmetic::power2::lemma2_to64();
        vstd::arithmetic::power2::lemma2_to64_rest();
    }
    r
}

/// Floor division of a negated positive value: rounding toward negative
/// infinity turns into rounding the positive quotient up.
proof fn lemma_floor_neg_div(x: int, d: int)
    requires
        x >= 1,
        d >= 1,
    ensures
        (0 - x) / d == 0 - ((x - 1) / d + 1),
{
    vstd::arithmetic::div_mod::lemma_fundamental_div_mod(x, d);
    let k = x / d;
    let r0 = x % d;
    assert(x == d * k + r0);
    if r0 == 0 {
        assert(x - 1 == (k - 1) * d + (d - 1)) by (nonlinear_arith)
            requires
                x == d * k,
        ;
        vstd::arithmetic::div_mod::lemma_fundamental_div_mod_converse(x - 1, d, k - 1, d - 1);
        assert(0 - x == (0 - k) * d + 0) by (nonlinear_arith)
            requires
                x == d * k,
        ;
        vstd::arithmetic::div_mod::lemma_fundamental_div_mod_converse(0 - x, d, 0 - k, 0);
    } else {
        assert(x - 1 == k * d + (r0 - 1)) by (nonlinear_arith)
            requires
                x == d * k + r0,
        ;
        vstd::arithmetic::div_mod::lemma_fundamental_div_mod_converse(x - 1, d, k, r0 - 1);
        assert(0 - x == (0 - (k + 1)) * d + (d - r0)) by (nonlinear_arith)
            requires
                x == d * k + r0,
        ;
        vstd::arithmetic::div_mod::lemma_fundamental_div_mod_converse(
            0 - x,
            d,
            0 - (k + 1),
            d - r0,
        );
    }
}

/// What rescaling does to one slot: the centered scaled integer is divided
/// by `2^b`, rounded toward negative infinity, and stored again as a
/// residue. This is the model's rounding error: the quotient differs from
/// the exact ratio by less than one.
pub open spec fn rescale_slot_spec(s: u128, b: nat) -> u128 {
    let c = centered(ckks_modulus(), s as int);
    let q = c / (vstd::arithmetic::power2::pow2(b) as int);
    (q % ckks_modulus()) as u128
}

/// Rescales one slot: divides its centered value by `2^b`, rounding toward
/// negative infinity.
pub fn rescale_slot(s: u128, b: u64) -> (r: u128)
    requires
        b <= 60,
    ensures
        r == rescale_slot_spec(s, b as nat),
{
    let ghost m = ckks_modulus();
    let d = pow2_u128(b);
    if s < 0x8000_0000_0000_0000_0000_0000_0000_0000u128 {
        let q = s / d;
        proof {
            lemma_small_mod((q as int) as nat, m as nat);
        }
        q
    } else {
        let neg = 0u128.wrapping_sub(s);
        let qq = (neg - 1) / d + 1;
        proof {
            assert(neg as int == m - s);
            assert(centered(m, s as int) == s as int - m);
            lemma_floor_neg_div(neg as int, d as int);
            assert((s as int - m) / (d as int) == 0 - qq);
            lemma_shift_into_range(0 - qq, m);
        }
        0u128.wrapping_sub(qq)
    }
}

/// Rescaling a slot loses less than one unit of the divided value: the
/// rounded quotient times `2^b` sits within `2^b` below the centered value.
pub proof fn lemma_rescale_rounding(s: u128, b: nat)
    ensures
        ({
            let c = centered(ckks_modulus(), s as int);
            let d = vstd::arithmetic::power2::pow2(b) as int;
            let q = c / d;
            c - d < q * d <= c
        }),
{
    let c = centered(ckks_modulus(), s as int);
    let d = vstd::arithmetic::power2::pow2(b) as int;
    vstd::arithmetic::power2::lemma_pow2_pos(b);
    vstd::arithmetic::div_mod::lemma_fundamental_div_mod(c, d);
    assert(d * (c / d) == (c / d) * d) by (nonlinear_arith);
}


/// A negative step within one row wraps to `row` less its magnitude.
pub proof fn lemma_mod_shift_range(steps: int, row: int)
    requires
        0 < row,
        -row < steps < 0,
    ensures
        steps % row == steps + row,
{
    lemma_shift_into_range(steps, row);
}

} // verus!
