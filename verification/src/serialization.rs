//! Byte serialization of ciphertexts.
//!
//! A ciphertext is written as a fixed header — level, size, offset-encoded
//! scale, representation flag, noise budget and slot count, each
//! little-endian — followed by sixteen little-endian bytes per slot.
//! Deserialization happens under a context and validates everything the
//! ciphertext's well-formedness demands, rejecting malformed bytes with
//! [`Error::EngineFailure`]; [`lemma_ct_bytes_round_trip`] proves that
//! decoding inverts encoding for every well-formed ciphertext.

use vstd::prelude::*;
use vstd::bytes::{
    lemma_auto_spec_u128_to_from_le_bytes, lemma_auto_spec_u64_to_from_le_bytes,
    spec_u128_from_le_bytes, spec_u128_to_le_bytes, spec_u64_from_le_bytes, spec_u64_to_le_bytes,
    u128_from_le_bytes, u128_to_le_bytes, u64_from_le_bytes, u64_to_le_bytes,
};
use vstd::slice::slice_subrange;
use crate::arith::all_below;
use crate::ciphertext::{Ciphertext, CtView};
use crate::context::{Context, SchemeKind};
use crate::error::Error;
use crate::{FromBytes, ToBytes};

verus! {

/// The offset that shifts a signed scale exponent into an unsigned word.
pub open spec fn scale_offset(scale_log2: int) -> u64 {
    (scale_log2 + 0x8000_0000_0000_0000) as u64
}

/// A slot vector as its little-endian bytes, sixteen per slot.
pub open spec fn slots_le_bytes(s: Seq<u128>) -> Seq<u8>
    decreases s.len(),
{
    if s.len() == 0 {
        Seq::empty()
    } else {
        slots_le_bytes(s.drop_last()) + spec_u128_to_le_bytes(s.last())
    }
}

/// Sixteen bytes per slot.
proof fn lemma_slots_le_bytes_len(s: Seq<u128>)
    ensures
        slots_le_bytes(s).len() == 16 * s.len(),
    decreases s.len(),
{
    lemma_auto_spec_u128_to_from_le_bytes();
    if s.len() > 0 {
        lemma_slots_le_bytes_len(s.drop_last());
    }
}

/// Slot `k`'s bytes sit at offset `16 * k`.
proof fn lemma_slots_le_bytes_index(s: Seq<u128>, k: int)
    requires
        0 <= k < s.len(),
    ensures
        slots_le_bytes(s).subrange(16 * k, 16 * k + 16) == spec_u128_to_le_bytes(s[k]),
    decreases s.len(),
{
    lemma_auto_spec_u128_to_from_le_bytes();
    lemma_slots_le_bytes_len(s.drop_last());
    if k == s.len() - 1 {
        assert(slots_le_bytes(s).subrange(16 * k, 16 * k + 16) =~= spec_u128_to_le_bytes(s.last()));
    } else {
        lemma_slots_le_bytes_index(s.drop_last(), k);
        assert(slots_le_bytes(s).subrange(16 * k, 16 * k + 16) =~= slots_le_bytes(
            s.drop_last(),
        ).subrange(16 * k, 16 * k + 16));
    }
}

/// A ciphertext as its byte image: the six header fields, then the slots.
pub open spec fn ct_le_bytes(c: CtView) -> Seq<u8> {
    spec_u64_to_le_bytes(c.level as u64) + spec_u64_to_le_bytes(c.size as u64)
        + spec_u64_to_le_bytes(scale_offset(c.scale_log2)) + seq![
        if c.ntt_form {
            1u8
        } else {
            0u8
        },
    ] + spec_u64_to_le_bytes(c.noise_budget as u64) + spec_u64_to_le_bytes(c.slots.len() as u64)
        + slots_le_bytes(c.slots)
}

/// What a byte image means under a context: the parsed ciphertext, or
/// nothing when the image is malformed or breaks the context's
/// well-formedness conditions.
pub open spec fn ct_from_le_bytes(ctx: Context, b: Seq<u8>) -> Option<CtView> {
    if b.len() < 41 {
        None
    } else {
        let level = spec_u64_from_le_bytes(b.subrange(0, 8));
        let size = spec_u64_from_le_bytes(b.subrange(8, 16));
        let off = spec_u64_from_le_bytes(b.subrange(16, 24));
        let ntt_byte = b[24];
        let noise = spec_u64_from_le_bytes(b.subrange(25, 33));
        let n = spec_u64_from_le_bytes(b.subrange(33, 41));
        if ntt_byte != 0 && ntt_byte != 1 {
            None
        } else if n != ctx.slot_count() {
            None
        } else if b.len() != 41 + 16 * n {
            None
        } else if !(level < ctx.chain_len()) {
            None
        } else if !(2 <= size <= usize::MAX) {
            None
        } else {
            let slots = Seq::new(
                n as nat,
                |k: int| spec_u128_from_le_bytes(b.subrange(41 + 16 * k, 41 + 16 * k + 16)),
            );
            let c = CtView {
                slots,
                level: level as nat,
                size: size as nat,
                scale_log2: off - 0x8000_0000_0000_0000,
                ntt_form: ntt_byte == 1,
                noise_budget: noise as nat,
            };
            if all_below(slots, ctx.slot_modulus()) && (ctx.scheme == SchemeKind::Bfv
                ==> c.scale_log2 == 0) {
                Some(c)
            } else {
                None
            }
        }
    }
}

impl ToBytes for Ciphertext {
    /// Returns the ciphertext's byte image; never fails.
    fn as_bytes(&self) -> (r: Result<Vec<u8>, Error>)
        ensures
            r is Ok,
            r is Ok ==> r->Ok_0@ == ct_le_bytes(self@),
    {
        proof {
            lemma_auto_spec_u64_to_from_le_bytes();
            lemma_auto_spec_u128_to_from_le_bytes();
        }
        let mut out: Vec<u8> = Vec::new();
        let mut field = u64_to_le_bytes(self.level as u64);
        out.append(&mut field);
        let mut field = u64_to_le_bytes(self.size as u64);
        out.append(&mut field);
        let off: u64 = ((self.scale_log2 as i128) + 0x8000_0000_0000_0000i128) as u64;
        let mut field = u64_to_le_bytes(off);
        out.append(&mut field);
        out.push(
            if self.ntt_form {
                1
            } else {
                0
            },
        );
        let mut field = u64_to_le_bytes(self.noise_budget);
        out.append(&mut field);
        let mut field = u64_to_le_bytes(self.slots.len() as u64);
        out.append(&mut field);
        let ghost header = out@;
        let mut i: usize = 0;
        while i < self.slots.len()
            invariant
                0 <= i <= self.slots@.len(),
                out@ == header + slots_le_bytes(self.slots@.take(i as int)),
            decreases self.slots@.len() - i,
        {
            let mut slot_bytes = u128_to_le_bytes(self.slots[i]);
            out.append(&mut slot_bytes);
            proof {
                assert(self.slots@.take(i + 1).drop_last() =~= self.slots@.take(i as int));
                assert(self.slots@.take(i + 1).last() == self.slots@[i as int]);
            }
            i = i + 1;
        }
        proof {
            assert(self.slots@.take(self.slots@.len() as int) =~= self.slots@);
            assert(out@ =~= ct_le_bytes(self@));
        }
        Ok(out)
    }
}

impl FromBytes for Ciphertext {
    /// Deserialization happens under the context the ciphertext belongs to.
    type State = Context;

    /// Parses a byte image back into a ciphertext, validating every
    /// well-formedness condition; malformed bytes, or a context that is not
    /// itself well formed, are rejected with [`Error::EngineFailure`].
    fn from_bytes(state: &Context, bytes: &[u8]) -> (r: Result<Ciphertext, Error>)
        ensures
            r is Ok <==> (state.wf() && ct_from_le_bytes(*state, bytes@) is Some),
            r is Ok ==> r->Ok_0.wf(state) && r->Ok_0@ == ct_from_le_bytes(*state, bytes@)->Some_0,
            r is Err ==> r == Result::<Ciphertext, Error>::Err(Error::EngineFailure),
    {
        proof {
            lemma_auto_spec_u64_to_from_le_bytes();
            lemma_auto_spec_u128_to_from_le_bytes();
        }
        if !state.check_wf() {
            return Err(Error::EngineFailure);
        }
        if bytes.len() < 41 {
            return Err(Error::EngineFailure);
        }
        let level64 = u64_from_le_bytes(slice_subrange(bytes, 0, 8));
        let size64 = u64_from_le_bytes(slice_subrange(bytes, 8, 16));
        let off = u64_from_le_bytes(slice_subrange(bytes, 16, 24));
        let ntt_byte = bytes[24];
        let noise = u64_from_le_bytes(slice_subrange(bytes, 25, 33));
        let n64 = u64_from_le_bytes(slice_subrange(bytes, 33, 41));
        if ntt_byte != 0 && ntt_byte != 1 {
            return Err(Error::EngineFailure);
        }
        let n = state.get_slot_count();
        if n64 != n as u64 {
            return Err(Error::EngineFailure);
        }
        if bytes.len() != 41 + 16 * n {
            return Err(Error::EngineFailure);
        }
        if !(level64 < state.get_chain_len() as u64) {
            return Err(Error::EngineFailure);
        }
        if !(2 <= size64 && size64 <= usize::MAX as u64) {
            return Err(Error::EngineFailure);
        }
        let mut slots: Vec<u128> = Vec::new();
        let mut k: usize = 0;
        while k < n
            invariant
                state.wf(),
                n as nat == state.slot_count(),
                n <= 65536,
                bytes@.len() == 41 + 16 * n,
                0 <= k <= n,
                slots@.len() == k,
                forall|j: int|
                    0 <= j < k ==> #[trigger] slots@[j] == spec_u128_from_le_bytes(
                        bytes@.subrange(41 + 16 * j, 41 + 16 * j + 16),
                    ),
            decreases n - k,
        {
            slots.push(u128_from_le_bytes(slice_subrange(bytes, 41 + 16 * k, 41 + 16 * k + 16)));
            k = k + 1;
        }
        let ghost parsed_slots = Seq::new(
            n as nat,
            |j: int| spec_u128_from_le_bytes(bytes@.subrange(41 + 16 * j, 41 + 16 * j + 16)),
        );
        proof {
            assert(slots@ =~= parsed_slots);
        }
        match state.scheme {
            SchemeKind::Bfv => {
                let t = state.plain_modulus as u128;
                let mut reduced = true;
                let mut j: usize = 0;
                while j < slots.len()
                    invariant
                        t == state.plain_modulus,
                        slots@ == parsed_slots,
                        0 <= j <= slots@.len(),
                        reduced == (forall|i: int| 0 <= i < j ==> #[trigger] slots@[i] < t),
                    decreases slots@.len() - j,
                {
                    if slots[j] >= t {
                        reduced = false;
                    }
                    j = j + 1;
                }
                if !reduced {
                    proof {
                        assert(!all_below(parsed_slots, state.slot_modulus()));
                    }
                    return Err(Error::EngineFailure);
                }
                if off != 0x8000_0000_0000_0000u64 {
                    proof {
                        assert(off as int - 0x8000_0000_0000_0000 != 0);
                    }
                    return Err(Error::EngineFailure);
                }
            },
            SchemeKind::Ckks => {
            },
        }
        let scale: i64 = ((off as i128) - 0x8000_0000_0000_0000i128) as i64;
        let c = Ciphertext {
            slots,
            level: level64 as usize,
            size: size64 as usize,
            scale_log2: scale,
            ntt_form: ntt_byte == 1,
            noise_budget: noise,
        };
        proof {
            assert(c@ =~= ct_from_le_bytes(*state, bytes@)->Some_0);
        }
        Ok(c)
    }
}

/// Decoding inverts encoding: for every ciphertext that is well formed
/// under a context, parsing its byte image yields it back exactly.
pub proof fn lemma_ct_bytes_round_trip(ctx: Context, c: CtView)
    requires
        ctx.wf(),
        c.slots.len() == ctx.slot_count(),
        all_below(c.slots, ctx.slot_modulus()),
        c.level < ctx.chain_len(),
        2 <= c.size <= usize::MAX,
        i64::MIN <= c.scale_log2 <= i64::MAX,
        ctx.scheme == SchemeKind::Bfv ==> c.scale_log2 == 0,
        c.noise_budget <= u64::MAX,
    ensures
        ct_from_le_bytes(ctx, ct_le_bytes(c)) == Some(c),
{
    lemma_auto_spec_u64_to_from_le_bytes();
    lemma_auto_spec_u128_to_from_le_bytes();
    lemma_slots_le_bytes_len(c.slots);
    let b = ct_le_bytes(c);
    assert(b.len() == 41 + 16 * c.slots.len());
    assert(b.subrange(0, 8) =~= spec_u64_to_le_bytes(c.level as u64));
    assert(b.subrange(8, 16) =~= spec_u64_to_le_bytes(c.size as u64));
    assert(b.subrange(16, 24) =~= spec_u64_to_le_bytes(scale_offset(c.scale_log2)));
    assert(b[24] == if c.ntt_form {
        1u8
    } else {
        0u8
    });
    assert(b.subrange(25, 33) =~= spec_u64_to_le_bytes(c.noise_budget as u64));
    assert(b.subrange(33, 41) =~= spec_u64_to_le_bytes(c.slots.len() as u64));
    let tail = slots_le_bytes(c.slots);
    assert(0 <= c.scale_log2 + 0x8000_0000_0000_0000 < 0x1_0000_0000_0000_0000_0000_0000_0000_0000int);
    assert(spec_u64_from_le_bytes(b.subrange(16, 24)) == scale_offset(c.scale_log2));
    assert(scale_offset(c.scale_log2) as int - 0x8000_0000_0000_0000 == c.scale_log2);
    let n = spec_u64_from_le_bytes(b.subrange(33, 41));
    assert(n == c.slots.len());
    let pslots = Seq::new(
        n as nat,
        |k: int| spec_u128_from_le_bytes(b.subrange(41 + 16 * k, 41 + 16 * k + 16)),
    );
    assert forall|k: int| 0 <= k < c.slots.len() implies pslots[k] == c.slots[k] by {
        lemma_slots_le_bytes_index(c.slots, k);
        assert(b.subrange(41 + 16 * k, 41 + 16 * k + 16) =~= tail.subrange(16 * k, 16 * k + 16));
        assert(spec_u128_from_le_bytes(spec_u128_to_le_bytes(c.slots[k])) == c.slots[k]);
    }
    assert(pslots =~= c.slots);
    let parsed = ct_from_le_bytes(ctx, b);
    assert(parsed is Some);
    assert(parsed->Some_0 =~= c);
}

} // verus!
