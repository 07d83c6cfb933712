//! End-to-end scenarios, error cases and metadata bookkeeping.

use sealy::ciphertext::Ciphertext;
use sealy::context::{Context, SchemeKind};
use sealy::decryptor::Decryptor;
use sealy::encoder::{BFVEncoder, CKKSEncoder};
use sealy::encryptor::Encryptor;
use sealy::error::Error;
use sealy::evaluator::{Evaluator, EvaluatorOps};
use sealy::keys::{KeyGenerator, RelinearizationKey};
use sealy::sign::SignEvaluator;
use sealy::CompressionType;

fn bfv_parts(
    degree: usize,
    bits: Vec<u64>,
    plain: u64,
) -> (Context, Decryptor, BFVEncoder, Encryptor, Evaluator, KeyGenerator) {
    let ctx = Context::new(SchemeKind::Bfv, degree, bits, plain).unwrap();
    let gen = KeyGenerator::new(&ctx).unwrap();
    let encoder = BFVEncoder::new(&ctx).unwrap();
    let pk = gen.create_public_key();
    let sk = gen.secret_key();
    let encryptor = Encryptor::with_public_and_secret_key(&ctx, &pk, &sk).unwrap();
    let decryptor = Decryptor::new(&ctx, &sk).unwrap();
    let evaluator = Evaluator::new(&ctx).unwrap();
    (ctx, decryptor, encoder, encryptor, evaluator, gen)
}

fn ckks_parts(
    degree: usize,
    bits: Vec<u64>,
    scale: u32,
) -> (Context, Decryptor, CKKSEncoder, Encryptor, Evaluator, KeyGenerator) {
    let ctx = Context::new(SchemeKind::Ckks, degree, bits, 0).unwrap();
    let gen = KeyGenerator::new(&ctx).unwrap();
    let encoder = CKKSEncoder::new(&ctx, scale).unwrap();
    let pk = gen.create_public_key();
    let sk = gen.secret_key();
    let encryptor = Encryptor::with_public_and_secret_key(&ctx, &pk, &sk).unwrap();
    let decryptor = Decryptor::new(&ctx, &sk).unwrap();
    let evaluator = Evaluator::new(&ctx).unwrap();
    (ctx, decryptor, encoder, encryptor, evaluator, gen)
}

fn encrypt_bfv(encoder: &BFVEncoder, encryptor: &Encryptor, data: &[i64]) -> Ciphertext {
    let p = encoder.encode_i64(data).unwrap();
    encryptor.encrypt(&p).unwrap()
}

/// A five-level exact-integer pipeline: four vectors starting at 4096,
/// 4095, ... are multiplied with a single relinearization key and decrypt to
/// the elementwise product; rotating the matrix rows by -1 shifts each row
/// element one column right, wrapping at the row boundary.
#[test]
fn end_to_end_product_and_rotation() {
    let (_, decryptor, encoder, encryptor, evaluator, gen) =
        bfv_parts(8192, vec![50, 30, 30, 50, 50], 0xff_ffff_ffc0_0001);
    let relin_keys = gen.create_relinearization_keys().unwrap();

    let n = encoder.get_slot_count();
    let a: Vec<i64> = (0..n).map(|i| 4096 - i as i64).collect();
    let cts: Vec<Ciphertext> = (0..4).map(|_| encrypt_bfv(&encoder, &encryptor, &a)).collect();

    let prod = evaluator.multiply_many(&cts, &relin_keys).unwrap();
    assert_eq!(prod.get_size(), 2);

    let out = encoder.decode_i64(&decryptor.decrypt(&prod).unwrap()).unwrap();
    for i in 0..n {
        assert_eq!(out[i], a[i] * a[i] * a[i] * a[i]);
    }

    let galois_keys = gen.create_galois_keys().unwrap();
    let ct = encrypt_bfv(&encoder, &encryptor, &a);
    let rotated = evaluator.rotate_rows(&ct, -1, &galois_keys).unwrap();
    let c = encoder.decode_i64(&decryptor.decrypt(&rotated).unwrap()).unwrap();
    let row = n / 2;
    for i in 0..row - 1 {
        assert_eq!(a[i], c[i + 1]);
        assert_eq!(a[row + i], c[row + i + 1]);
    }
    assert_eq!(a[row - 1], c[0]);
    assert_eq!(a[n - 1], c[row]);
}

/// Multiplying a ciphertext by itself and squaring it agree bit for bit:
/// same decrypted values and same size, scale, level and noise metadata.
#[test]
fn square_matches_self_multiply() {
    let (_, decryptor, encoder, encryptor, evaluator, _) =
        bfv_parts(64, vec![50, 30, 30, 50, 50], 1032193);
    let a: Vec<i64> = (0..64).map(|i| i - 31).collect();
    let a_c = encrypt_bfv(&encoder, &encryptor, &a);

    let m_c = evaluator.multiply(&a_c, &a_c).unwrap();
    let s_c = evaluator.square(&a_c).unwrap();

    assert_eq!(m_c.get_size(), s_c.get_size());
    assert_eq!(m_c.get_level(), s_c.get_level());
    assert_eq!(m_c.get_scale_log2(), s_c.get_scale_log2());
    assert_eq!(m_c.is_ntt_form(), s_c.is_ntt_form());
    assert_eq!(
        decryptor.invariant_noise_budget(&m_c).unwrap(),
        decryptor.invariant_noise_budget(&s_c).unwrap()
    );
    let m = encoder.decode_i64(&decryptor.decrypt(&m_c).unwrap()).unwrap();
    let s = encoder.decode_i64(&decryptor.decrypt(&s_c).unwrap()).unwrap();
    assert_eq!(m, s);
}

/// Relinearization reduces any size back to 2 without touching the
/// decrypted value.
#[test]
fn relinearize_shrinks_size_and_keeps_value() {
    let (_, decryptor, encoder, encryptor, evaluator, gen) =
        bfv_parts(64, vec![50, 30, 30, 50, 50], 1032193);
    let relin_keys = gen.create_relinearization_keys().unwrap();
    let a: Vec<i64> = (0..64).map(|i| i % 7 - 3).collect();
    let a_c = encrypt_bfv(&encoder, &encryptor, &a);

    let prod = evaluator.multiply(&a_c, &a_c).unwrap();
    assert_eq!(prod.get_size(), 3);
    let red = evaluator.relinearize(&prod, &relin_keys).unwrap();
    assert_eq!(red.get_size(), 2);

    let before = encoder.decode_i64(&decryptor.decrypt(&prod).unwrap()).unwrap();
    let after = encoder.decode_i64(&decryptor.decrypt(&red).unwrap()).unwrap();
    assert_eq!(before, after);
}

/// A relinearization key that does not cover the operand's size is refused.
#[test]
fn relinearize_needs_enough_keys() {
    let (_, _, encoder, encryptor, evaluator, gen) =
        bfv_parts(64, vec![50, 30, 30, 50, 50], 1032193);
    let relin_keys = gen.create_relinearization_keys().unwrap();
    let a: Vec<i64> = vec![1; 64];
    let mut a_c = encrypt_bfv(&encoder, &encryptor, &a);

    evaluator.square_inplace(&mut a_c).unwrap();
    evaluator.square_inplace(&mut a_c).unwrap();
    assert_eq!(a_c.get_size(), 5);
    assert!(matches!(evaluator.relinearize(&a_c, &relin_keys), Err(Error::InsufficientKeyMaterial)));

    let no_keys = RelinearizationKey { count: 0 };
    let b_c = encrypt_bfv(&encoder, &encryptor, &a);
    assert!(matches!(evaluator.exponentiate(&b_c, 4, &no_keys), Err(Error::InsufficientKeyMaterial)));
}

/// Exponentiation by 4 decrypts to the fourth power and comes back at the
/// canonical size 2, showing a relinearization followed every
/// multiplication of the chain.
#[test]
fn exponentiate_fourth_power_has_size_two() {
    let (_, decryptor, encoder, encryptor, evaluator, gen) =
        bfv_parts(64, vec![50, 30, 30, 50, 50], 1032193);
    let relin_keys = gen.create_relinearization_keys().unwrap();
    let a: Vec<i64> = (0..64).map(|i| i % 5 - 2).collect();
    let a_c = encrypt_bfv(&encoder, &encryptor, &a);

    let c_c = evaluator.exponentiate(&a_c, 4, &relin_keys).unwrap();
    assert_eq!(c_c.get_size(), 2);

    let c = encoder.decode_i64(&decryptor.decrypt(&c_c).unwrap()).unwrap();
    for i in 0..64 {
        assert_eq!(c[i], a[i] * a[i] * a[i] * a[i]);
    }

    let one = evaluator.exponentiate(&a_c, 1, &relin_keys).unwrap();
    let v = encoder.decode_i64(&decryptor.decrypt(&one).unwrap()).unwrap();
    assert_eq!(v[..64], a[..]);
}

/// Operands at different chain levels are refused with a level mismatch
/// rather than combined into a wrong-but-successful result.
#[test]
fn mismatched_levels_are_refused() {
    let (_, _, encoder, encryptor, evaluator, _) =
        bfv_parts(64, vec![50, 30, 30, 50, 50], 1032193);
    let a: Vec<i64> = vec![3; 64];
    let a_c = encrypt_bfv(&encoder, &encryptor, &a);
    let b_c = encrypt_bfv(&encoder, &encryptor, &a);

    let lowered = evaluator.mod_switch_to_next(&b_c).unwrap();
    assert_eq!(lowered.get_level(), 1);

    assert!(matches!(evaluator.add(&a_c, &lowered), Err(Error::LevelMismatch)));
    assert!(matches!(evaluator.sub(&a_c, &lowered), Err(Error::LevelMismatch)));
    assert!(matches!(evaluator.multiply(&a_c, &lowered), Err(Error::LevelMismatch)));
    assert!(matches!(evaluator.add_many(&[a_c, lowered]), Err(Error::LevelMismatch)));
}

/// Modulus switching walks the chain down one level at a time, keeping the
/// decrypted value, and is refused past the bottom.
#[test]
fn mod_switch_walks_chain_to_exhaustion() {
    let (_, decryptor, encoder, encryptor, evaluator, _) =
        bfv_parts(64, vec![50, 30, 30, 50, 50], 1032193);
    let a: Vec<i64> = (0..64).map(|i| 7 - i).collect();
    let mut a_c = encrypt_bfv(&encoder, &encryptor, &a);

    for expected in 1..=4 {
        evaluator.mod_switch_to_next_inplace(&mut a_c).unwrap();
        assert_eq!(a_c.get_level(), expected);
    }
    assert!(matches!(evaluator.mod_switch_to_next_inplace(&mut a_c), Err(Error::ChainExhausted)));
    let v = encoder.decode_i64(&decryptor.decrypt(&a_c).unwrap()).unwrap();
    assert_eq!(v[..64], a[..]);
}

/// Rescaling divides the scale by the dropped modulus, advances the level by
/// exactly one, keeps the decrypted value up to rounding, and is refused at
/// the bottom of the chain.
#[test]
fn rescale_advances_level_and_keeps_value() {
    let (_, decryptor, encoder, encryptor, evaluator, _) = ckks_parts(64, vec![60, 40, 40, 60], 40);
    let a: Vec<i64> = (0..32).map(|i| i - 16).collect();
    let p = encoder.encode_i64(&a).unwrap();
    let a_c = encryptor.encrypt(&p).unwrap();

    let sq = evaluator.multiply(&a_c, &a_c).unwrap();
    assert_eq!(sq.get_scale_log2(), 80);
    assert_eq!(sq.get_level(), 0);

    let rs = evaluator.rescale_to_next(&sq).unwrap();
    assert_eq!(rs.get_level(), 1);
    assert_eq!(rs.get_scale_log2(), 20);

    let pt = decryptor.decrypt(&rs).unwrap();
    let decoded = encoder.decode_i128(&pt).unwrap();
    for i in 0..32 {
        // the scaled integer (a*a) * 2^80 / 2^60 is exact here
        assert_eq!(decoded[i], ((a[i] * a[i]) as i128) << 20);
    }

    let (_, _, encoder1, encryptor1, evaluator1, _) = ckks_parts(64, vec![60], 40);
    let p1 = encoder1.encode_i64(&a).unwrap();
    let bottom = encryptor1.encrypt(&p1).unwrap();
    assert!(matches!(evaluator1.rescale_to_next(&bottom), Err(Error::ChainExhausted)));
}

/// Rescaling to a target level applies one step per level and refuses a
/// target that is not strictly below the current level or not on the chain.
#[test]
fn rescale_to_target_level() {
    let (_, _, encoder, encryptor, evaluator, _) = ckks_parts(64, vec![60, 40, 40, 60], 40);
    let a: Vec<i64> = vec![1; 32];
    let p = encoder.encode_i64(&a).unwrap();
    let a_c = encryptor.encrypt(&p).unwrap();

    let prod = evaluator.multiply(&a_c, &a_c).unwrap();
    let rs = evaluator.rescale_to(&prod, 2).unwrap();
    assert_eq!(rs.get_level(), 2);
    assert_eq!(rs.get_scale_log2(), -20);

    assert!(matches!(evaluator.rescale_to(&prod, 0), Err(Error::InvalidLevelTarget)));
    assert!(matches!(evaluator.rescale_to(&prod, 9), Err(Error::InvalidLevelTarget)));
}

/// Operand scales must match for addition; a mismatch surfaces as an engine
/// failure rather than a silently wrong result.
#[test]
fn mismatched_scales_are_refused() {
    let ctx = Context::new(SchemeKind::Ckks, 64, vec![60, 40, 40, 60], 0).unwrap();
    let gen = KeyGenerator::new(&ctx).unwrap();
    let pk = gen.create_public_key();
    let sk = gen.secret_key();
    let encryptor = Encryptor::with_public_and_secret_key(&ctx, &pk, &sk).unwrap();
    let evaluator = Evaluator::new(&ctx).unwrap();
    let enc40 = CKKSEncoder::new(&ctx, 40).unwrap();
    let enc41 = CKKSEncoder::new(&ctx, 41).unwrap();

    let a: Vec<i64> = vec![2; 32];
    let a_c = encryptor.encrypt(&enc40.encode_i64(&a).unwrap()).unwrap();
    let b_c = encryptor.encrypt(&enc41.encode_i64(&a).unwrap()).unwrap();

    assert!(matches!(evaluator.add(&a_c, &b_c), Err(Error::EngineFailure)));
    assert!(matches!(evaluator.sub(&a_c, &b_c), Err(Error::EngineFailure)));
}

/// Rotation step counts reaching half the slot width are refused.
#[test]
fn out_of_range_rotation_step_is_refused() {
    let (_, _, encoder, encryptor, evaluator, gen) =
        bfv_parts(64, vec![50, 30, 30, 50, 50], 1032193);
    let galois_keys = gen.create_galois_keys().unwrap();
    let a: Vec<i64> = vec![1; 64];
    let a_c = encrypt_bfv(&encoder, &encryptor, &a);

    assert!(matches!(evaluator.rotate_rows(&a_c, 32, &galois_keys), Err(Error::InvalidRotationStep)));
    assert!(matches!(evaluator.rotate_rows(&a_c, -32, &galois_keys), Err(Error::InvalidRotationStep)));
    let ok = evaluator.rotate_rows(&a_c, 31, &galois_keys);
    assert!(ok.is_ok());
}

/// Arithmetic demands the scheme's default representation state; values
/// moved out of it are refused until transformed back.
#[test]
fn representation_state_is_enforced() {
    let (_, _, encoder, encryptor, evaluator, _) =
        bfv_parts(64, vec![50, 30, 30, 50, 50], 1032193);
    let a: Vec<i64> = vec![5; 64];
    let a_c = encrypt_bfv(&encoder, &encryptor, &a);
    let b_c = encrypt_bfv(&encoder, &encryptor, &a);

    let ntt = evaluator.transform_to_ntt(&a_c).unwrap();
    assert!(ntt.is_ntt_form());
    assert!(matches!(evaluator.add(&ntt, &b_c), Err(Error::RepresentationMismatch)));
    assert!(matches!(evaluator.square(&ntt), Err(Error::RepresentationMismatch)));
    assert!(matches!(evaluator.transform_to_ntt(&ntt), Err(Error::RepresentationMismatch)));

    let back = evaluator.transform_from_ntt(&ntt).unwrap();
    assert!(!back.is_ntt_form());
    assert!(evaluator.add(&back, &b_c).is_ok());
    assert!(matches!(evaluator.transform_from_ntt(&back), Err(Error::RepresentationMismatch)));

    // a coefficient-form plaintext carries no chain position to switch
    let p = encoder.encode_i64(&a).unwrap();
    assert!(matches!(evaluator.mod_switch_to_next_plaintext(&p), Err(Error::RepresentationMismatch)));
}

/// Context parameters are validated: an odd degree, an empty chain,
/// oversized moduli and a missing plain modulus are all refused.
#[test]
fn invalid_context_parameters_are_refused() {
    assert_eq!(
        Context::new(SchemeKind::Bfv, 8191, vec![50], 1032193).unwrap_err(),
        Error::EngineFailure
    );
    assert_eq!(
        Context::new(SchemeKind::Bfv, 8192, vec![], 1032193).unwrap_err(),
        Error::EngineFailure
    );
    assert_eq!(
        Context::new(SchemeKind::Bfv, 8192, vec![61], 1032193).unwrap_err(),
        Error::EngineFailure
    );
    assert_eq!(
        Context::new(SchemeKind::Bfv, 8192, vec![50], 1).unwrap_err(),
        Error::EngineFailure
    );
    assert_eq!(
        Context::new(SchemeKind::Ckks, 8192, vec![50], 7).unwrap_err(),
        Error::EngineFailure
    );
    assert!(Context::new(SchemeKind::Ckks, 8192, vec![50], 0).is_ok());
}

/// Encoders are bound to their scheme, bounded by the slot count, and
/// recover exactly what they encoded.
#[test]
fn encoders_round_trip_and_validate() {
    let bctx = Context::new(SchemeKind::Bfv, 64, vec![50], 1032193).unwrap();
    let cctx = Context::new(SchemeKind::Ckks, 64, vec![60, 40], 0).unwrap();

    assert!(BFVEncoder::new(&cctx).is_err());
    assert!(CKKSEncoder::new(&bctx, 40).is_err());
    assert!(CKKSEncoder::new(&cctx, 121).is_err());

    let be = BFVEncoder::new(&bctx).unwrap();
    assert_eq!(be.get_slot_count(), 64);
    assert!(be.encode_i64(&vec![0; 65]).is_err());
    let values: Vec<i64> = (0..64).map(|i| 3 * i - 90).collect();
    let p = be.encode_i64(&values).unwrap();
    assert_eq!(be.decode_i64(&p).unwrap(), values);

    let ce = CKKSEncoder::new(&cctx, 40).unwrap();
    assert_eq!(ce.get_slot_count(), 32);
    let small: Vec<i64> = vec![-2, -1, 0, 1, 2];
    let cp = ce.encode_i64(&small).unwrap();
    let decoded = ce.decode_i128(&cp).unwrap();
    for i in 0..small.len() {
        assert_eq!(decoded[i], (small[i] as i128) << 40);
    }
    for i in small.len()..32 {
        assert_eq!(decoded[i], 0);
    }
}

/// A fresh ciphertext starts with the whole chain's bits as its noise
/// budget; the budget is only tracked under the exact-integer scheme.
#[test]
fn noise_budget_starts_at_chain_bits() {
    let (_, decryptor, encoder, encryptor, _, _) =
        bfv_parts(64, vec![50, 30, 30, 50, 50], 1032193);
    let a: Vec<i64> = vec![1; 64];
    let a_c = encrypt_bfv(&encoder, &encryptor, &a);
    assert_eq!(decryptor.invariant_noise_budget(&a_c).unwrap(), 210);

    let (_, cdec, cenc, cencr, _, _) = ckks_parts(64, vec![60, 40], 40);
    let p = cenc.encode_i64(&vec![1; 32]).unwrap();
    let c = cencr.encrypt(&p).unwrap();
    assert_eq!(cdec.invariant_noise_budget(&c), Err(Error::EngineFailure));
}

/// The sign composition advances the level by exactly four steps, returns
/// the canonical size, tracks the scale through every stage, and applies
/// the coefficient stages slot by slot.
#[test]
fn sign_composition_bookkeeping() {
    let (ctx, decryptor, encoder, encryptor, evaluator, gen) =
        ckks_parts(64, vec![60, 40, 40, 40, 60], 40);
    let relin_keys = gen.create_relinearization_keys().unwrap();

    let a: Vec<i64> = vec![1; 32];
    let p = encoder.encode_i64(&a).unwrap();
    let mut a_c = encryptor.encrypt(&p).unwrap();

    evaluator.sign_inplace(&mut a_c, &ctx, &relin_keys).unwrap();

    assert_eq!(a_c.get_level(), 4);
    assert_eq!(a_c.get_size(), 2);
    // scale: 40, +40 per stage, less the dropped moduli 60, 40, 40, 40
    assert_eq!(a_c.get_scale_log2(), 20);

    let pt = decryptor.decrypt(&a_c).unwrap();
    let decoded = encoder.decode_i128(&pt).unwrap();
    // slot 1 follows the four stages exactly: multiply by each encoded
    // coefficient, then divide by the dropped modulus
    let mut expected: i128 = 1 << 40;
    expected = (expected * 2405181685760) >> 60;
    expected = (expected * 3454764318720) >> 40;
    expected = (expected * 4924050554880) >> 40;
    expected = (expected * 4924050554880) >> 40;
    assert_eq!(decoded[1], expected);
    // slot 0 multiplies by the zero coefficient in the first stage
    assert_eq!(decoded[0], 0);
}

/// Addition accumulates left to right over any list length.
#[test]
fn add_many_single_and_pair() {
    let (_, decryptor, encoder, encryptor, evaluator, _) =
        bfv_parts(64, vec![50, 30, 30, 50, 50], 1032193);
    let a: Vec<i64> = (0..64).map(|i| i * 2 - 64).collect();
    let one = [encrypt_bfv(&encoder, &encryptor, &a)];
    let out = evaluator.add_many(&one).unwrap();
    let v = encoder.decode_i64(&decryptor.decrypt(&out).unwrap()).unwrap();
    assert_eq!(v[..64], a[..]);

    let two = [
        encrypt_bfv(&encoder, &encryptor, &a),
        encrypt_bfv(&encoder, &encryptor, &a),
    ];
    let out2 = evaluator.add_many(&two).unwrap();
    let v2 = encoder.decode_i64(&decryptor.decrypt(&out2).unwrap()).unwrap();
    for i in 0..64 {
        assert_eq!(v2[i], 2 * a[i]);
    }
}

/// The serialization surface names its compression kind.
#[test]
fn compression_kind_is_comparable() {
    assert_eq!(CompressionType::ZStd, CompressionType::ZStd);
}

/// The published sign-approximation coefficient lists, encoded at the
/// composition's scale: a few exact entries of each variant.
#[test]
fn sign_coefficient_lists_match_published_values() {
    let n1 = sealy::sign::coefficients_n1();
    // 3/2 and -1/2 at scale 2^40
    assert_eq!(n1.len(), 4);
    assert_eq!(n1[1], 3 * (1i64 << 39));
    assert_eq!(n1[3], -(1i64 << 39));

    let n3 = sealy::sign::coefficients_n3();
    // 35/16 at scale 2^40
    assert_eq!(n3.len(), 8);
    assert_eq!(n3[1], 35 * (1i64 << 36));

    let n4 = sealy::sign::coefficients_n4();
    // 315/128 at scale 2^40
    assert_eq!(n4.len(), 10);
    assert_eq!(n4[1], 315 * (1i64 << 33));

    let n7 = sealy::sign::coefficients_n7();
    // -15015/2048 at scale 2^40
    assert_eq!(n7.len(), 16);
    assert_eq!(n7[3], -15015 * (1i64 << 29));

    let n15 = sealy::sign::coefficients_n15();
    // 300540195/67108864 at scale 2^40
    assert_eq!(n15.len(), 32);
    assert_eq!(n15[1], 300540195 * (1i64 << 14));
    assert_eq!(n15[31], -9694845 * (1i64 << 14));
}

/// Modulus switching to a target level jumps there in one call, keeping the
/// decrypted value, and refuses targets not strictly below the current
/// level.
#[test]
fn mod_switch_to_target_level() {
    let (_, decryptor, encoder, encryptor, evaluator, _) =
        bfv_parts(64, vec![50, 30, 30, 50, 50], 1032193);
    let a: Vec<i64> = (0..64).map(|i| i - 40).collect();
    let a_c = encrypt_bfv(&encoder, &encryptor, &a);

    let moved = evaluator.mod_switch_to(&a_c, 3).unwrap();
    assert_eq!(moved.get_level(), 3);
    let v = encoder.decode_i64(&decryptor.decrypt(&moved).unwrap()).unwrap();
    assert_eq!(v[..64], a[..]);

    assert!(matches!(evaluator.mod_switch_to(&a_c, 0), Err(Error::InvalidLevelTarget)));
    assert!(matches!(evaluator.mod_switch_to(&moved, 2), Err(Error::InvalidLevelTarget)));
    assert!(matches!(evaluator.mod_switch_to(&a_c, 11), Err(Error::InvalidLevelTarget)));
}
