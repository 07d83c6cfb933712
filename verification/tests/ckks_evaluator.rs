//! Evaluator operations under the approximate scheme.

use sealy::ciphertext::Ciphertext;
use sealy::context::{Context, SchemeKind};
use sealy::decryptor::Decryptor;
use sealy::encoder::CKKSEncoder;
use sealy::encryptor::Encryptor;
use sealy::evaluator::{Evaluator, EvaluatorOps};
use sealy::keys::KeyGenerator;

fn float_assert_eq(a: f64, b: f64) {
    assert!((a - b).abs() < 0.0001);
}

fn ckks_context() -> Context {
    Context::new(SchemeKind::Ckks, 8192, vec![60, 40, 40, 60], 0).unwrap()
}

fn ckks_setup() -> (Decryptor, CKKSEncoder, Encryptor, Evaluator, KeyGenerator) {
    let ctx = ckks_context();
    let gen = KeyGenerator::new(&ctx).unwrap();
    let encoder = CKKSEncoder::new(&ctx, 40).unwrap();
    let public_key = gen.create_public_key();
    let secret_key = gen.secret_key();
    let encryptor = Encryptor::with_public_and_secret_key(&ctx, &public_key, &secret_key).unwrap();
    let decryptor = Decryptor::new(&ctx, &secret_key).unwrap();
    let evaluator = Evaluator::new(&ctx).unwrap();
    (decryptor, encoder, encryptor, evaluator, gen)
}

fn make_vec(encoder: &CKKSEncoder) -> Vec<i64> {
    let mut data = vec![];
    for i in 0..encoder.get_slot_count() {
        data.push(encoder.get_slot_count() as i64 / 2i64 - i as i64)
    }
    data
}

fn encrypt_vec(encoder: &CKKSEncoder, encryptor: &Encryptor, data: &[i64]) -> Ciphertext {
    let p = encoder.encode_i64(data).unwrap();
    encryptor.encrypt(&p).unwrap()
}

/// Decrypts and decodes to floating point: the centered scaled integers
/// divided by the plaintext's scale.
fn decrypt_f64(decryptor: &Decryptor, encoder: &CKKSEncoder, c: &Ciphertext) -> Vec<f64> {
    let p = decryptor.decrypt(c).unwrap();
    let scale = (2f64).powi(p.get_scale_log2() as i32);
    encoder.decode_i128(&p).unwrap().iter().map(|v| *v as f64 / scale).collect()
}

#[test]
fn ckks_can_create_and_destroy_evaluator() {
    let ctx = Context::new(SchemeKind::Ckks, 8192, vec![60, 40, 40, 60], 0).unwrap();
    let evaluator = Evaluator::new(&ctx);
    std::mem::drop(evaluator);
}

#[test]
fn ckks_can_negate() {
    let (decryptor, encoder, encryptor, evaluator, _) = ckks_setup();
    let a = make_vec(&encoder);
    let a_c = encrypt_vec(&encoder, &encryptor, &a);

    let b_c = evaluator.negate(&a_c).unwrap();

    let b = decrypt_f64(&decryptor, &encoder, &b_c);

    assert_eq!(a.len(), b.len());
    for i in 0..a.len() {
        float_assert_eq(a[i] as f64, -b[i]);
    }
}

#[test]
fn ckks_can_negate_inplace() {
    let (decryptor, encoder, encryptor, evaluator, _) = ckks_setup();
    let a = make_vec(&encoder);
    let mut a_c = encrypt_vec(&encoder, &encryptor, &a);

    evaluator.negate_inplace(&mut a_c).unwrap();

    let b = decrypt_f64(&decryptor, &encoder, &a_c);

    assert_eq!(a.len(), b.len());
    for i in 0..a.len() {
        float_assert_eq(a[i] as f64, -b[i]);
    }
}

#[test]
fn ckks_can_add() {
    let (decryptor, encoder, encryptor, evaluator, _) = ckks_setup();
    let a = make_vec(&encoder);
    let b = make_vec(&encoder);
    let a_c = encrypt_vec(&encoder, &encryptor, &a);
    let b_c = encrypt_vec(&encoder, &encryptor, &b);

    let c_c = evaluator.add(&a_c, &b_c).unwrap();

    let c = decrypt_f64(&decryptor, &encoder, &c_c);

    assert_eq!(a.len(), c.len());
    assert_eq!(b.len(), c.len());
    for i in 0..a.len() {
        float_assert_eq(c[i], (a[i] + b[i]) as f64);
    }
}

#[test]
fn ckks_can_add_inplace() {
    let (decryptor, encoder, encryptor, evaluator, _) = ckks_setup();
    let a = make_vec(&encoder);
    let b = make_vec(&encoder);
    let mut a_c = encrypt_vec(&encoder, &encryptor, &a);
    let b_c = encrypt_vec(&encoder, &encryptor, &b);

    evaluator.add_inplace(&mut a_c, &b_c).unwrap();

    let c = decrypt_f64(&decryptor, &encoder, &a_c);

    assert_eq!(a.len(), c.len());
    assert_eq!(b.len(), c.len());
    for i in 0..a.len() {
        float_assert_eq(c[i], (a[i] + b[i]) as f64);
    }
}

#[test]
fn ckks_can_add_many() {
    let (decryptor, encoder, encryptor, evaluator, _) = ckks_setup();
    let a = make_vec(&encoder);
    let b = make_vec(&encoder);
    let c = make_vec(&encoder);
    let d = make_vec(&encoder);

    let data_c = vec![
        encrypt_vec(&encoder, &encryptor, &a),
        encrypt_vec(&encoder, &encryptor, &b),
        encrypt_vec(&encoder, &encryptor, &c),
        encrypt_vec(&encoder, &encryptor, &d),
    ];

    let out_c = evaluator.add_many(&data_c).unwrap();

    let out = decrypt_f64(&decryptor, &encoder, &out_c);

    assert_eq!(a.len(), out.len());
    assert_eq!(b.len(), out.len());
    assert_eq!(c.len(), out.len());
    assert_eq!(d.len(), out.len());
    for i in 0..a.len() {
        float_assert_eq(out[i], (a[i] + b[i] + c[i] + d[i]) as f64);
    }
}

#[test]
fn ckks_can_sub() {
    let (decryptor, encoder, encryptor, evaluator, _) = ckks_setup();
    let a = make_vec(&encoder);
    let b = make_vec(&encoder);
    let a_c = encrypt_vec(&encoder, &encryptor, &a);
    let b_c = encrypt_vec(&encoder, &encryptor, &b);

    let c_c = evaluator.sub(&a_c, &b_c).unwrap();

    let c = decrypt_f64(&decryptor, &encoder, &c_c);

    assert_eq!(a.len(), c.len());
    assert_eq!(b.len(), c.len());
    for i in 0..a.len() {
        float_assert_eq(c[i], (a[i] - b[i]) as f64);
    }
}

#[test]
fn ckks_can_sub_inplace() {
    let (decryptor, encoder, encryptor, evaluator, _) = ckks_setup();
    let a = make_vec(&encoder);
    let b = make_vec(&encoder);
    let mut a_c = encrypt_vec(&encoder, &encryptor, &a);
    let b_c = encrypt_vec(&encoder, &encryptor, &b);

    evaluator.sub_inplace(&mut a_c, &b_c).unwrap();

    let c = decrypt_f64(&decryptor, &encoder, &a_c);

    assert_eq!(a.len(), c.len());
    assert_eq!(b.len(), c.len());
    for i in 0..a.len() {
        float_assert_eq(c[i], (a[i] - b[i]) as f64);
    }
}

#[test]
fn ckks_can_multiply() {
    let (decryptor, encoder, encryptor, evaluator, _) = ckks_setup();
    let a = make_vec(&encoder);
    let b = make_vec(&encoder);
    let a_c = encrypt_vec(&encoder, &encryptor, &a);
    let b_c = encrypt_vec(&encoder, &encryptor, &b);

    let c_c = evaluator.multiply(&a_c, &b_c).unwrap();

    let c = decrypt_f64(&decryptor, &encoder, &c_c);

    assert_eq!(a.len(), c.len());
    assert_eq!(b.len(), c.len());
    for i in 0..a.len() {
        float_assert_eq(c[i], (a[i] * b[i]) as f64);
    }
}

#[test]
fn ckks_can_multiply_inplace() {
    let (decryptor, encoder, encryptor, evaluator, _) = ckks_setup();
    let a = make_vec(&encoder);
    let b = make_vec(&encoder);
    let mut a_c = encrypt_vec(&encoder, &encryptor, &a);
    let b_c = encrypt_vec(&encoder, &encryptor, &b);

    evaluator.multiply_inplace(&mut a_c, &b_c).unwrap();

    let c = decrypt_f64(&decryptor, &encoder, &a_c);

    assert_eq!(a.len(), c.len());
    assert_eq!(b.len(), c.len());
    for i in 0..a.len() {
        float_assert_eq(c[i], (a[i] * b[i]) as f64);
    }
}

#[test]
fn ckks_can_square() {
    let (decryptor, encoder, encryptor, evaluator, _) = ckks_setup();
    let a = make_vec(&encoder);
    let a_c = encrypt_vec(&encoder, &encryptor, &a);

    let b_c = evaluator.square(&a_c).unwrap();

    let b = decrypt_f64(&decryptor, &encoder, &b_c);

    assert_eq!(a.len(), b.len());
    for i in 0..a.len() {
        float_assert_eq(b[i], (a[i] * a[i]) as f64);
    }
}

#[test]
fn ckks_can_square_inplace() {
    let (decryptor, encoder, encryptor, evaluator, _) = ckks_setup();
    let a = make_vec(&encoder);
    let mut a_c = encrypt_vec(&encoder, &encryptor, &a);

    evaluator.square_inplace(&mut a_c).unwrap();

    let b = decrypt_f64(&decryptor, &encoder, &a_c);

    assert_eq!(a.len(), b.len());
    for i in 0..a.len() {
        float_assert_eq(b[i], (a[i] * a[i]) as f64);
    }
}

#[test]
fn ckks_can_add_plain() {
    let (decryptor, encoder, encryptor, evaluator, _) = ckks_setup();
    let a = make_vec(&encoder);
    let b = make_vec(&encoder);
    let b_p = encoder.encode_i64(&b).unwrap();
    let a_c = encrypt_vec(&encoder, &encryptor, &a);

    let c_c = evaluator.add_plain(&a_c, &b_p).unwrap();

    let c = decrypt_f64(&decryptor, &encoder, &c_c);

    assert_eq!(a.len(), c.len());
    assert_eq!(b.len(), c.len());
    for i in 0..a.len() {
        float_assert_eq(c[i], (a[i] + b[i]) as f64);
    }
}

#[test]
fn ckks_can_add_plain_inplace() {
    let (decryptor, encoder, encryptor, evaluator, _) = ckks_setup();
    let a = make_vec(&encoder);
    let b = make_vec(&encoder);
    let b_p = encoder.encode_i64(&b).unwrap();
    let mut a_c = encrypt_vec(&encoder, &encryptor, &a);

    evaluator.add_plain_inplace(&mut a_c, &b_p).unwrap();

    let c = decrypt_f64(&decryptor, &encoder, &a_c);

    assert_eq!(a.len(), c.len());
    assert_eq!(b.len(), c.len());
    for i in 0..a.len() {
        float_assert_eq(c[i], (a[i] + b[i]) as f64);
    }
}

#[test]
fn ckks_can_sub_plain() {
    let (decryptor, encoder, encryptor, evaluator, _) = ckks_setup();
    let a = make_vec(&encoder);
    let b = make_vec(&encoder);
    let b_p = encoder.encode_i64(&b).unwrap();
    let a_c = encrypt_vec(&encoder, &encryptor, &a);

    let c_c = evaluator.sub_plain(&a_c, &b_p).unwrap();

    let c = decrypt_f64(&decryptor, &encoder, &c_c);

    assert_eq!(a.len(), c.len());
    assert_eq!(b.len(), c.len());
    for i in 0..a.len() {
        float_assert_eq(c[i], (a[i] - b[i]) as f64);
    }
}

#[test]
fn ckks_can_sub_plain_inplace() {
    let (decryptor, encoder, encryptor, evaluator, _) = ckks_setup();
    let a = make_vec(&encoder);
    let b = make_vec(&encoder);
    let b_p = encoder.encode_i64(&b).unwrap();
    let mut a_c = encrypt_vec(&encoder, &encryptor, &a);

    evaluator.sub_plain_inplace(&mut a_c, &b_p).unwrap();

    let c = decrypt_f64(&decryptor, &encoder, &a_c);

    assert_eq!(a.len(), c.len());
    assert_eq!(b.len(), c.len());
    for i in 0..a.len() {
        float_assert_eq(c[i], (a[i] - b[i]) as f64);
    }
}

#[test]
fn ckks_can_multiply_plain() {
    let (decryptor, encoder, encryptor, evaluator, _) = ckks_setup();
    let a = make_vec(&encoder);
    let b = make_vec(&encoder);
    let b_p = encoder.encode_i64(&b).unwrap();
    let a_c = encrypt_vec(&encoder, &encryptor, &a);

    let c_c = evaluator.multiply_plain(&a_c, &b_p).unwrap();

    let c = decrypt_f64(&decryptor, &encoder, &c_c);

    assert_eq!(a.len(), c.len());
    assert_eq!(b.len(), c.len());
    for i in 0..a.len() {
        float_assert_eq(c[i], (a[i] * b[i]) as f64);
    }
}

#[test]
fn ckks_can_multiply_plain_inplace() {
    let (decryptor, encoder, encryptor, evaluator, _) = ckks_setup();
    let a = make_vec(&encoder);
    let b = make_vec(&encoder);
    let b_p = encoder.encode_i64(&b).unwrap();
    let mut a_c = encrypt_vec(&encoder, &encryptor, &a);

    evaluator.multiply_plain_inplace(&mut a_c, &b_p).unwrap();

    let c = decrypt_f64(&decryptor, &encoder, &a_c);

    assert_eq!(a.len(), c.len());
    assert_eq!(b.len(), c.len());
    for i in 0..a.len() {
        float_assert_eq(c[i], (a[i] * b[i]) as f64);
    }
}
