use ark_bls12_381::{Bls12_381, Fr, G1Projective, G2Projective};
use ark_ec::pairing::Pairing;
use ark_ec::Group;
use ark_ff::PrimeField;
use ark_serialize::CanonicalSerialize;
use ark_std::rand::rngs::StdRng;
use ark_std::rand::SeedableRng;
use ark_std::UniformRand;
use silent_threshold_encryption::encryption::{encrypt, encrypt_with_randomness, Ciphertext};
use silent_threshold_encryption::kzg::{setup, UniversalParams};
use silent_threshold_encryption::scalar::Scalar;
use silent_threshold_encryption::setup::{AggregateKey, PublicKey, SecretKey};

fn scalar_of(x: Fr) -> Scalar {
    Scalar { limbs: x.into_bigint().0 }
}

fn random_scalar(rng: &mut StdRng) -> Scalar {
    scalar_of(Fr::rand(rng))
}

fn committee(n: usize, rng: &mut StdRng) -> (UniversalParams, Vec<SecretKey>, AggregateKey) {
    let tau = random_scalar(rng);
    let params = setup(n, &tau).unwrap();
    let mut sk: Vec<SecretKey> = Vec::new();
    let mut pk: Vec<PublicKey> = Vec::new();
    for i in 0..n {
        sk.push(SecretKey::new(rng));
        pk.push(sk[i].get_pk(i, &params, n));
    }
    let ak = AggregateKey::new(pk, &params);
    (params, sk, ak)
}

#[test]
fn test_encryption() {
    let mut rng = StdRng::seed_from_u64(1);
    let n = 8;
    let tau = random_scalar(&mut rng);
    let params = setup(n, &tau).unwrap();

    let mut sk: Vec<SecretKey> = Vec::new();
    let mut pk: Vec<PublicKey> = Vec::new();

    for i in 0..n {
        sk.push(SecretKey::new(&mut rng));
        pk.push(sk[i].get_pk(0, &params, n))
    }

    let ak = AggregateKey::new(pk, &params);
    let _ct = encrypt(&ak, 2, &params, &mut rng);
}

#[test]
fn encryption_keeps_threshold_and_size() {
    let mut rng = StdRng::seed_from_u64(2);
    let (params, _sk, ak) = committee(8, &mut rng);
    let ct = encrypt(&ak, 2, &params, &mut rng);
    assert_eq!(ct.t, 2);
    assert_eq!(ct.to_bytes().len(), 1352);
}

#[test]
fn encryption_is_fresh_each_time() {
    let mut rng = StdRng::seed_from_u64(3);
    let (params, _sk, ak) = committee(4, &mut rng);
    let a = encrypt(&ak, 1, &params, &mut rng);
    let b = encrypt(&ak, 1, &params, &mut rng);
    assert_ne!(a.enc_key.to_bytes(), b.enc_key.to_bytes());
    assert_ne!(a.gamma_g2.to_bytes(), b.gamma_g2.to_bytes());
}

#[test]
fn encapsulated_key_is_pairing_of_generators_times_s4() {
    let mut rng = StdRng::seed_from_u64(4);
    let (params, _sk, ak) = committee(4, &mut rng);
    let zero = Scalar::zero();
    let five = Scalar::from_u64(5);
    let ct = encrypt_with_randomness(&ak, 1, &params, &Scalar::one(), &[zero, zero, zero, zero, five]);
    let expected = Bls12_381::pairing(G1Projective::generator(), G2Projective::generator()) * Fr::from(5u64);
    let mut bytes = Vec::new();
    expected.serialize_compressed(&mut bytes).unwrap();
    assert_eq!(ct.enc_key.to_bytes(), bytes);
    // gamma = 1: gamma_g2 is the generator of G2
    let mut h = Vec::new();
    G2Projective::generator().serialize_compressed(&mut h).unwrap();
    assert_eq!(ct.gamma_g2.to_bytes(), h);
}

#[test]
fn zero_blinding_scalars_give_identity_parts() {
    let mut rng = StdRng::seed_from_u64(5);
    let (params, _sk, ak) = committee(4, &mut rng);
    let zero = Scalar::zero();
    let ct = encrypt_with_randomness(&ak, 2, &params, &Scalar::from_u64(7), &[zero, zero, zero, zero, Scalar::one()]);
    // the compressed point at infinity: the infinity and compression flags, then zeros
    let mut g1_infinity = vec![0u8; 48];
    g1_infinity[0] = 0xc0;
    assert_eq!(ct.sa1[1].to_bytes(), g1_infinity);
    for k in 0..5 {
        assert!(ct.sa2[k].is_identity());
    }
    assert!(!ct.sa2[5].is_identity());
    // sa1[0] = g * s4 = g
    let mut g = Vec::new();
    G1Projective::generator().serialize_compressed(&mut g).unwrap();
    assert_eq!(ct.sa1[0].to_bytes(), g);
}

#[test]
fn sa2_last_is_h_tau_minus_h() {
    let mut rng = StdRng::seed_from_u64(6);
    let tau_fr = Fr::from(3u64);
    let params = setup(4, &scalar_of(tau_fr)).unwrap();
    let sk = SecretKey::new(&mut rng);
    let pk: Vec<PublicKey> = (0..4).map(|i| sk.get_pk(i, &params, 4)).collect();
    let ak = AggregateKey::new(pk, &params);
    let zero = Scalar::zero();
    let ct = encrypt_with_randomness(&ak, 0, &params, &Scalar::one(), &[zero, zero, zero, zero, Scalar::one()]);
    // (tau - 1) * h with tau = 3
    let expected = G2Projective::generator() * Fr::from(2u64);
    let mut bytes = Vec::new();
    expected.serialize_compressed(&mut bytes).unwrap();
    assert_eq!(ct.sa2[5].to_bytes(), bytes);
}

#[test]
fn ciphertext_new_keeps_fields() {
    let mut rng = StdRng::seed_from_u64(7);
    let (params, _sk, ak) = committee(2, &mut rng);
    let ct = encrypt(&ak, 1, &params, &mut rng);
    let before = ct.to_bytes();
    let copy = Ciphertext::new(ct.gamma_g2, ct.sa1, ct.sa2, ct.enc_key, ct.t);
    assert_eq!(copy.to_bytes(), before);
}

#[test]
fn ciphertext_round_trip() {
    let mut rng = StdRng::seed_from_u64(8);
    let (params, _sk, ak) = committee(8, &mut rng);
    let ct = encrypt(&ak, 3, &params, &mut rng);
    let bytes = ct.to_bytes();
    let back = Ciphertext::from_bytes(&bytes).unwrap();
    assert_eq!(back.t, 3);
    assert_eq!(back.to_bytes(), bytes);
}

#[test]
fn ciphertext_decoding_rejects_bad_input() {
    let mut rng = StdRng::seed_from_u64(9);
    let (params, _sk, ak) = committee(2, &mut rng);
    let ct = encrypt(&ak, 1, &params, &mut rng);
    let bytes = ct.to_bytes();
    assert!(Ciphertext::from_bytes(&bytes[..1351]).is_none());
    let mut longer = bytes.clone();
    longer.push(0);
    assert!(Ciphertext::from_bytes(&longer).is_none());
    let mut corrupt = bytes.clone();
    // a compressed x-coordinate above the base field's modulus
    for b in corrupt[96..144].iter_mut() {
        *b = 0xff;
    }
    corrupt[96] = 0x9f;
    assert!(Ciphertext::from_bytes(&corrupt).is_none());
}

#[test]
fn ciphertext_matches_derived_layout() {
    let mut rng = StdRng::seed_from_u64(10);
    let (params, _sk, ak) = committee(2, &mut rng);
    let ct = encrypt(&ak, 1, &params, &mut rng);
    let bytes = ct.to_bytes();
    assert_eq!(&bytes[0..96], &ct.gamma_g2.to_bytes()[..]);
    assert_eq!(&bytes[144..192], &ct.sa1[1].to_bytes()[..]);
    assert_eq!(&bytes[672..768], &ct.sa2[5].to_bytes()[..]);
    assert_eq!(&bytes[768..1344], &ct.enc_key.to_bytes()[..]);
    assert_eq!(&bytes[1344..], &[1u8, 0, 0, 0, 0, 0, 0, 0][..]);
}
