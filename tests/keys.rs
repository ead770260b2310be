use ark_bls12_381::{Fr, G1Projective, G2Projective};
use ark_ec::Group;
use ark_ff::PrimeField;
use ark_serialize::CanonicalSerialize;
use ark_std::rand::rngs::StdRng;
use ark_std::rand::SeedableRng;
use ark_std::UniformRand;
use silent_threshold_encryption::encryption::encrypt;
use silent_threshold_encryption::group::{G1, G2};
use silent_threshold_encryption::kzg::{commit, is_supported_size, setup, SetupError};
use silent_threshold_encryption::scalar::Scalar;
use silent_threshold_encryption::setup::{AggregateKey, LagrangePowers, PublicKey, SecretKey};

fn scalar_of(x: Fr) -> Scalar {
    Scalar { limbs: x.into_bigint().0 }
}

fn g1_bytes(p: G1Projective) -> Vec<u8> {
    let mut v = Vec::new();
    p.serialize_compressed(&mut v).unwrap();
    v
}

fn g2_bytes(p: G2Projective) -> Vec<u8> {
    let mut v = Vec::new();
    p.serialize_compressed(&mut v).unwrap();
    v
}

#[test]
fn setup_rejects_unsupported_sizes() {
    let tau = Scalar::from_u64(5);
    assert_eq!(setup(0, &tau).err(), Some(SetupError::UnsupportedSize));
    assert_eq!(setup(3, &tau).err(), Some(SetupError::UnsupportedSize));
    assert_eq!(setup(6, &tau).err(), Some(SetupError::UnsupportedSize));
    assert!(!is_supported_size((1usize << 32) + (1usize << 31)));
    assert!(!is_supported_size(1usize << 33));
    assert!(is_supported_size(1usize << 32));
    assert!(is_supported_size(1));
}

#[test]
fn setup_holds_powers_of_tau() {
    let tau = Scalar::from_u64(3);
    let params = setup(4, &tau).unwrap();
    assert_eq!(params.powers_of_g.len(), 4);
    assert_eq!(params.powers_of_h.len(), 5);
    for i in 0..5u64 {
        let power = Fr::from(3u64.pow(i as u32));
        if i < 4 {
            assert_eq!(params.powers_of_g[i as usize].to_bytes(), g1_bytes(G1Projective::generator() * power));
        }
        assert_eq!(params.powers_of_h[i as usize].to_bytes(), g2_bytes(G2Projective::generator() * power));
    }
}

#[test]
fn commit_sums_weighted_powers() {
    let params = setup(4, &Scalar::from_u64(2)).unwrap();
    // 1 + 3x + 5x^2 at x = 2 is 27
    let coeffs = vec![Scalar::from_u64(1), Scalar::from_u64(3), Scalar::from_u64(5)];
    let c = commit(&params.powers_of_g, &coeffs);
    assert_eq!(c.to_bytes(), g1_bytes(G1Projective::generator() * Fr::from(27u64)));
}

#[test]
fn key_derivation_paths_agree() {
    let mut rng = StdRng::seed_from_u64(11);
    for n in [2usize, 4, 8] {
        let tau = scalar_of(Fr::rand(&mut rng));
        let params = setup(n, &tau).unwrap();
        let lagrange = LagrangePowers::new(&tau, n);
        for i in 0..n {
            let sk = SecretKey::new(&mut rng);
            let direct = sk.get_pk(i, &params, n);
            let fast = sk.lagrange_get_pk(i, &lagrange, n);
            assert_eq!(direct.id, i);
            assert_eq!(fast.id, i);
            assert_eq!(direct.bls_pk.to_bytes(), fast.bls_pk.to_bytes());
            assert_eq!(direct.sk_li.to_bytes(), fast.sk_li.to_bytes());
        }
    }
}

#[test]
fn lagrange_powers_are_basis_values_at_tau() {
    // for n = 2 the domain is {1, -1}: L_0(x) = (1 + x) / 2 and L_1(x) = (1 - x) / 2
    let tau = Fr::from(5u64);
    let lagrange = LagrangePowers::new(&scalar_of(tau), 2);
    assert_eq!(lagrange.li.len(), 2);
    assert_eq!(lagrange.li[0].to_bytes(), g1_bytes(G1Projective::generator() * Fr::from(3u64)));
    assert_eq!(lagrange.li[1].to_bytes(), g1_bytes(G1Projective::generator() * (-Fr::from(2u64))));
}

#[test]
fn public_key_commits_the_secret() {
    let sk = SecretKey::from_scalar(Scalar::from_u64(9));
    let tau = Scalar::from_u64(5);
    let lagrange = LagrangePowers::new(&tau, 2);
    let pk = sk.lagrange_get_pk(1, &lagrange, 2);
    assert_eq!(pk.bls_pk.to_bytes(), g1_bytes(G1Projective::generator() * Fr::from(9u64)));
    // L_1(5) = -2, times 9
    assert_eq!(pk.sk_li.to_bytes(), g1_bytes(G1Projective::generator() * (-Fr::from(18u64))));
    assert_ne!(pk.sk_li.to_bytes(), lagrange.li[1].to_bytes());
}

#[test]
fn nullified_key_gives_identity_share() {
    let mut rng = StdRng::seed_from_u64(12);
    let tau = scalar_of(Fr::rand(&mut rng));
    let params = setup(4, &tau).unwrap();
    let mut sk = SecretKey::new(&mut rng);
    sk.nullify();
    let other = SecretKey::new(&mut rng);
    let pk: Vec<PublicKey> = (0..4).map(|i| if i == 0 { sk.get_pk(0, &params, 4) } else { other.get_pk(i, &params, 4) }).collect();
    let ak = AggregateKey::new(pk, &params);
    for t in 0..4 {
        let ct = encrypt(&ak, t, &params, &mut rng);
        assert!(sk.partial_decryption(&ct).is_identity());
        assert!(!other.partial_decryption(&ct).is_identity());
    }
    assert_eq!(sk.to_bytes(), vec![0u8; 32]);
}

#[test]
fn partial_decryption_is_gamma_times_secret() {
    let mut rng = StdRng::seed_from_u64(13);
    let params = setup(2, &Scalar::from_u64(4)).unwrap();
    let sk = SecretKey::from_scalar(Scalar::from_u64(6));
    let pk: Vec<PublicKey> = (0..2).map(|i| sk.get_pk(i, &params, 2)).collect();
    let ak = AggregateKey::new(pk, &params);
    let zero = Scalar::zero();
    let ct = silent_threshold_encryption::encryption::encrypt_with_randomness(
        &ak,
        1,
        &params,
        &Scalar::from_u64(7),
        &[zero, zero, zero, zero, Scalar::one()],
    );
    let share = sk.partial_decryption(&ct);
    assert_eq!(share.to_bytes(), g2_bytes(G2Projective::generator() * Fr::from(42u64)));
    let _ = rng;
}

#[test]
fn aggregate_key_sums_commitments() {
    let params = setup(2, &Scalar::from_u64(5)).unwrap();
    let a = SecretKey::from_scalar(Scalar::from_u64(2));
    let b = SecretKey::from_scalar(Scalar::from_u64(3));
    let pk = vec![a.get_pk(0, &params, 2), b.get_pk(1, &params, 2)];
    let ak = AggregateKey::new(pk, &params);
    // 2 * L_0(5) + 3 * L_1(5) = 2 * 3 + 3 * (-2) = 0
    assert_eq!(ak.ask.to_bytes(), g1_bytes(G1Projective::generator() * Fr::from(0u64)));
    // z_g2 = h^(tau^2) - h = 24 h
    assert_eq!(ak.z_g2.to_bytes(), g2_bytes(G2Projective::generator() * Fr::from(24u64)));
    assert_eq!(ak.pk.len(), 2);
}

#[test]
fn aggregate_key_depends_on_order() {
    let mut rng = StdRng::seed_from_u64(14);
    let tau = scalar_of(Fr::rand(&mut rng));
    let params = setup(4, &tau).unwrap();
    let sks: Vec<SecretKey> = (0..4).map(|_| SecretKey::new(&mut rng)).collect();
    let forward: Vec<PublicKey> = (0..4).map(|i| sks[i].get_pk(i, &params, 4)).collect();
    let backward: Vec<PublicKey> = (0..4).map(|i| sks[3 - i].get_pk(i, &params, 4)).collect();
    let ak1 = AggregateKey::new(forward, &params);
    let ak2 = AggregateKey::new(backward, &params);
    assert_ne!(ak1.ask.to_bytes(), ak2.ask.to_bytes());
    assert_ne!(ak1.pk[0].bls_pk.to_bytes(), ak2.pk[0].bls_pk.to_bytes());
}

#[test]
fn secret_key_round_trip() {
    let mut rng = StdRng::seed_from_u64(15);
    let sk = SecretKey::new(&mut rng);
    let bytes = sk.to_bytes();
    assert_eq!(bytes.len(), 32);
    let back = SecretKey::from_bytes(&bytes).unwrap();
    assert_eq!(back.to_bytes(), bytes);
    assert!(SecretKey::from_bytes(&bytes[..31]).is_none());
}

#[test]
fn public_key_round_trip() {
    let mut rng = StdRng::seed_from_u64(16);
    let params = setup(4, &scalar_of(Fr::rand(&mut rng))).unwrap();
    let pk = SecretKey::new(&mut rng).get_pk(3, &params, 4);
    let bytes = pk.to_bytes();
    assert_eq!(bytes.len(), 104);
    assert_eq!(&bytes[..8], &[3u8, 0, 0, 0, 0, 0, 0, 0][..]);
    let back = PublicKey::from_bytes(&bytes).unwrap();
    assert_eq!(back.id, 3);
    assert_eq!(back.to_bytes(), bytes);
    assert!(PublicKey::from_bytes(&bytes[..103]).is_none());
}

#[test]
fn share_round_trip() {
    let mut rng = StdRng::seed_from_u64(17);
    let p = G2Projective::generator() * Fr::rand(&mut rng);
    let bytes = g2_bytes(p);
    let share = G2::from_bytes(&bytes).unwrap();
    assert_eq!(share.to_bytes(), bytes);
    assert!(G2::from_bytes(&bytes[..95]).is_none());
    let g = g1_bytes(G1Projective::generator());
    assert_eq!(G1::from_bytes(&g).unwrap().to_bytes(), g);
}

#[test]
fn aggregate_key_round_trip() {
    let mut rng = StdRng::seed_from_u64(18);
    let params = setup(4, &scalar_of(Fr::rand(&mut rng))).unwrap();
    let pk: Vec<PublicKey> = (0..4).map(|i| SecretKey::new(&mut rng).get_pk(i, &params, 4)).collect();
    let ak = AggregateKey::new(pk, &params);
    let bytes = ak.to_bytes();
    assert_eq!(bytes.len(), 8 + 4 * 104 + 48 + 96);
    assert_eq!(&bytes[..8], &[4u8, 0, 0, 0, 0, 0, 0, 0][..]);
    let back = AggregateKey::from_bytes(&bytes).unwrap();
    assert_eq!(back.pk.len(), 4);
    assert_eq!(back.to_bytes(), bytes);
    assert!(AggregateKey::from_bytes(&bytes[..bytes.len() - 1]).is_none());
    let mut wrong_count = bytes.clone();
    wrong_count[0] = 5;
    assert!(AggregateKey::from_bytes(&wrong_count).is_none());
}
