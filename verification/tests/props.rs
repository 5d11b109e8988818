use homocrypt::bigint::probab_prime;
use homocrypt::gm::GM;
use homocrypt::paillier::Paillier;
use homocrypt::rng::generate_prime;
use homocrypt::rng::generate_strong_prime;
use homocrypt::rng::generate_urandom;
use homocrypt::rng::RandomState;
use homocrypt::CryptoError;
use num_bigint::BigUint;

#[test]
fn gm_roundtrip_many() {
    let mut gmcrypto = GM::new(256).unwrap();
    for i in 0..100 {
        let b = i % 2 == 0;
        let c = gmcrypto.encrypt(b).unwrap();
        assert_eq!(gmcrypto.decrypt(&c), b);
    }
}

#[test]
fn gm_ciphertexts_differ() {
    let mut gmcrypto = GM::new(256).unwrap();
    for _ in 0..20 {
        let c1 = gmcrypto.encrypt(true).unwrap();
        let c2 = gmcrypto.encrypt(true).unwrap();
        assert_ne!(c1, c2);
        let c3 = gmcrypto.encrypt(false).unwrap();
        let c4 = gmcrypto.encrypt(false).unwrap();
        assert_ne!(c3, c4);
    }
}

#[test]
fn gm_xor_all_pairs() {
    let mut gmcrypto = GM::new(256).unwrap();
    for &b1 in &[false, true] {
        for &b2 in &[false, true] {
            let c1 = gmcrypto.encrypt(b1).unwrap();
            let c2 = gmcrypto.encrypt(b2).unwrap();
            let cx = gmcrypto.xor(&c1, &c2);
            assert_eq!(gmcrypto.decrypt(&cx), b1 ^ b2);
        }
    }
}

#[test]
fn gm_key_invariants() {
    let gmcrypto = GM::new(256).unwrap();
    assert!(gmcrypto.sk.p != gmcrypto.sk.q);
    assert!(gmcrypto.pk.n.bits() >= 256);
    assert_eq!(gmcrypto.sk.p.bits(), 129);
    assert_eq!(gmcrypto.sk.q.bits(), 128);
    assert!(probab_prime(&gmcrypto.sk.p, 40));
    assert!(probab_prime(&gmcrypto.sk.q, 40));
    assert_eq!(&gmcrypto.pk.n, &(&gmcrypto.sk.p * &gmcrypto.sk.q));
    assert!(gmcrypto.pk.x < gmcrypto.pk.n);
}

#[test]
fn strong_prime_exact_bits() {
    let mut rs = RandomState::new(20231);
    let p = generate_strong_prime(&mut rs, 256).unwrap();
    assert_eq!(p.bits(), 256);
    assert!(probab_prime(&p, 40));
}

#[test]
fn prime_exact_bits() {
    let mut rs = RandomState::new(987654321);
    let p = generate_prime(&mut rs, 64).unwrap();
    assert_eq!(p.bits(), 64);
    assert!(probab_prime(&p, 40));
}

#[test]
fn urandom_exact_bits() {
    let mut rs = RandomState::new(42);
    for len in [1usize, 2, 17, 64, 255] {
        let v = generate_urandom(&mut rs, len);
        assert_eq!(v.bits(), len as u64);
    }
}

#[test]
fn primality_test_verdicts() {
    assert!(probab_prime(&BigUint::from(2u64), 40));
    assert!(probab_prime(&BigUint::from(1009u64), 40));
    assert!(!probab_prime(&BigUint::from(1u64), 40));
    assert!(!probab_prime(&BigUint::from(341u64), 40));
    assert!(!probab_prime(&BigUint::from(1024u64), 40));
}

#[test]
fn pai_roundtrip_wraps() {
    let mut paics = Paillier::new(128).unwrap();
    let m = &paics.pk.n + BigUint::from(5u64);
    let c = paics.encrypt(&m).unwrap();
    assert_eq!(paics.decrypt(&c), BigUint::from(5u64));
}

fn pai_cycles(base: u64, count: u64) {
    let mut paics = Paillier::new(1024).unwrap();
    for i in 0..count {
        let m = BigUint::from(base + i);
        let c = paics.encrypt(&m).unwrap();
        assert_eq!(paics.decrypt(&c), m);
    }
}

#[test]
fn pai_cycles_1024_first_quarter() {
    pai_cycles(10_000, 25);
}

#[test]
fn pai_cycles_1024_second_quarter() {
    pai_cycles(20_000, 25);
}

#[test]
fn pai_cycles_1024_third_quarter() {
    pai_cycles(30_000, 25);
}

#[test]
fn pai_cycles_1024_fourth_quarter() {
    pai_cycles(40_000, 25);
}

#[test]
fn pai_key_invariants() {
    let paics = Paillier::new(256).unwrap();
    assert!(paics.pk.n.bits() >= 255);
    assert_eq!(&paics.pk.n2, &(&paics.pk.n * &paics.pk.n));
    assert_eq!(&paics.pk.g, &(&paics.pk.n + BigUint::from(1u64)));
    let prod = &paics.sk.mu * &paics.sk.lambda;
    assert_eq!(prod % &paics.pk.n, BigUint::from(1u64));
}

#[test]
fn keysize_rejected_odd() {
    assert!(matches!(GM::new(1023), Err(CryptoError::InvalidKeySize)));
    assert!(matches!(Paillier::new(127), Err(CryptoError::InvalidKeySize)));
}

#[test]
fn keysize_rejected_small() {
    assert!(matches!(GM::new(6), Err(CryptoError::InvalidKeySize)));
    assert!(matches!(GM::new(0), Err(CryptoError::InvalidKeySize)));
    assert!(matches!(Paillier::new(4), Err(CryptoError::InvalidKeySize)));
}
