use homocrypt::bigint::probab_prime;
use homocrypt::gm::GM;
use homocrypt::paillier::Paillier;
use homocrypt::rng::generate_strong_prime;
use homocrypt::rng::RandomState;
use num_bigint::BigUint;

#[test]
fn strong_prime() {
    let mut randstate = RandomState::from_entropy();
    let p = generate_strong_prime(&mut randstate, 1024).unwrap();
    assert!(probab_prime(&p, 40) == true);
}

#[test]
fn gm_gen_key() {
    let gmcrypto = GM::new(1024).unwrap();
    assert!(&gmcrypto.sk.p != &gmcrypto.sk.q);
}

#[test]
fn gm_enc_dec() {
    let mut gmcrypto = GM::new(1024).unwrap();
    let c = gmcrypto.encrypt(true).unwrap();
    assert!(gmcrypto.decrypt(&c) == true);
    let c1 = gmcrypto.encrypt(true).unwrap();
    assert!(&c1 != &c);
    assert!(gmcrypto.decrypt(&c1) == true);
    let c2 = gmcrypto.encrypt(false).unwrap();
    let c3 = gmcrypto.encrypt(false).unwrap();
    assert!(&c2 != &c3);
    assert!(gmcrypto.decrypt(&c2) == false);
    assert!(gmcrypto.decrypt(&c3) == false);
}

#[test]
fn gm_xor() {
    let mut gmcrypto = GM::new(1024).unwrap();
    let c = gmcrypto.encrypt(true).unwrap();
    let c1 = gmcrypto.encrypt(true).unwrap();
    let c2 = gmcrypto.encrypt(false).unwrap();
    let c3 = gmcrypto.encrypt(false).unwrap();
    let cc1 = gmcrypto.xor(&c, &c1);
    let cc2 = gmcrypto.xor(&c2, &c2);
    let cc3 = gmcrypto.xor(&c, &c3);
    let cc4 = gmcrypto.xor(&c3, &c1);
    assert!(gmcrypto.decrypt(&cc1) == false);
    assert!(gmcrypto.decrypt(&cc2) == false);
    assert!(gmcrypto.decrypt(&cc3) == true);
    assert!(gmcrypto.decrypt(&cc4) == true);
}

#[test]
fn pai_gen_key() {
    let paics = Paillier::new(1024).unwrap();
    assert!(&paics.pk.n == &(&paics.pk.g - BigUint::from(1u64)));
}

#[test]
fn pai_enc_dec() {
    let m = BigUint::from(1235u64);
    let mut paics = Paillier::new(1024).unwrap();
    let c = paics.encrypt(&m).unwrap();
    let mm = paics.decrypt(&c);
    assert!(&m == &mm);
}

#[test]
fn pai_add_cipher() {
    let mut paics = Paillier::new(1024).unwrap();
    let m1 = BigUint::from(1235u64);
    let m2 = BigUint::from(5321u64);
    let c1 = paics.encrypt(&m1).unwrap();
    let c2 = paics.encrypt(&m2).unwrap();
    let c3 = paics.add_cipher(&c1, &c2);
    let m3 = paics.decrypt(&c3);
    assert!(&m3 == &BigUint::from(6556u64));
}

#[test]
fn pai_add_const() {
    let mut paics = Paillier::new(1024).unwrap();
    let m1 = BigUint::from(1235u64);
    let m2 = BigUint::from(5321u64);
    let c1 = paics.encrypt(&m1).unwrap();
    let c3 = paics.add_const(&c1, &m2);
    let m3 = paics.decrypt(&c3);
    assert!(&m3 == &BigUint::from(6556u64));
}

#[test]
fn pai_mul_const() {
    let mut paics = Paillier::new(1024).unwrap();
    let m1 = BigUint::from(1235u64);
    let m2 = BigUint::from(5321u64);
    let c1 = paics.encrypt(&m1).unwrap();
    let c3 = paics.mul_const(&c1, &m2);
    let m3 = paics.decrypt(&c3);
    assert!(&m3 == &BigUint::from(1235u64 * 5321));
}
