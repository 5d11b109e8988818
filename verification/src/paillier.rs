//! Paillier cryptosystem: additively homomorphic encryption over the
//! residue ring modulo `n`, with ciphertexts in the ring modulo `n^2`.

use vstd::prelude::*;
use vstd::arithmetic::power2::pow2;
use vstd::arithmetic::power2::lemma_pow2_adds;
use vstd::arithmetic::power2::lemma_pow2_pos;
use vstd::arithmetic::power2::lemma_pow2_strictly_increases;
use vstd::arithmetic::power2::lemma2_to64;
use crate::arith::bit_len;
use crate::arith::gcd_nat;
use crate::arith::pow_mod;
use crate::arith::lemma_bit_len_bounds;
use crate::arith::lemma_bit_len_lower;
use crate::bigint::nat_of;
use crate::bigint::mr_accepts;
use crate::bigint::big_from_u64;
use crate::bigint::big_add;
use crate::bigint::big_sub;
use crate::bigint::big_mul;
use crate::bigint::big_div;
use crate::bigint::big_rem;
use crate::bigint::big_modpow;
use crate::bigint::big_modinv;
use crate::bigint::big_gcd;
use crate::bigint::big_eq;
use crate::rng::RandomState;
use crate::rng::generate_strong_prime;
use crate::rng::sample_below;
use crate::rng::PRIME_TEST_ROUNDS;
use crate::rng::MAX_BIT_LEN;
use crate::CryptoError;
use num_bigint::BigUint;

verus! {

/// Resamples of the distinctness and coprimality loops before
/// reporting generation failure.
const RETRY_CAP: usize = 64;

/// Smallest accepted key size; key generation needs two strong primes
/// of at least four bits each.
pub const PAI_MIN_KEYSIZE: usize = 8;

/// Private key: `lambda = (p - 1) * (q - 1)` and its inverse `mu`
/// modulo `n`.
pub struct PaiSk {
    pub lambda: BigUint,
    pub mu: BigUint,
}

/// Public key: the modulus `n`, its square `n2`, and the generator
/// `g = n + 1`.
pub struct PaiPk {
    pub n: BigUint,
    pub n2: BigUint,
    pub g: BigUint,
}

/// A Paillier instance: one key pair and one owned random state,
/// created together and immutable (but for the random state)
/// afterwards.
pub struct Paillier {
    pub pk: PaiPk,
    pub sk: PaiSk,
    pub rs: RandomState,
}

/// The factorization facts of a key pair: the modulus is the product
/// of two distinct odd probable primes and `lambda` is the product of
/// their predecessors.
pub open spec fn pai_key_from(pk: PaiPk, sk: PaiSk, p: nat, q: nat) -> bool {
    &&& mr_accepts(p, PRIME_TEST_ROUNDS as nat)
    &&& mr_accepts(q, PRIME_TEST_ROUNDS as nat)
    &&& p % 2 == 1
    &&& q % 2 == 1
    &&& p > 2
    &&& q > 2
    &&& p != q
    &&& nat_of(pk.n) == p * q
    &&& nat_of(sk.lambda) == (p - 1) * (q - 1)
}

/// Everything key generation establishes of a key pair.
pub open spec fn pai_key_wf(pk: PaiPk, sk: PaiSk) -> bool {
    &&& nat_of(pk.n) >= 2
    &&& nat_of(pk.n2) == nat_of(pk.n) * nat_of(pk.n)
    &&& nat_of(pk.g) == nat_of(pk.n) + 1
    &&& nat_of(sk.mu) < nat_of(pk.n)
    &&& (nat_of(sk.mu) * nat_of(sk.lambda)) % nat_of(pk.n) == 1nat % nat_of(pk.n)
    &&& gcd_nat(nat_of(sk.lambda), nat_of(pk.n)) == 1
    &&& exists|p: nat, q: nat| pai_key_from(pk, sk, p, q)
}

/// What the ciphertext operations need of an instance: positive
/// moduli. Instances built by key generation satisfy the stronger
/// [`pai_key_wf`].
pub open spec fn pai_usable(c: Paillier) -> bool {
    &&& nat_of(c.pk.n) >= 2
    &&& nat_of(c.pk.n2) > 0
}

/// Relation between a ciphertext value and the randomizer that
/// produced it: `c == (1 + m * n) * r^n mod n^2` for a unit `r` of
/// `Z_n`; the term `1 + m * n` is `g^m mod n^2` for `g = n + 1`.
pub open spec fn pai_cipher_for(c: nat, r: nat, m: nat, n: nat, n2: nat) -> bool {
    &&& r < n
    &&& gcd_nat(r, n) == 1
    &&& c == ((m * n + 1) * pow_mod(r, n, n2)) % n2
}

/// The decryption formula: `L(c^lambda mod n^2) * mu mod n`, where
/// `L(u) = (u - 1) / n`; a `u` of 0, which no well-formed ciphertext
/// produces, yields 0, as truncating signed division would.
pub open spec fn pai_decrypt_of(c: nat, lambda: nat, mu: nat, n: nat, n2: nat) -> nat
    recommends
        n > 0,
        n2 > 0,
{
    let u = pow_mod(c, lambda, n2);
    let l = if u >= 1 {
        ((u - 1) as nat) / n
    } else {
        0nat
    };
    (l * mu) % n
}

impl Paillier {
    /// Generates a key pair: two distinct strong primes of
    /// `keysize/2` bits, their product `n`, `g = n + 1`,
    /// `lambda = (p - 1) * (q - 1)`, and `mu = lambda^-1 mod n`; a
    /// missing inverse would break a construction invariant and is
    /// reported as fatal, not as an input error.
    pub fn generate_key(rs: &mut RandomState, keysize: usize) -> (r: Result<
        (PaiPk, PaiSk),
        CryptoError,
    >)
        requires
            keysize <= MAX_BIT_LEN,
        ensures
            r matches Ok(k) ==> pai_key_wf(k.0, k.1) && bit_len(nat_of(k.0.n)) >= keysize - 1,
            r matches Err(e) ==> e == CryptoError::InvalidKeySize || e
                == CryptoError::GenerationFailed || e == CryptoError::InternalError,
            (keysize % 2 != 0 || keysize < PAI_MIN_KEYSIZE) <==> (r matches Err(e) && e
                == CryptoError::InvalidKeySize),
    {
        if keysize % 2 != 0 || keysize < PAI_MIN_KEYSIZE {
            return Err(CryptoError::InvalidKeySize);
        }
        let half: usize = keysize / 2;
        let p = match generate_strong_prime(rs, half) {
            Ok(v) => v,
            Err(_) => {
                return Err(CryptoError::GenerationFailed);
            },
        };
        let mut q = match generate_strong_prime(rs, half) {
            Ok(v) => v,
            Err(_) => {
                return Err(CryptoError::GenerationFailed);
            },
        };
        let mut distinct = !big_eq(&p, &q);
        let mut tries: usize = 0;
        while !distinct && tries < RETRY_CAP
            invariant
                keysize % 2 == 0,
                PAI_MIN_KEYSIZE <= keysize <= MAX_BIT_LEN,
                half == keysize / 2,
                bit_len(nat_of(q)) == half,
                mr_accepts(nat_of(q), PRIME_TEST_ROUNDS as nat),
                nat_of(q) % 2 == 1,
                distinct ==> nat_of(p) != nat_of(q),
            decreases RETRY_CAP - tries,
        {
            q = match generate_strong_prime(rs, half) {
                Ok(v) => v,
                Err(_) => {
                    return Err(CryptoError::GenerationFailed);
                },
            };
            distinct = !big_eq(&p, &q);
            tries = tries + 1;
        }
        if !distinct {
            return Err(CryptoError::GenerationFailed);
        }
        let n = big_mul(&p, &q);
        proof {
            // Each factor has keysize/2 bits, so n has at least
            // keysize - 1 bits; in particular the moduli are large.
            lemma_bit_len_bounds(nat_of(p));
            lemma_bit_len_bounds(nat_of(q));
            lemma_pow2_pos((half - 1) as nat);
            assert(nat_of(p) * nat_of(q) >= pow2((half - 1) as nat) * pow2(
                (half - 1) as nat,
            )) by (nonlinear_arith)
                requires
                    nat_of(p) >= pow2((half - 1) as nat),
                    nat_of(q) >= pow2((half - 1) as nat),
            ;
            lemma_pow2_adds((half - 1) as nat, (half - 1) as nat);
            assert((half - 1) + (half - 1) == keysize - 2);
            lemma_bit_len_lower(nat_of(n), (keysize - 2) as nat);
            lemma2_to64();
            if (keysize - 2) as nat > 2 {
                lemma_pow2_strictly_increases(2, (keysize - 2) as nat);
            }
            assert(nat_of(n) >= 4);
            // The prime factors exceed 2.
            lemma_pow2_strictly_increases(1, (half - 1) as nat);
            assert(nat_of(p) > 2 && nat_of(q) > 2);
        }
        let one = big_from_u64(1);
        let g = big_add(&n, &one);
        let pm1 = big_sub(&p, &one);
        let qm1 = big_sub(&q, &one);
        let lambda = big_mul(&pm1, &qm1);
        let mu = match big_modinv(&lambda, &n) {
            Some(v) => v,
            None => {
                return Err(CryptoError::InternalError);
            },
        };
        let n2 = big_mul(&n, &n);
        let pk = PaiPk { n, n2, g };
        let sk = PaiSk { lambda, mu };
        proof {
            assert(pai_key_from(pk, sk, nat_of(p), nat_of(q)));
            assert(exists|pv: nat, qv: nat| pai_key_from(pk, sk, pv, qv));
        }
        Ok((pk, sk))
    }

    /// A fresh instance with a `keysize`-bit key pair and a random
    /// state seeded once from the external entropy source.
    pub fn new(keysize: usize) -> (r: Result<Paillier, CryptoError>)
        requires
            keysize <= MAX_BIT_LEN,
        ensures
            r matches Ok(c) ==> pai_key_wf(c.pk, c.sk) && pai_usable(c) && bit_len(nat_of(c.pk.n))
                >= keysize - 1,
            r matches Err(e) ==> e == CryptoError::InvalidKeySize || e
                == CryptoError::GenerationFailed || e == CryptoError::InternalError,
            (keysize % 2 != 0 || keysize < PAI_MIN_KEYSIZE) <==> (r matches Err(e) && e
                == CryptoError::InvalidKeySize),
    {
        let mut rs = RandomState::from_entropy();
        match Paillier::generate_key(&mut rs, keysize) {
            Ok((pk, sk)) => {
                proof {
                    assert(nat_of(pk.n2) == nat_of(pk.n) * nat_of(pk.n));
                    assert(nat_of(pk.n2) > 0) by (nonlinear_arith)
                        requires
                            nat_of(pk.n2) == nat_of(pk.n) * nat_of(pk.n),
                            nat_of(pk.n) >= 2,
                    ;
                }
                Ok(Paillier { pk, sk, rs })
            },
            Err(e) => Err(e),
        }
    }

    /// Encrypts a message interpreted modulo `n`: draws a fresh
    /// randomizer `r` coprime to `n` and returns
    /// `(1 + m * n) * r^n mod n^2`; messages of `n` or more wrap
    /// modulo `n` by construction, a defined semantics.
    pub fn encrypt(&mut self, m: &BigUint) -> (r: Result<BigUint, CryptoError>)
        requires
            pai_usable(*old(self)),
        ensures
            final(self).pk == old(self).pk,
            final(self).sk == old(self).sk,
            r matches Ok(c) ==> nat_of(c) < nat_of(old(self).pk.n2) && (exists|rv: nat|
                pai_cipher_for(
                    nat_of(c),
                    rv,
                    nat_of(*m),
                    nat_of(old(self).pk.n),
                    nat_of(old(self).pk.n2),
                )),
            r matches Err(e) ==> e == CryptoError::GenerationFailed,
    {
        let one = big_from_u64(1);
        let mut attempt: usize = 0;
        while attempt < RETRY_CAP
            invariant
                self.pk == old(self).pk,
                self.sk == old(self).sk,
                nat_of(one) == 1,
                nat_of(self.pk.n) >= 2,
                nat_of(self.pk.n2) > 0,
            decreases RETRY_CAP - attempt,
        {
            let rv = sample_below(&mut self.rs, &self.pk.n);
            let d = big_gcd(&rv, &self.pk.n);
            if big_eq(&d, &one) {
                let rn = big_modpow(&rv, &self.pk.n, &self.pk.n2);
                let mn = big_mul(m, &self.pk.n);
                let gm = big_add(&mn, &one);
                let t = big_mul(&gm, &rn);
                let c = big_rem(&t, &self.pk.n2);
                proof {
                    assert(pai_cipher_for(
                        nat_of(c),
                        nat_of(rv),
                        nat_of(*m),
                        nat_of(self.pk.n),
                        nat_of(self.pk.n2),
                    ));
                    assert(exists|y: nat|
                        pai_cipher_for(
                            nat_of(c),
                            y,
                            nat_of(*m),
                            nat_of(self.pk.n),
                            nat_of(self.pk.n2),
                        ));
                }
                return Ok(c);
            }
            attempt = attempt + 1;
        }
        Err(CryptoError::GenerationFailed)
    }

    /// Decrypts a ciphertext: `L(c^lambda mod n^2) * mu mod n` with
    /// the exact integer division `L(u) = (u - 1) / n`.
    pub fn decrypt(&self, c: &BigUint) -> (r: BigUint)
        requires
            pai_usable(*self),
        ensures
            nat_of(r) == pai_decrypt_of(
                nat_of(*c),
                nat_of(self.sk.lambda),
                nat_of(self.sk.mu),
                nat_of(self.pk.n),
                nat_of(self.pk.n2),
            ),
    {
        let u = big_modpow(c, &self.sk.lambda, &self.pk.n2);
        let zero = big_from_u64(0);
        let l = if big_eq(&u, &zero) {
            big_from_u64(0)
        } else {
            let one = big_from_u64(1);
            let um1 = big_sub(&u, &one);
            big_div(&um1, &self.pk.n)
        };
        let t = big_mul(&l, &self.sk.mu);
        big_rem(&t, &self.pk.n)
    }

    /// Homomorphic addition: the product `c1 * c2 mod n^2` encrypts
    /// the sum of the two underlying messages modulo `n`.
    pub fn add_cipher(&self, c1: &BigUint, c2: &BigUint) -> (r: BigUint)
        requires
            pai_usable(*self),
        ensures
            nat_of(r) == (nat_of(*c1) * nat_of(*c2)) % nat_of(self.pk.n2),
    {
        let t = big_mul(c1, c2);
        big_rem(&t, &self.pk.n2)
    }

    /// Adds a known constant to a ciphertext: multiplies by the
    /// deterministic term `g^m mod n^2` without drawing fresh
    /// randomness; the constant is public, so no re-randomization is
    /// cryptographically required.
    pub fn add_const(&self, c: &BigUint, m: &BigUint) -> (r: BigUint)
        requires
            pai_usable(*self),
        ensures
            nat_of(r) == (nat_of(*c) * pow_mod(nat_of(self.pk.g), nat_of(*m), nat_of(self.pk.n2)))
                % nat_of(self.pk.n2),
    {
        let gm = big_modpow(&self.pk.g, m, &self.pk.n2);
        self.add_cipher(c, &gm)
    }

    /// Multiplies the underlying message by a known constant:
    /// `c^k mod n^2`.
    pub fn mul_const(&self, c: &BigUint, m: &BigUint) -> (r: BigUint)
        requires
            pai_usable(*self),
        ensures
            nat_of(r) == pow_mod(nat_of(*c), nat_of(*m), nat_of(self.pk.n2)),
    {
        big_modpow(c, m, &self.pk.n2)
    }
}

} // verus!
