//! Goldwasser-Micali cryptosystem: probabilistic bit-wise encryption
//! whose ciphertexts compose by multiplication into the XOR of the
//! underlying bits.

use vstd::prelude::*;
use vstd::arithmetic::power2::pow2;
use vstd::arithmetic::power2::lemma_pow2_adds;
use vstd::arithmetic::power2::lemma_pow2_pos;
use crate::arith::bit_len;
use crate::arith::gcd_nat;
use crate::arith::pow_mod;
use crate::arith::lemma_bit_len_bounds;
use crate::arith::lemma_bit_len_lower;
use crate::bigint::nat_of;
use crate::bigint::jacobi_sym;
use crate::bigint::mr_accepts;
use crate::bigint::big_from_u64;
use crate::bigint::big_mul;
use crate::bigint::big_rem;
use crate::bigint::big_modpow;
use crate::bigint::big_gcd;
use crate::bigint::big_eq;
use crate::bigint::big_jacobi;
use crate::rng::RandomState;
use crate::rng::generate_strong_prime;
use crate::rng::sample_below;
use crate::rng::PRIME_TEST_ROUNDS;
use crate::rng::MAX_BIT_LEN;
use crate::CryptoError;
use num_bigint::BigUint;

verus! {

/// Resamples of the distinctness and coprimality loops before
/// reporting generation failure.
const RETRY_CAP: usize = 64;

/// Draws of the non-residue search before reporting generation
/// failure; each draw succeeds with probability about one quarter.
const NONRESIDUE_CAP: usize = 4096;

/// Smallest accepted key size; key generation needs two strong primes
/// of at least four bits each.
pub const GM_MIN_KEYSIZE: usize = 8;

/// Private key: the two prime factors of the modulus.
pub struct GmSk {
    pub p: BigUint,
    pub q: BigUint,
}

/// Public key: the modulus `n = p * q` and a witness `x` that is a
/// quadratic non-residue modulo both factors.
pub struct GmPk {
    pub n: BigUint,
    pub x: BigUint,
}

/// A Goldwasser-Micali instance: one key pair and one owned random
/// state, created together and immutable (but for the random state)
/// afterwards.
pub struct GM {
    pub pk: GmPk,
    pub sk: GmSk,
    pub rs: RandomState,
}

/// Everything key generation establishes of a key pair: the modulus is
/// the product of two distinct odd probable primes, and the public
/// witness is a non-residue modulo each factor.
pub open spec fn gm_key_wf(pk: GmPk, sk: GmSk) -> bool {
    &&& nat_of(pk.n) == nat_of(sk.p) * nat_of(sk.q)
    &&& nat_of(pk.n) > 0
    &&& nat_of(sk.p) != nat_of(sk.q)
    &&& nat_of(sk.p) % 2 == 1
    &&& nat_of(sk.q) % 2 == 1
    &&& mr_accepts(nat_of(sk.p), PRIME_TEST_ROUNDS as nat)
    &&& mr_accepts(nat_of(sk.q), PRIME_TEST_ROUNDS as nat)
    &&& jacobi_sym(nat_of(pk.x), nat_of(sk.p)) == -1
    &&& jacobi_sym(nat_of(pk.x), nat_of(sk.q)) == -1
    &&& nat_of(pk.x) < nat_of(pk.n)
}

/// What the ciphertext operations need of an instance: a positive
/// modulus and odd factors. Instances built by key generation satisfy
/// the stronger [`gm_key_wf`].
pub open spec fn gm_usable(gm: GM) -> bool {
    &&& nat_of(gm.pk.n) > 0
    &&& nat_of(gm.sk.p) % 2 == 1
    &&& nat_of(gm.sk.q) % 2 == 1
}

/// Relation between a ciphertext value and the randomizer that
/// produced it: `c == y^2 * x^m mod n` for a unit `y` of `Z_n`.
pub open spec fn gm_cipher_for(c: nat, y: nat, x: nat, n: nat, m: bool) -> bool {
    &&& y < n
    &&& gcd_nat(y, n) == 1
    &&& c == (y * y * pow_mod(x, if m { 1nat } else { 0nat }, n)) % n
}

impl GM {
    /// Generates a key pair: two distinct strong primes of `keysize/2
    /// + 1` and `keysize/2` bits, their product `n`, and a uniformly
    /// drawn `x` whose Jacobi symbol is -1 with respect to both
    /// factors.
    pub fn generate_key(rs: &mut RandomState, keysize: usize) -> (r: Result<
        (GmPk, GmSk),
        CryptoError,
    >)
        requires
            keysize <= MAX_BIT_LEN,
        ensures
            r matches Ok(k) ==> gm_key_wf(k.0, k.1) && bit_len(nat_of(k.0.n)) >= keysize,
            r matches Err(e) ==> e == CryptoError::InvalidKeySize || e
                == CryptoError::GenerationFailed,
            (keysize % 2 != 0 || keysize < GM_MIN_KEYSIZE) <==> (r matches Err(e) && e
                == CryptoError::InvalidKeySize),
    {
        if keysize % 2 != 0 || keysize < GM_MIN_KEYSIZE {
            return Err(CryptoError::InvalidKeySize);
        }
        let p = match generate_strong_prime(rs, keysize / 2 + 1) {
            Ok(v) => v,
            Err(_) => {
                return Err(CryptoError::GenerationFailed);
            },
        };
        let mut q = match generate_strong_prime(rs, keysize / 2) {
            Ok(v) => v,
            Err(_) => {
                return Err(CryptoError::GenerationFailed);
            },
        };
        let mut distinct = !big_eq(&p, &q);
        let mut tries: usize = 0;
        while !distinct && tries < RETRY_CAP
            invariant
                keysize % 2 == 0,
                GM_MIN_KEYSIZE <= keysize <= MAX_BIT_LEN,
                bit_len(nat_of(q)) == keysize / 2,
                mr_accepts(nat_of(q), PRIME_TEST_ROUNDS as nat),
                nat_of(q) % 2 == 1,
                distinct ==> nat_of(p) != nat_of(q),
            decreases RETRY_CAP - tries,
        {
            q = match generate_strong_prime(rs, keysize / 2) {
                Ok(v) => v,
                Err(_) => {
                    return Err(CryptoError::GenerationFailed);
                },
            };
            distinct = !big_eq(&p, &q);
            tries = tries + 1;
        }
        if !distinct {
            return Err(CryptoError::GenerationFailed);
        }
        let n = big_mul(&p, &q);
        proof {
            // p and q have keysize/2 + 1 and keysize/2 bits, so n has at
            // least keysize bits.
            lemma_bit_len_bounds(nat_of(p));
            lemma_bit_len_bounds(nat_of(q));
            lemma_pow2_pos((keysize / 2) as nat);
            lemma_pow2_pos((keysize / 2 - 1) as nat);
            assert(nat_of(p) * nat_of(q) >= pow2((keysize / 2) as nat) * pow2(
                (keysize / 2 - 1) as nat,
            )) by (nonlinear_arith)
                requires
                    nat_of(p) >= pow2((keysize / 2) as nat),
                    nat_of(q) >= pow2((keysize / 2 - 1) as nat),
            ;
            lemma_pow2_adds((keysize / 2) as nat, (keysize / 2 - 1) as nat);
            assert((keysize / 2) + (keysize / 2 - 1) == keysize - 1);
            lemma_bit_len_lower(nat_of(n), (keysize - 1) as nat);
        }
        let mut attempt: usize = 0;
        while attempt < NONRESIDUE_CAP
            invariant
                keysize % 2 == 0,
                keysize >= GM_MIN_KEYSIZE,
                nat_of(n) == nat_of(p) * nat_of(q),
                nat_of(n) > 0,
                bit_len(nat_of(n)) >= keysize,
                nat_of(p) != nat_of(q),
                nat_of(p) % 2 == 1,
                nat_of(q) % 2 == 1,
                mr_accepts(nat_of(p), PRIME_TEST_ROUNDS as nat),
                mr_accepts(nat_of(q), PRIME_TEST_ROUNDS as nat),
            decreases NONRESIDUE_CAP - attempt,
        {
            let x = sample_below(rs, &n);
            let jp = big_jacobi(&x, &p);
            if jp == -1 {
                let jq = big_jacobi(&x, &q);
                if jq == -1 {
                    return Ok((GmPk { n, x }, GmSk { p, q }));
                }
            }
            attempt = attempt + 1;
        }
        Err(CryptoError::GenerationFailed)
    }

    /// A fresh instance with a `keysize`-bit key pair and a random
    /// state seeded once from the external entropy source.
    pub fn new(keysize: usize) -> (r: Result<GM, CryptoError>)
        requires
            keysize <= MAX_BIT_LEN,
        ensures
            r matches Ok(gm) ==> gm_key_wf(gm.pk, gm.sk) && gm_usable(gm) && bit_len(
                nat_of(gm.pk.n),
            ) >= keysize,
            r matches Err(e) ==> e == CryptoError::InvalidKeySize || e
                == CryptoError::GenerationFailed,
            (keysize % 2 != 0 || keysize < GM_MIN_KEYSIZE) <==> (r matches Err(e) && e
                == CryptoError::InvalidKeySize),
    {
        let mut rs = RandomState::from_entropy();
        match GM::generate_key(&mut rs, keysize) {
            Ok((pk, sk)) => Ok(GM { pk, sk, rs }),
            Err(e) => Err(e),
        }
    }

    /// Encrypts one bit: draws a fresh randomizer `y` coprime to `n`
    /// and returns `y^2 * x^m mod n`, so equal bits yield differing
    /// ciphertexts with overwhelming probability.
    pub fn encrypt(&mut self, m: bool) -> (r: Result<BigUint, CryptoError>)
        requires
            gm_usable(*old(self)),
        ensures
            final(self).pk == old(self).pk,
            final(self).sk == old(self).sk,
            r matches Ok(c) ==> nat_of(c) < nat_of(old(self).pk.n) && (exists|y: nat|
                gm_cipher_for(nat_of(c), y, nat_of(old(self).pk.x), nat_of(old(self).pk.n), m)),
            r matches Err(e) ==> e == CryptoError::GenerationFailed,
    {
        let one = big_from_u64(1);
        let mm = if m {
            big_from_u64(1)
        } else {
            big_from_u64(0)
        };
        let mut attempt: usize = 0;
        while attempt < RETRY_CAP
            invariant
                self.pk == old(self).pk,
                self.sk == old(self).sk,
                nat_of(one) == 1,
                nat_of(self.pk.n) > 0,
                nat_of(mm) == if m {
                    1nat
                } else {
                    0nat
                },
            decreases RETRY_CAP - attempt,
        {
            let y = sample_below(&mut self.rs, &self.pk.n);
            let g = big_gcd(&y, &self.pk.n);
            if big_eq(&g, &one) {
                let yy = big_mul(&y, &y);
                let xm = big_modpow(&self.pk.x, &mm, &self.pk.n);
                let t = big_mul(&yy, &xm);
                let c = big_rem(&t, &self.pk.n);
                proof {
                    assert(gm_cipher_for(
                        nat_of(c),
                        nat_of(y),
                        nat_of(self.pk.x),
                        nat_of(self.pk.n),
                        m,
                    ));
                }
                return Ok(c);
            }
            attempt = attempt + 1;
        }
        Err(CryptoError::GenerationFailed)
    }

    /// Decrypts a ciphertext: reports 1 (`true`) unless the Jacobi
    /// symbol of `c` is 1 with respect to both prime factors; for
    /// well-formed ciphertexts the two symbols agree, so checking both
    /// only guards against malformed input.
    pub fn decrypt(&self, c: &BigUint) -> (r: bool)
        requires
            gm_usable(*self),
        ensures
            r == (jacobi_sym(nat_of(*c), nat_of(self.sk.p)) != 1 && jacobi_sym(
                nat_of(*c),
                nat_of(self.sk.q),
            ) != 1),
    {
        let jp = big_jacobi(c, &self.sk.p);
        let jq = big_jacobi(c, &self.sk.q);
        jp != 1 && jq != 1
    }

    /// Homomorphic XOR: the product `c1 * c2 mod n` encrypts the XOR
    /// of the two encoded bits, by multiplicativity of quadratic
    /// residuosity.
    pub fn xor(&self, c1: &BigUint, c2: &BigUint) -> (r: BigUint)
        requires
            gm_usable(*self),
        ensures
            nat_of(r) == (nat_of(*c1) * nat_of(*c2)) % nat_of(self.pk.n),
    {
        let t = big_mul(c1, c2);
        big_rem(&t, &self.pk.n)
    }
}

} // verus!
