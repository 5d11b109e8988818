//! Randomized number-theoretic generation: uniform sampling with an
//! exact bit length, random prime generation, and strong-prime
//! generation (primes `p` where `p - 1` carries a large known factor).
//!
//! Every resampling loop is bounded: when a retry budget runs out the
//! function reports [`CryptoError::GenerationFailed`] instead of
//! looping forever.

use vstd::prelude::*;
use vstd::arithmetic::power2::pow2;
use vstd::arithmetic::power2::lemma_pow2_pos;
use vstd::arithmetic::power2::lemma_pow2_unfold;
use vstd::arithmetic::power2::lemma_pow2_adds;
use vstd::arithmetic::power2::lemma_pow2_strictly_increases;
use vstd::arithmetic::power2::lemma2_to64;
use vstd::arithmetic::div_mod::lemma_basic_div;
use vstd::arithmetic::div_mod::lemma_mod_multiples_basic;
use vstd::arithmetic::div_mod::lemma_mod_mod;
use crate::arith::bit_len;
use crate::arith::with_bit;
use crate::arith::lemma_bit_len_from_range;
use crate::arith::lemma_bit_len_bounds;
use crate::arith::lemma_bit_len_lower;
use crate::bigint::nat_of;
use crate::bigint::mr_accepts;
use crate::bigint::big_from_u64;
use crate::bigint::big_add;
use crate::bigint::big_mul;
use crate::bigint::big_bits;
use crate::bigint::big_set_bit;
use crate::bigint::big_next_prime;
use crate::bigint::big_rem_u64;
use crate::bigint::probab_prime;
use crate::CryptoError;
use num_bigint::BigUint;
use num_bigint::RandBigInt;
use rand::Rng;
use rand::SeedableRng;
use rand::rngs::StdRng;

verus! {

/// Rounds of the probabilistic primality test; 40 rounds bound the
/// false-positive probability of one strong-probable-prime trial
/// sequence at 4^-40.
pub const PRIME_TEST_ROUNDS: u32 = 40;

/// Retries of whole-sample loops before reporting generation failure.
const RETRY_CAP: usize = 64;

/// Steps of the strong-prime candidate search before a fresh retry.
const SEARCH_STEP_CAP: usize = 131072;

/// Largest accepted bit length; a machine limit on allocation, far
/// beyond any practical key size.
pub const MAX_BIT_LEN: usize = 0x7FFF_FFFF;

#[verifier::external_type_specification]
#[verifier::external_body]
pub struct ExStdRng(StdRng);

/// Pseudo-random generator state. Each cryptosystem instance owns
/// exactly one, seeds it once at construction, and every draw advances
/// it; it is never shared.
pub struct RandomState {
    rng: StdRng,
}

/// Relies on `StdRng::seed_from_u64` (rand's `SeedableRng`): builds a
/// deterministic generator from a 64-bit seed.
#[verifier::external_body]
fn rng_from_seed(seed: u64) -> StdRng {
    StdRng::seed_from_u64(seed)
}

/// Relies on `rand::thread_rng` and `Rng::gen`: one 64-bit value from
/// the operating-system-seeded thread-local generator; nothing can be
/// promised of its value.
#[verifier::external_body]
pub(crate) fn entropy_seed() -> u64 {
    rand::thread_rng().gen::<u64>()
}

/// Relies on `num_bigint::RandBigInt::gen_biguint`: `len` uniform
/// random bits, so the value is below `2^len`.
#[verifier::external_body]
fn sample_bits(rs: &mut RandomState, len: u64) -> (r: BigUint)
    requires
        len <= MAX_BIT_LEN as u64,
    ensures
        nat_of(r) < pow2(len as nat),
{
    rs.rng.gen_biguint(len)
}

/// Relies on `num_bigint::RandBigInt::gen_biguint_below`: a uniform
/// value below the bound; the wrapped call panics on a zero bound.
#[verifier::external_body]
pub(crate) fn sample_below(rs: &mut RandomState, bound: &BigUint) -> (r: BigUint)
    requires
        nat_of(*bound) > 0,
    ensures
        nat_of(r) < nat_of(*bound),
{
    rs.rng.gen_biguint_below(bound)
}

impl RandomState {
    /// A generator deterministically derived from the given seed.
    pub fn new(seed: u64) -> RandomState {
        RandomState { rng: rng_from_seed(seed) }
    }

    /// A generator seeded once from the external entropy source.
    pub fn from_entropy() -> RandomState {
        RandomState::new(entropy_seed())
    }
}

/// An integer with exactly `len` bits: the top bit is forced set, the
/// remaining `len - 1` bits are uniform.
pub fn generate_urandom(rs: &mut RandomState, len: usize) -> (r: BigUint)
    requires
        1 <= len <= MAX_BIT_LEN,
    ensures
        bit_len(nat_of(r)) == len,
        pow2((len - 1) as nat) <= nat_of(r) < pow2(len as nat),
{
    let mut a = sample_bits(rs, (len - 1) as u64);
    let ghost a0: nat = nat_of(a);
    big_set_bit(&mut a, (len - 1) as u64);
    proof {
        let k: nat = (len - 1) as nat;
        lemma_pow2_pos(k);
        lemma_basic_div(a0 as int, pow2(k) as int);
        assert(with_bit(a0, k) == a0 + pow2(k));
        lemma_pow2_unfold(len as nat);
        lemma_bit_len_from_range(nat_of(a), len as nat);
    }
    a
}

/// A random prime with exactly `len` bits: samples a `len`-bit value,
/// advances to the next prime at or above it, and accepts only if the
/// prime still has exactly `len` bits; otherwise it resamples, up to a
/// bounded number of retries.
pub fn generate_prime(rs: &mut RandomState, len: usize) -> (r: Result<BigUint, CryptoError>)
    requires
        2 <= len <= MAX_BIT_LEN,
    ensures
        r matches Ok(p) ==> bit_len(nat_of(p)) == len && mr_accepts(
            nat_of(p),
            PRIME_TEST_ROUNDS as nat,
        ) && (nat_of(p) == 2 || nat_of(p) % 2 == 1),
        r matches Err(e) ==> e == CryptoError::GenerationFailed,
{
    let mut attempts: usize = 0;
    while attempts < RETRY_CAP
        invariant
            2 <= len <= MAX_BIT_LEN,
        decreases RETRY_CAP - attempts,
    {
        let a = generate_urandom(rs, len);
        let p = if probab_prime(&a, PRIME_TEST_ROUNDS) {
            a
        } else {
            big_next_prime(&a, PRIME_TEST_ROUNDS)
        };
        if big_bits(&p) == len as u64 {
            return Ok(p);
        }
        attempts = attempts + 1;
    }
    Err(CryptoError::GenerationFailed)
}

/// Witness that a strong prime's predecessor factors as the search
/// built it: `p - 1 == (pp + k) * a` for a half-length probable prime
/// `pp` and a multiplier `a` of `len - len / 2 + 1` bits.
pub open spec fn strong_prime_cert(p: nat, len: nat, rounds: nat, pp: nat, a: nat, k: nat) -> bool {
    &&& bit_len(pp) == len / 2
    &&& mr_accepts(pp, rounds)
    &&& bit_len(a) == len - len / 2 + 1
    &&& p == (pp + k) * a + 1
}

/// Divisibility by an odd prime up to 191.
spec fn small_factor_of(v: nat) -> bool {
    v % 3 == 0 || v % 5 == 0 || v % 7 == 0 || v % 11 == 0 || v % 13 == 0 || v % 17 == 0 || v % 19
        == 0 || v % 23 == 0 || v % 29 == 0 || v % 31 == 0 || v % 37 == 0 || v % 41 == 0 || v % 43
        == 0 || v % 47 == 0 || v % 53 == 0 || v % 59 == 0 || v % 61 == 0 || v % 67 == 0 || v % 71
        == 0 || v % 73 == 0 || v % 79 == 0 || v % 83 == 0 || v % 89 == 0 || v % 97 == 0 || v % 101
        == 0 || v % 103 == 0 || v % 107 == 0 || v % 109 == 0 || v % 113 == 0 || v % 127 == 0 || v
        % 131 == 0 || v % 137 == 0 || v % 139 == 0 || v % 149 == 0 || v % 151 == 0 || v % 157 == 0
        || v % 163 == 0 || v % 167 == 0 || v % 173 == 0 || v % 179 == 0 || v % 181 == 0 || v % 191
        == 0
}

/// True when `v` is divisible by an odd prime up to 191: a cheap
/// prescreen of strong-prime candidates that saves a full primality
/// test on most composites. Callers apply it only to candidates above
/// 191, which no skipped prime can equal.
fn has_small_factor(v: &BigUint) -> (r: bool)
    ensures
        r == small_factor_of(nat_of(*v)),
{
    // Each constant is the product of the odd primes it is tested
    // against, so one long division serves a whole group.
    let r1 = big_rem_u64(v, 16294579238595022365);
    let r2 = big_rem_u64(v, 7145393598349078859);
    let r3 = big_rem_u64(v, 6408001374760705163);
    let r4 = big_rem_u64(v, 690862709424854779);
    proof {
        lemma_mod_mod(nat_of(*v) as int, 3, 5431526412865007455);
        lemma_mod_mod(nat_of(*v) as int, 5, 3258915847719004473);
        lemma_mod_mod(nat_of(*v) as int, 7, 2327797034085003195);
        lemma_mod_mod(nat_of(*v) as int, 11, 1481325385326820215);
        lemma_mod_mod(nat_of(*v) as int, 13, 1253429172199617105);
        lemma_mod_mod(nat_of(*v) as int, 17, 958504661093824845);
        lemma_mod_mod(nat_of(*v) as int, 19, 857609433610264335);
        lemma_mod_mod(nat_of(*v) as int, 23, 708459966895435755);
        lemma_mod_mod(nat_of(*v) as int, 29, 561882042710173185);
        lemma_mod_mod(nat_of(*v) as int, 31, 525631588341774915);
        lemma_mod_mod(nat_of(*v) as int, 37, 440394033475541145);
        lemma_mod_mod(nat_of(*v) as int, 41, 397428761916951765);
        lemma_mod_mod(nat_of(*v) as int, 43, 378943703223140055);
        lemma_mod_mod(nat_of(*v) as int, 47, 346693175289255795);
        lemma_mod_mod(nat_of(*v) as int, 53, 307444891294245705);
        lemma_mod_mod(nat_of(*v) as int, 59, 121108366073713201);
        lemma_mod_mod(nat_of(*v) as int, 61, 117137599972935719);
        lemma_mod_mod(nat_of(*v) as int, 67, 106647665647001177);
        lemma_mod_mod(nat_of(*v) as int, 71, 100639346455620829);
        lemma_mod_mod(nat_of(*v) as int, 73, 97882104086973683);
        lemma_mod_mod(nat_of(*v) as int, 79, 90448020232266821);
        lemma_mod_mod(nat_of(*v) as int, 83, 86089079498181673);
        lemma_mod_mod(nat_of(*v) as int, 89, 80285321329764931);
        lemma_mod_mod(nat_of(*v) as int, 97, 73663851529371947);
        lemma_mod_mod(nat_of(*v) as int, 101, 70746471270782959);
        lemma_mod_mod(nat_of(*v) as int, 103, 62213605580201021);
        lemma_mod_mod(nat_of(*v) as int, 107, 59887863315520609);
        lemma_mod_mod(nat_of(*v) as int, 109, 58789003438171607);
        lemma_mod_mod(nat_of(*v) as int, 113, 56707976767793851);
        lemma_mod_mod(nat_of(*v) as int, 127, 50456703738273269);
        lemma_mod_mod(nat_of(*v) as int, 131, 48916041028707673);
        lemma_mod_mod(nat_of(*v) as int, 137, 46773732662486899);
        lemma_mod_mod(nat_of(*v) as int, 139, 46100729314825217);
        lemma_mod_mod(nat_of(*v) as int, 149, 43006720635977887);
        lemma_mod_mod(nat_of(*v) as int, 151, 4575249731290429);
        lemma_mod_mod(nat_of(*v) as int, 157, 4400399423088247);
        lemma_mod_mod(nat_of(*v) as int, 163, 4238421530213833);
        lemma_mod_mod(nat_of(*v) as int, 167, 4136902451645837);
        lemma_mod_mod(nat_of(*v) as int, 173, 3993426066039623);
        lemma_mod_mod(nat_of(*v) as int, 179, 3859568209077401);
        lemma_mod_mod(nat_of(*v) as int, 181, 3816921046546159);
        lemma_mod_mod(nat_of(*v) as int, 191, 3617082248297669);
    }
    r1 % 3 == 0 || r1 % 5 == 0 || r1 % 7 == 0 || r1 % 11 == 0 || r1 % 13 == 0 || r1 % 17 == 0
        || r1 % 19 == 0 || r1 % 23 == 0 || r1 % 29 == 0 || r1 % 31 == 0 || r1 % 37 == 0 || r1 % 41
        == 0 || r1 % 43 == 0 || r1 % 47 == 0 || r1 % 53 == 0 || r2 % 59 == 0 || r2 % 61 == 0 || r2
        % 67 == 0 || r2 % 71 == 0 || r2 % 73 == 0 || r2 % 79 == 0 || r2 % 83 == 0 || r2 % 89 == 0
        || r2 % 97 == 0 || r2 % 101 == 0 || r3 % 103 == 0 || r3 % 107 == 0 || r3 % 109 == 0 || r3
        % 113 == 0 || r3 % 127 == 0 || r3 % 131 == 0 || r3 % 137 == 0 || r3 % 139 == 0 || r3 % 149
        == 0 || r4 % 151 == 0 || r4 % 157 == 0 || r4 % 163 == 0 || r4 % 167 == 0 || r4 % 173 == 0
        || r4 % 179 == 0 || r4 % 181 == 0 || r4 % 191 == 0
}

/// The hardening law of strong-prime generation, over the witness
/// that [`generate_strong_prime`] returns: the predecessor of the
/// generated prime is divisible by the multiplier `a`, a known factor
/// of at least `len - len / 2` bits' worth of magnitude, defeating
/// p-1-style factorization attacks that rely on `p - 1` having only
/// small factors.
pub proof fn lemma_strong_prime_predecessor(p: nat, len: nat, pp: nat, a: nat, k: nat)
    requires
        len >= 4,
        bit_len(a) == len - len / 2 + 1,
        p == (pp + k) * a + 1,
    ensures
        a >= 1,
        ((p - 1) as int) % (a as int) == 0,
        pow2((len - len / 2) as nat) <= a,
{
    lemma_bit_len_bounds(a);
    lemma_pow2_pos((len - len / 2) as nat);
    assert(a >= 1);
    lemma_mod_multiples_basic((pp + k) as int, a as int);
}

/// A prime `p` with exactly `len` bits such that `p - 1` has a large
/// known factor, hardening against p-1-style factoring: it builds
/// candidates `pp * a + 1, pp * a + 1 + a, ...` over a half-length
/// prime `pp` and a random multiplier `a`, takes the first candidate
/// passing the primality test, and retries the whole construction with
/// fresh randomness when that candidate's bit length is not `len`.
pub fn generate_strong_prime(rs: &mut RandomState, len: usize) -> (r: Result<
    BigUint,
    CryptoError,
>)
    requires
        4 <= len <= MAX_BIT_LEN,
    ensures
        r matches Ok(p) ==> bit_len(nat_of(p)) == len && mr_accepts(
            nat_of(p),
            PRIME_TEST_ROUNDS as nat,
        ) && nat_of(p) % 2 == 1 && (exists|pp: nat, a: nat, k: nat|
            strong_prime_cert(nat_of(p), len as nat, PRIME_TEST_ROUNDS as nat, pp, a, k)),
        r matches Err(e) ==> e == CryptoError::GenerationFailed,
{
    let half: usize = len / 2;
    let mlen: usize = len - half + 1;
    let mut retry: usize = 0;
    while retry < RETRY_CAP
        invariant
            4 <= len <= MAX_BIT_LEN,
            half == len / 2,
            mlen == len - half + 1,
        decreases RETRY_CAP - retry,
    {
        let pp = match generate_prime(rs, half) {
            Ok(v) => v,
            Err(e) => {
                return Err(e);
            },
        };
        let a = generate_urandom(rs, mlen);
        let one = big_from_u64(1);
        let mut p = big_mul(&pp, &a);
        p = big_add(&p, &one);
        proof {
            // pp * a has at least len - 1 bits, so every candidate is large.
            lemma_bit_len_bounds(nat_of(pp));
            lemma_pow2_pos((half - 1) as nat);
            assert(nat_of(pp) >= 1);
            assert(pow2((half - 1) as nat) <= nat_of(pp));
            assert(nat_of(pp) * nat_of(a) >= pow2((half - 1) as nat) * pow2(
                (mlen - 1) as nat,
            )) by (nonlinear_arith)
                requires
                    nat_of(pp) >= pow2((half - 1) as nat),
                    nat_of(a) >= pow2((mlen - 1) as nat),
            ;
            lemma_pow2_adds((half - 1) as nat, (mlen - 1) as nat);
            assert((half - 1) + (mlen - 1) == len - 1);
            assert(nat_of(pp) * nat_of(a) >= pow2((len - 1) as nat));
        }
        let mut step: usize = 0;
        while step < SEARCH_STEP_CAP
            invariant
                4 <= len <= MAX_BIT_LEN,
                bit_len(nat_of(pp)) == len / 2,
                mr_accepts(nat_of(pp), PRIME_TEST_ROUNDS as nat),
                bit_len(nat_of(a)) == len - len / 2 + 1,
                nat_of(p) == (nat_of(pp) + step) * nat_of(a) + 1,
                nat_of(p) > pow2((len - 1) as nat),
            decreases SEARCH_STEP_CAP - step,
        {
            // Candidates exceed 2^(len - 1) and only grow, so one with
            // more than len bits will never shrink back: the whole
            // construction is discarded at once, exactly as it would be
            // after a primality test had accepted such a candidate.
            if big_bits(&p) != len as u64 {
                break ;
            }
            // Prescreen candidates by trial division; every candidate
            // exceeds 256 when len >= 9, so no filtered prime is lost.
            let skip = len >= 9 && has_small_factor(&p);
            if !skip && probab_prime(&p, PRIME_TEST_ROUNDS) {
                proof {
                    lemma2_to64();
                    if (len - 1) as nat >= 4 {
                        lemma_pow2_strictly_increases(3, (len - 1) as nat);
                    }
                    assert(nat_of(p) > 8);
                    assert(strong_prime_cert(
                        nat_of(p),
                        len as nat,
                        PRIME_TEST_ROUNDS as nat,
                        nat_of(pp),
                        nat_of(a),
                        step as nat,
                    ));
                    assert(exists|pp: nat, a: nat, k: nat|
                        strong_prime_cert(nat_of(p), len as nat, PRIME_TEST_ROUNDS as nat, pp, a, k));
                }
                return Ok(p);
            }
            p = big_add(&p, &a);
            proof {
                assert((nat_of(pp) + step) * nat_of(a) + nat_of(a) == (nat_of(pp) + step + 1)
                    * nat_of(a)) by (nonlinear_arith);
                assert(nat_of(p) == (nat_of(pp) + step + 1) * nat_of(a) + 1);
            }
            step = step + 1;
        }
        retry = retry + 1;
    }
    Err(CryptoError::GenerationFailed)
}

} // verus!
