//! Trusted boundary to the arbitrary-precision integer engine.
//!
//! Every function here is a thin wrapper around `num-bigint`,
//! `num-integer`, `num-modular` or `num-prime`; its contract states,
//! over the abstract value [`nat_of`], what the wrapped call computes.
//! Nothing above this module calls the outside crates directly.

use vstd::prelude::*;
use crate::arith::bit_len;
use crate::arith::gcd_nat;
use crate::arith::pow_mod;
use crate::arith::with_bit;
use num_bigint::BigUint;
use num_integer::Integer;
use num_modular::ModularSymbols;

verus! {

#[verifier::external_type_specification]
#[verifier::external_body]
pub struct ExBigUint(BigUint);

/// The natural number that a `BigUint` holds. `num-bigint` keeps the
/// representation canonical, so equal values are structurally equal.
pub uninterp spec fn nat_of(x: BigUint) -> nat;

/// The Jacobi symbol of `a` over the odd modulus `n`, as
/// `num-modular`'s binary algorithm computes it; for an odd prime `n`
/// it is the Legendre symbol.
pub uninterp spec fn jacobi_sym(a: nat, n: nat) -> int;

/// The verdict of `num-prime`'s primality test on `n` when configured
/// with `rounds` strong-probable-prime trials over the first `rounds`
/// prime bases and no randomized trials; with that configuration the
/// verdict depends on `n` and `rounds` alone.
pub uninterp spec fn mr_accepts(n: nat, rounds: nat) -> bool;

/// The prime that `num-prime`'s `next_prime` finds strictly above `n`
/// when testing candidates with the deterministic configuration of
/// [`mr_accepts`] at the same `rounds`.
pub uninterp spec fn next_prime_above(n: nat, rounds: nat) -> nat;

/// Relies on `BigUint::from::<u64>`: exact conversion.
#[verifier::external_body]
pub(crate) fn big_from_u64(v: u64) -> (r: BigUint)
    ensures
        nat_of(r) == v as nat,
{
    BigUint::from(v)
}

/// Relies on `BigUint::eq`: canonical representations are structurally
/// equal exactly when the values are equal.
#[verifier::external_body]
pub(crate) fn big_eq(a: &BigUint, b: &BigUint) -> (r: bool)
    ensures
        r == (nat_of(*a) == nat_of(*b)),
{
    a == b
}

/// Relies on `BigUint::add`: exact sum.
#[verifier::external_body]
pub(crate) fn big_add(a: &BigUint, b: &BigUint) -> (r: BigUint)
    ensures
        nat_of(r) == nat_of(*a) + nat_of(*b),
{
    a + b
}

/// Relies on `BigUint::sub`: exact difference; the wrapped operation
/// panics on underflow, so the smaller operand must be on the right.
#[verifier::external_body]
pub(crate) fn big_sub(a: &BigUint, b: &BigUint) -> (r: BigUint)
    requires
        nat_of(*b) <= nat_of(*a),
    ensures
        nat_of(r) == nat_of(*a) - nat_of(*b),
{
    a - b
}

/// Relies on `BigUint::mul`: exact product.
#[verifier::external_body]
pub(crate) fn big_mul(a: &BigUint, b: &BigUint) -> (r: BigUint)
    ensures
        nat_of(r) == nat_of(*a) * nat_of(*b),
{
    a * b
}

/// Relies on `BigUint::div`: floor division; the wrapped operation
/// panics on a zero divisor.
#[verifier::external_body]
pub(crate) fn big_div(a: &BigUint, b: &BigUint) -> (r: BigUint)
    requires
        nat_of(*b) > 0,
    ensures
        nat_of(r) == nat_of(*a) / nat_of(*b),
{
    a / b
}

/// Relies on `BigUint::rem`: the non-negative canonical residue; the
/// wrapped operation panics on a zero divisor.
#[verifier::external_body]
pub(crate) fn big_rem(a: &BigUint, b: &BigUint) -> (r: BigUint)
    requires
        nat_of(*b) > 0,
    ensures
        nat_of(r) == nat_of(*a) % nat_of(*b),
{
    a % b
}

/// Relies on `BigUint::modpow`: modular exponentiation; the wrapped
/// operation panics on a zero modulus.
#[verifier::external_body]
pub(crate) fn big_modpow(base: &BigUint, exponent: &BigUint, modulus: &BigUint) -> (r: BigUint)
    requires
        nat_of(*modulus) > 0,
    ensures
        nat_of(r) == pow_mod(nat_of(*base), nat_of(*exponent), nat_of(*modulus)),
{
    base.modpow(exponent, modulus)
}

/// Relies on `BigUint::rem`: the remainder of division by a small
/// modulus, which fits back into a machine word.
#[verifier::external_body]
pub(crate) fn big_rem_u64(a: &BigUint, d: u64) -> (r: u64)
    requires
        d > 0,
    ensures
        r as nat == nat_of(*a) % (d as nat),
{
    let m = a % BigUint::from(d);
    m.to_u64_digits().first().copied().unwrap_or(0)
}

/// Relies on `num_integer::Integer::gcd` for `BigUint`: Euclid's
/// greatest common divisor, with `gcd(a, 0) == a`.
#[verifier::external_body]
pub(crate) fn big_gcd(a: &BigUint, b: &BigUint) -> (r: BigUint)
    ensures
        nat_of(r) == gcd_nat(nat_of(*a), nat_of(*b)),
{
    a.gcd(b)
}

/// Relies on `BigUint::modinv`: the modular inverse in `[0, modulus)`
/// exists exactly when the operand and the modulus are coprime; the
/// wrapped operation panics on a zero modulus.
#[verifier::external_body]
pub(crate) fn big_modinv(a: &BigUint, modulus: &BigUint) -> (r: Option<BigUint>)
    requires
        nat_of(*modulus) > 0,
    ensures
        r is Some <==> gcd_nat(nat_of(*a), nat_of(*modulus)) == 1,
        r matches Some(i) ==> nat_of(i) < nat_of(*modulus) && (nat_of(i) * nat_of(*a)) % nat_of(
            *modulus,
        ) == 1nat % nat_of(*modulus),
{
    a.modinv(modulus)
}

/// Relies on `BigUint::bits`: the number of binary digits, 0 for 0.
#[verifier::external_body]
pub(crate) fn big_bits(a: &BigUint) -> (r: u64)
    ensures
        r == bit_len(nat_of(*a)),
{
    a.bits()
}

/// Relies on `BigUint::set_bit`: forces one binary digit to 1.
#[verifier::external_body]
pub(crate) fn big_set_bit(a: &mut BigUint, k: u64)
    requires
        k <= 0xFFFF_FFFF,
    ensures
        nat_of(*final(a)) == with_bit(nat_of(*old(a)), k as nat),
{
    a.set_bit(k, true)
}

/// Relies on `num_modular::ModularSymbols::jacobi` for `BigUint`: the
/// Jacobi symbol, defined (and panic-free) for an odd modulus; the
/// result is one of -1, 0, 1.
#[verifier::external_body]
pub(crate) fn big_jacobi(a: &BigUint, n: &BigUint) -> (r: i8)
    requires
        nat_of(*n) % 2 == 1,
    ensures
        r as int == jacobi_sym(nat_of(*a), nat_of(*n)),
        -1 <= r as int <= 1,
{
    a.jacobi(n)
}

/// Relies on `num_prime::nt_funcs::is_prime` with a deterministic
/// configuration: `rounds` strong-probable-prime trials over the first
/// `rounds` prime bases, no randomized trials and no Lucas test. The
/// test is exact below 2^64; any accepted value other than 2 is odd
/// and at least 2, since even and trivial inputs are rejected outright.
#[verifier::external_body]
pub fn probab_prime(a: &BigUint, rounds: u32) -> (r: bool)
    ensures
        r == mr_accepts(nat_of(*a), rounds as nat),
        r ==> nat_of(*a) >= 2,
        r ==> nat_of(*a) == 2 || nat_of(*a) % 2 == 1,
{
    let mut cfg = num_prime::PrimalityTestConfig::default();
    cfg.sprp_trials = rounds as usize;
    cfg.sprp_random_trials = 0;
    cfg.slprp_test = false;
    cfg.eslprp_test = false;
    num_prime::nt_funcs::is_prime(a, Some(cfg)).probably()
}

/// Relies on `num_prime::nt_funcs::next_prime` with the deterministic
/// configuration of [`probab_prime`]: it returns the first candidate
/// strictly above the argument that the same test accepts, so the
/// result is accepted by [`mr_accepts`] at the same `rounds`; big
/// integer addition cannot overflow, so a result always exists.
#[verifier::external_body]
pub(crate) fn big_next_prime(a: &BigUint, rounds: u32) -> (r: BigUint)
    ensures
        nat_of(r) == next_prime_above(nat_of(*a), rounds as nat),
        nat_of(r) > nat_of(*a),
        mr_accepts(nat_of(r), rounds as nat),
        nat_of(r) == 2 || nat_of(r) % 2 == 1,
{
    let mut cfg = num_prime::PrimalityTestConfig::default();
    cfg.sprp_trials = rounds as usize;
    cfg.sprp_random_trials = 0;
    cfg.slprp_test = false;
    cfg.eslprp_test = false;
    num_prime::nt_funcs::next_prime(a, Some(cfg)).expect("big integer addition cannot overflow")
}

} // verus!
