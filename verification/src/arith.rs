//! Mathematical models shared by the contracts: binary length, Euclid's
//! gcd, modular exponentiation, and setting a binary digit, together
//! with the lemmas relating binary length to powers of two.

use vstd::prelude::*;
use vstd::arithmetic::power::pow;
use vstd::arithmetic::power2::pow2;
use vstd::arithmetic::power2::lemma_pow2_unfold;
use vstd::arithmetic::power2::lemma_pow2_pos;
use vstd::arithmetic::power2::lemma_pow2_strictly_increases;
use vstd::arithmetic::power2::lemma2_to64;

verus! {

/// Number of binary digits of `n`; 0 for 0.
pub open spec fn bit_len(n: nat) -> nat
    decreases n,
{
    if n == 0 {
        0
    } else {
        (1 + bit_len(n / 2)) as nat
    }
}

/// Euclid's greatest common divisor; `gcd_nat(a, 0) == a`.
pub open spec fn gcd_nat(a: nat, b: nat) -> nat
    decreases b,
{
    if b == 0 {
        a
    } else {
        gcd_nat(b, a % b)
    }
}

/// `b^e mod m` as a mathematical value.
pub open spec fn pow_mod(b: nat, e: nat, m: nat) -> nat
    recommends
        m > 0,
{
    (pow(b as int, e) % (m as int)) as nat
}

/// Value of `n` with binary digit `k` forced to 1.
pub open spec fn with_bit(n: nat, k: nat) -> nat {
    if (n / pow2(k)) % 2 == 1 {
        n
    } else {
        n + pow2(k)
    }
}

/// A number lying between consecutive powers of two has that binary length.
pub proof fn lemma_bit_len_from_range(v: nat, len: nat)
    requires
        len >= 1,
        pow2((len - 1) as nat) <= v,
        v < pow2(len),
    ensures
        bit_len(v) == len,
    decreases len,
{
    if len == 1 {
        lemma2_to64();
        assert(v == 1);
        assert(bit_len(1) == 1 + bit_len(0));
    } else {
        lemma_pow2_unfold(len);
        lemma_pow2_unfold((len - 1) as nat);
        lemma_pow2_pos((len - 2) as nat);
        assert(pow2((len - 1) as nat) == 2 * pow2((len - 2) as nat));
        assert(pow2(len) == 2 * pow2((len - 1) as nat));
        assert(v >= 2 * pow2((len - 2) as nat));
        assert(v / 2 >= pow2((len - 2) as nat));
        assert(v / 2 < pow2((len - 1) as nat));
        lemma_bit_len_from_range(v / 2, (len - 1) as nat);
        assert(v != 0);
        assert(bit_len(v) == 1 + bit_len(v / 2));
    }
}

/// Every number lies between the powers of two given by its binary length.
pub proof fn lemma_bit_len_bounds(v: nat)
    ensures
        v < pow2(bit_len(v)),
        v >= 1 ==> pow2((bit_len(v) - 1) as nat) <= v,
    decreases v,
{
    if v == 0 {
        lemma2_to64();
    } else if v == 1 {
        lemma2_to64();
        assert(bit_len(1) == 1 + bit_len(0));
    } else {
        lemma_bit_len_bounds(v / 2);
        assert(bit_len(v) == 1 + bit_len(v / 2));
        let bl: nat = bit_len(v / 2);
        assert(v / 2 >= 1);
        lemma_pow2_unfold((bl + 1) as nat);
        lemma_pow2_unfold(bl);
        assert(v < 2 * (v / 2) + 2);
        assert(v >= 2 * (v / 2));
    }
}

/// A number at least `2^m` has more than `m` binary digits.
pub proof fn lemma_bit_len_lower(v: nat, m: nat)
    requires
        pow2(m) <= v,
    ensures
        bit_len(v) >= m + 1,
{
    lemma_pow2_pos(m);
    lemma_bit_len_bounds(v);
    if bit_len(v) < m + 1 {
        lemma_pow2_strictly_increases(bit_len(v), m + 1);
        if bit_len(v) < m {
            lemma_pow2_strictly_increases(bit_len(v), m);
        }
        assert(pow2(bit_len(v)) <= pow2(m));
        assert(v < pow2(m));
    }
}

} // verus!
