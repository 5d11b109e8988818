//! Partially homomorphic public-key cryptosystems: Goldwasser-Micali
//! (bit-wise, XOR-homomorphic) and Paillier (additively homomorphic),
//! together with the randomized number-theoretic key generation they
//! share: uniform sampling with an exact bit length, random prime
//! generation, and strong-prime generation.
//!
//! Arbitrary-precision arithmetic is delegated to `num-bigint` and its
//! companion crates through a small trusted layer in `bigint`; every
//! algorithm above that layer is verified.

use vstd::prelude::*;

pub mod arith;
pub mod bigint;
pub mod rng;
pub mod gm;
pub mod paillier;

verus! {

/// Errors reported by key generation and encryption.
#[derive(Clone, Copy, Debug, PartialEq, Eq, Structural)]
pub enum CryptoError {
    /// The requested key size is odd or too small.
    InvalidKeySize,
    /// A bounded resampling loop exhausted its retry budget.
    GenerationFailed,
    /// A key-generation invariant failed to hold; fatal, not an input error.
    InternalError,
}

} // verus!
