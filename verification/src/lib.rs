//! A pairing-based polynomial commitment scheme with batched, multi-point,
//! multi-polynomial opening proofs: given commitments to several polynomials,
//! one short proof and a single pairing check certify that all of them take
//! claimed values at a shared set of evaluation points.
//!
//! The scheme comes in three flavours sharing the same algebra: no
//! precomputation ([`method1::M1NoPrecomp`]), generic per-point-set
//! precomputation ([`precompute::M1Precomp`]) and a coset/FFT-optimized
//! variant for point sets that are cosets of a power-of-two evaluation
//! domain ([`cyclic_precomp::M1CyclPrecomp`]).
//!
//! Field and curve arithmetic, pairings, FFT domains and the Fiat-Shamir
//! transcript are supplied by outside crates; every such call goes through a
//! small trusted wrapper whose contract names its result, and all protocol
//! logic above those wrappers is verified.
use vstd::prelude::*;

pub mod arith;
pub mod cyclic_precomp;
pub mod domain;
pub mod lagrange;
pub mod method1;
pub mod msm;
pub mod poly;
pub mod precompute;
pub mod transcript;

verus! {

/// Every caller-facing failure of the library.
///
/// `verify` never uses an error to mean "the proof is invalid": that is its
/// `Ok(false)` result, distinct from a malformed-input error.
#[derive(Clone, Copy, Debug, PartialEq, Eq, Structural)]
pub enum Error {
    /// A requested domain or table could not be built: the SRS is too small
    /// for the requested sizes, or a domain parameter is not a power of two.
    /// Carries the offending size.
    ConstructionError { size: usize },
    /// Lengths of evals/polys/points/commits are inconsistent with each
    /// other, with the point set, or with the SRS capacity.
    SizeMismatch,
    /// No polynomials or no points were supplied.
    EmptyInput,
    /// An unknown point-set index was used.
    IndexOutOfRange { index: usize },
    /// An algebraically impossible state was reached (a divisor or a
    /// Lagrange weight with no inverse); it signals malformed internal data
    /// such as a point set with repeated points.
    InvariantViolation,
}

} // verus!
