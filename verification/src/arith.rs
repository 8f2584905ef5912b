//! Trusted layer over the scalar field and the two curve groups of
//! BLS12-381.
//!
//! The outside field and curve types are generic structs whose declarations
//! Verus refuses, so each is held in a private field of an opaque struct of
//! this crate: [`Scalar`] a scalar field element, [`G1`] and [`G2`] points
//! of the two groups, kept in canonical affine form so that equal values
//! have equal representations. Each outside operation gets an uninterpreted
//! name for its result, and every wrapper's contract ties the value it
//! returns to that name; all protocol reasoning above this file is in terms
//! of those names.
use vstd::prelude::*;

use ark_bls12_381::{Bls12_381, Fr, G1Affine, G2Affine};
use ark_ec::pairing::Pairing;
use ark_ec::{AffineRepr, CurveGroup, VariableBaseMSM};
use ark_ff::Field;
use ark_serialize::CanonicalSerialize;
use ark_poly::EvaluationDomain;
use ark_std::UniformRand;

verus! {

/// An element of the scalar field of BLS12-381 (one canonical
/// representation per value).
#[verifier::external_body]
pub struct Scalar {
    inner: Fr,
}

impl Clone for Scalar {
    /// Relies on `Fr` being `Copy`: the clone is the same value.
    #[verifier::external_body]
    fn clone(&self) -> (r: Self)
        ensures
            r == *self,
    {
        Scalar { inner: self.inner }
    }
}

/// A point of the group G1, in canonical affine form.
#[verifier::external_body]
pub struct G1 {
    inner: G1Affine,
}

impl Clone for G1 {
    /// Relies on `G1Affine` being `Copy`: the clone is the same value.
    #[verifier::external_body]
    fn clone(&self) -> (r: Self)
        ensures
            r == *self,
    {
        G1 { inner: self.inner }
    }
}

/// A point of the group G2, in canonical affine form.
#[verifier::external_body]
pub struct G2 {
    inner: G2Affine,
}

impl Clone for G2 {
    /// Relies on `G2Affine` being `Copy`: the clone is the same value.
    #[verifier::external_body]
    fn clone(&self) -> (r: Self)
        ensures
            r == *self,
    {
        G2 { inner: self.inner }
    }
}

#[verifier::external_type_specification]
#[verifier::external_body]
pub struct ExStdRng(ark_std::rand::rngs::StdRng);

pub uninterp spec fn fr_add_of(a: Scalar, b: Scalar) -> Scalar;

pub uninterp spec fn fr_sub_of(a: Scalar, b: Scalar) -> Scalar;

pub uninterp spec fn fr_mul_of(a: Scalar, b: Scalar) -> Scalar;

pub uninterp spec fn fr_inv_of(a: Scalar) -> Scalar;

pub uninterp spec fn fr_of_u64(n: u64) -> Scalar;

pub uninterp spec fn fr_bytes_of(a: Scalar) -> Seq<u8>;

pub uninterp spec fn fr_of_be_bytes(b: Seq<u8>) -> Scalar;

/// Relies on field addition of `ark_bls12_381::Fr`: a function of its two
/// arguments alone, on canonical representations.
#[verifier::external_body]
pub fn fr_add(a: Scalar, b: Scalar) -> (r: Scalar)
    ensures
        r == fr_add_of(a, b),
{
    Scalar { inner: a.inner + b.inner }
}

/// Relies on field subtraction of `ark_bls12_381::Fr`.
#[verifier::external_body]
pub fn fr_sub(a: Scalar, b: Scalar) -> (r: Scalar)
    ensures
        r == fr_sub_of(a, b),
{
    Scalar { inner: a.inner - b.inner }
}

/// Relies on field multiplication of `ark_bls12_381::Fr`.
#[verifier::external_body]
pub fn fr_mul(a: Scalar, b: Scalar) -> (r: Scalar)
    ensures
        r == fr_mul_of(a, b),
{
    Scalar { inner: a.inner * b.inner }
}

/// Relies on `ark_ff::Field::inverse`: it returns `None` exactly on the
/// zero element, and field elements have one canonical representation, so
/// value equality is representation equality.
#[verifier::external_body]
pub fn fr_inverse(a: Scalar) -> (r: Option<Scalar>)
    ensures
        r matches Some(v) ==> v == fr_inv_of(a),
        r is Some <==> a != fr_of_u64(0),
{
    a.inner.inverse().map(|v| Scalar { inner: v })
}

/// Relies on `Fr::from(u64)`, the canonical embedding of small integers
/// into the field.
#[verifier::external_body]
pub fn fr_from_u64(n: u64) -> (r: Scalar)
    ensures
        r == fr_of_u64(n),
{
    Scalar { inner: Fr::from(n) }
}

/// Relies on `ark_serialize::CanonicalSerialize::serialize_compressed` for
/// `Fr`: a fixed-width (32-byte) canonical encoding, a function of the
/// value alone. Writing into a `Vec` cannot fail.
#[verifier::external_body]
pub fn fr_to_bytes(a: Scalar) -> (r: Vec<u8>)
    ensures
        r@ == fr_bytes_of(a),
        r@.len() == 32,
{
    let mut buf = Vec::new();
    a.inner.serialize_compressed(&mut buf).unwrap();
    buf
}

/// Relies on `ark_ff::PrimeField::from_be_bytes_mod_order`: reduction of a
/// big-endian byte string modulo the field order, a function of the bytes
/// alone.
#[verifier::external_body]
pub fn fr_from_be_bytes(b: &Vec<u8>) -> (r: Scalar)
    ensures
        r == fr_of_be_bytes(b@),
{
    Scalar { inner: <Fr as ark_ff::PrimeField>::from_be_bytes_mod_order(b.as_slice()) }
}

/// Relies on `PartialEq` for `Fr`: field elements have one canonical
/// representation, so representation equality is value equality.
#[verifier::external_body]
pub fn fr_eq(a: &Scalar, b: &Scalar) -> (r: bool)
    ensures
        r <==> *a == *b,
{
    a.inner == b.inner
}

/// Relies on `ark_std::UniformRand::rand` for `Fr`. Nothing is promised of
/// a random value.
#[verifier::external_body]
pub fn fr_rand(rng: &mut ark_std::rand::rngs::StdRng) -> Scalar {
    Scalar { inner: Fr::rand(rng) }
}

pub uninterp spec fn g1_mul_of(p: G1, s: Scalar) -> G1;

pub uninterp spec fn g1_add_of(a: G1, b: G1) -> G1;

pub uninterp spec fn g1_zero_of(u: ()) -> G1;

/// Relies on scalar multiplication of a G1 point, canonicalized by
/// `ark_ec::CurveGroup::into_affine`.
#[verifier::external_body]
pub fn g1_mul(p: G1, s: Scalar) -> (r: G1)
    ensures
        r == g1_mul_of(p, s),
{
    G1 { inner: (p.inner * s.inner).into_affine() }
}

/// Relies on group addition of G1 points, canonicalized by
/// `ark_ec::CurveGroup::into_affine`.
#[verifier::external_body]
pub fn g1_add(a: G1, b: G1) -> (r: G1)
    ensures
        r == g1_add_of(a, b),
{
    G1 { inner: (a.inner.into_group() + b.inner).into_affine() }
}

/// Relies on `ark_ec::AffineRepr::zero` for G1, the group identity.
#[verifier::external_body]
pub fn g1_zero() -> (r: G1)
    ensures
        r == g1_zero_of(()),
{
    G1 { inner: G1Affine::zero() }
}

/// Relies on `ark_std::UniformRand::rand` for `G1Projective`,
/// canonicalized to affine form.
#[verifier::external_body]
pub fn g1_rand(rng: &mut ark_std::rand::rngs::StdRng) -> G1 {
    G1 { inner: ark_bls12_381::G1Projective::rand(rng).into_affine() }
}

pub uninterp spec fn g1_bytes_of(a: G1) -> Seq<u8>;

/// Relies on `PartialEq` for `G1Affine`: affine coordinates (with the
/// point-at-infinity flag) are canonical, so representation equality is
/// value equality.
#[verifier::external_body]
pub fn g1_eq(a: &G1, b: &G1) -> (r: bool)
    ensures
        r <==> *a == *b,
{
    a.inner == b.inner
}

/// Relies on `ark_serialize::CanonicalSerialize::serialize_compressed` for
/// `G1Affine`: a fixed-width (48-byte) canonical encoding, a function of
/// the point alone. Writing into a `Vec` cannot fail.
#[verifier::external_body]
pub fn g1_to_bytes(a: &G1) -> (r: Vec<u8>)
    ensures
        r@ == g1_bytes_of(*a),
        r@.len() == 48,
{
    let mut buf = Vec::new();
    a.inner.serialize_compressed(&mut buf).unwrap();
    buf
}

pub uninterp spec fn g2_mul_of(p: G2, s: Scalar) -> G2;

pub uninterp spec fn g2_add_of(a: G2, b: G2) -> G2;

pub uninterp spec fn g2_zero_of(u: ()) -> G2;

/// Relies on scalar multiplication of a G2 point, canonicalized by
/// `ark_ec::CurveGroup::into_affine`.
#[verifier::external_body]
pub fn g2_mul(p: G2, s: Scalar) -> (r: G2)
    ensures
        r == g2_mul_of(p, s),
{
    G2 { inner: (p.inner * s.inner).into_affine() }
}

/// Relies on group addition of G2 points, canonicalized by
/// `ark_ec::CurveGroup::into_affine`.
#[verifier::external_body]
pub fn g2_add(a: G2, b: G2) -> (r: G2)
    ensures
        r == g2_add_of(a, b),
{
    G2 { inner: (a.inner.into_group() + b.inner).into_affine() }
}

/// Relies on `ark_ec::AffineRepr::zero` for G2, the group identity.
#[verifier::external_body]
pub fn g2_zero() -> (r: G2)
    ensures
        r == g2_zero_of(()),
{
    G2 { inner: G2Affine::zero() }
}

/// Relies on `ark_std::UniformRand::rand` for `G2Projective`,
/// canonicalized to affine form.
#[verifier::external_body]
pub fn g2_rand(rng: &mut ark_std::rand::rngs::StdRng) -> G2 {
    G2 { inner: ark_bls12_381::G2Projective::rand(rng).into_affine() }
}

/// Relies on `ark_ec::VariableBaseMSM::msm` for G1: it computes the
/// scalar-weighted sum of the bases -- the same point as the fold of
/// additions and scalar multiplications in `spec_msm_g1` -- returns `Err`
/// only on unequal lengths, and the result is canonicalized by
/// `into_affine`.
#[verifier::external_body]
pub(crate) fn msm_g1_fast(bases: &Vec<G1>, scalars: &Vec<Scalar>) -> (r: G1)
    requires
        bases@.len() == scalars@.len(),
    ensures
        r == crate::msm::spec_msm_g1(bases@, scalars@),
{
    let b: Vec<G1Affine> = bases.iter().map(|g| g.inner).collect();
    let s: Vec<Fr> = scalars.iter().map(|x| x.inner).collect();
    G1 { inner: ark_bls12_381::G1Projective::msm(&b, &s).unwrap().into_affine() }
}

/// Relies on `ark_ec::VariableBaseMSM::msm` for G2, as for G1.
#[verifier::external_body]
pub(crate) fn msm_g2_fast(bases: &Vec<G2>, scalars: &Vec<Scalar>) -> (r: G2)
    requires
        bases@.len() == scalars@.len(),
    ensures
        r == crate::msm::spec_msm_g2(bases@, scalars@),
{
    let b: Vec<G2Affine> = bases.iter().map(|g| g.inner).collect();
    let s: Vec<Fr> = scalars.iter().map(|x| x.inner).collect();
    G2 { inner: ark_bls12_381::G2Projective::msm(&b, &s).unwrap().into_affine() }
}

/// A power-of-two-sized FFT evaluation domain over the scalar field,
/// possibly shifted to a coset; opaque, with its size, generator, elements
/// and transforms given names below.
#[verifier::external_body]
pub struct Domain {
    inner: ark_poly::Radix2EvaluationDomain<Fr>,
}

impl Clone for Domain {
    /// Relies on `Radix2EvaluationDomain` being `Copy`: the clone is the
    /// same value.
    #[verifier::external_body]
    fn clone(&self) -> (r: Self)
        ensures
            r == *self,
    {
        Domain { inner: self.inner }
    }
}

pub uninterp spec fn domain_of(n: nat) -> Domain;

pub uninterp spec fn domain_size_of(d: Domain) -> nat;

pub uninterp spec fn domain_offset_of(d: Domain) -> Scalar;

pub uninterp spec fn domain_elements_of(d: Domain) -> Seq<Scalar>;

pub uninterp spec fn domain_gen_of(d: Domain) -> Scalar;

pub uninterp spec fn domain_coset_of(d: Domain, offset: Scalar) -> Domain;

pub uninterp spec fn domain_ifft_of(d: Domain, v: Seq<Scalar>) -> Seq<Scalar>;

pub uninterp spec fn domain_fft_of(d: Domain, v: Seq<Scalar>) -> Seq<Scalar>;

/// Relies on `ark_poly::Radix2EvaluationDomain::new`: it is a function of
/// the requested size alone, succeeds whenever that size, rounded up to a
/// power of two, is within the field's two-adicity (`2^32`), builds a
/// domain of exactly the requested size when that size is itself a power
/// of two, and leaves the coset offset at one.
#[verifier::external_body]
pub fn domain_new(n: usize) -> (r: Option<Domain>)
    ensures
        crate::domain::spec_pow2(n as int) && n <= 0x100000000 ==> r is Some,
        r matches Some(d) ==> d == domain_of(n as nat) && domain_offset_of(d) == fr_of_u64(1) && (
        crate::domain::spec_pow2(n as int) ==> domain_size_of(d) == n),
{
    ark_poly::Radix2EvaluationDomain::<Fr>::new(n).map(|d| Domain { inner: d })
}

/// Relies on `Radix2EvaluationDomain::get_coset`: the returned domain is a
/// function of the domain and the offset, keeps the size and the group
/// generator (only the offset fields change), and fails exactly when the
/// offset has no inverse, that is, on the zero offset.
#[verifier::external_body]
pub fn domain_get_coset(d: &Domain, offset: Scalar) -> (r: Option<Domain>)
    ensures
        r is Some <==> offset != fr_of_u64(0),
        r matches Some(c) ==> c == domain_coset_of(*d, offset) && domain_size_of(c)
            == domain_size_of(*d) && domain_gen_of(c) == domain_gen_of(*d) && domain_offset_of(c)
            == offset,
{
    d.inner.get_coset(offset.inner).map(|c| Domain { inner: c })
}

/// Relies on `ark_poly::EvaluationDomain::elements`: the iterator yields
/// exactly `size` elements, element `i` being the offset times the `i`-th
/// power of the group generator, a function of the domain alone (field
/// values have one canonical representation, so the product's grouping
/// does not matter).
#[verifier::external_body]
pub fn domain_elements(d: &Domain) -> (r: Vec<Scalar>)
    ensures
        r@ == domain_elements_of(*d),
        r@.len() == domain_size_of(*d),
        forall|i: int|
            0 <= i < r@.len() ==> r@[i] == fr_mul_of(
                domain_offset_of(*d),
                crate::poly::pow_of(domain_gen_of(*d), i as nat),
            ),
{
    d.inner.elements().map(|x| Scalar { inner: x }).collect()
}

/// Relies on the `group_gen` field of `Radix2EvaluationDomain`: the
/// generator of the underlying subgroup.
#[verifier::external_body]
pub fn domain_group_gen(d: &Domain) -> (r: Scalar)
    ensures
        r == domain_gen_of(*d),
{
    Scalar { inner: d.inner.group_gen }
}

/// Relies on `ark_poly::EvaluationDomain::ifft`: the inverse transform is
/// a function of the domain and the evaluations, and returns one
/// coefficient per domain element.
#[verifier::external_body]
pub fn domain_ifft(d: &Domain, v: &Vec<Scalar>) -> (r: Vec<Scalar>)
    ensures
        r@ == domain_ifft_of(*d, v@),
        r@.len() == domain_size_of(*d),
{
    let inner: Vec<Fr> = v.iter().map(|x| x.inner).collect();
    d.inner.ifft(&inner).into_iter().map(|x| Scalar { inner: x }).collect()
}

/// Relies on `ark_poly::EvaluationDomain::fft`: the forward transform is a
/// function of the domain and the coefficients, and returns one evaluation
/// per domain element.
#[verifier::external_body]
pub fn domain_fft(d: &Domain, v: &Vec<Scalar>) -> (r: Vec<Scalar>)
    ensures
        r@ == domain_fft_of(*d, v@),
        r@.len() == domain_size_of(*d),
{
    let inner: Vec<Fr> = v.iter().map(|x| x.inner).collect();
    d.inner.fft(&inner).into_iter().map(|x| Scalar { inner: x }).collect()
}

pub uninterp spec fn pairing_check_of(cm: G1, ris: G1, g2: G2, pi: G1, g2z: G2) -> bool;

/// Relies on `ark_ec::pairing::Pairing::pairing` for BLS12-381, on G1
/// subtraction, and on equality of pairing outputs: decides
/// `e(cm - ris, g2) == e(pi, g2z)`, a function of the five points alone.
#[verifier::external_body]
pub fn pairing_check(cm: G1, ris: G1, g2: G2, pi: G1, g2z: G2) -> (r: bool)
    ensures
        r == pairing_check_of(cm, ris, g2, pi, g2z),
{
    Bls12_381::pairing(cm.inner.into_group() - ris.inner.into_group(), g2.inner)
        == Bls12_381::pairing(pi.inner, g2z.inner)
}

} // verus!
