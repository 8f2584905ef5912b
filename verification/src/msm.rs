//! Multi-scalar multiplication: the one place where scalar-multiplication
//! cost is paid.
//!
//! `spec_msm_g1`/`spec_msm_g2` state the result as the scalar-weighted sum
//! of the bases. Two interchangeable backends realize it: a portable one,
//! a verified loop over the named group operations, and a fast one trusted
//! to `ark_ec::VariableBaseMSM`. Both return the canonical affine form of
//! the same point, so their contracts coincide.
use vstd::prelude::*;

use crate::arith::{
    g1_add, g1_add_of, g1_mul, g1_mul_of, g1_zero, g1_zero_of, g2_add, g2_add_of, g2_mul,
    g2_mul_of, g2_zero, g2_zero_of, msm_g1_fast, msm_g2_fast, Scalar, G1, G2,
};
use crate::Error;

verus! {

/// Which realization of the MSM capability a scheme uses. Both satisfy the
/// same contract and produce identical group elements.
#[derive(Clone, Copy, Debug, PartialEq, Eq, Structural)]
pub enum MsmBackend {
    /// A verified loop of scalar multiplications and additions.
    Portable,
    /// The optimized variable-base MSM of the curve library.
    Fast,
}

/// `sum_i scalars[i] * bases[i]` in G1, folded left from the identity.
pub open spec fn spec_msm_g1(bases: Seq<G1>, scalars: Seq<Scalar>) -> G1
    recommends
        bases.len() >= scalars.len(),
    decreases scalars.len(),
{
    if scalars.len() == 0 {
        g1_zero_of(())
    } else {
        g1_add_of(
            spec_msm_g1(bases, scalars.drop_last()),
            g1_mul_of(bases[scalars.len() - 1], scalars.last()),
        )
    }
}

/// `sum_i scalars[i] * bases[i]` in G2, folded left from the identity.
pub open spec fn spec_msm_g2(bases: Seq<G2>, scalars: Seq<Scalar>) -> G2
    recommends
        bases.len() >= scalars.len(),
    decreases scalars.len(),
{
    if scalars.len() == 0 {
        g2_zero_of(())
    } else {
        g2_add_of(
            spec_msm_g2(bases, scalars.drop_last()),
            g2_mul_of(bases[scalars.len() - 1], scalars.last()),
        )
    }
}

fn msm_g1_portable(bases: &Vec<G1>, scalars: &Vec<Scalar>) -> (r: G1)
    requires
        bases@.len() == scalars@.len(),
    ensures
        r == spec_msm_g1(bases@, scalars@),
{
    let mut acc: G1 = g1_zero();
    let mut i: usize = 0;
    while i < scalars.len()
        invariant
            i <= scalars@.len(),
            bases@.len() == scalars@.len(),
            acc == spec_msm_g1(bases@, scalars@.take(i as int)),
        decreases scalars@.len() - i,
    {
        acc = g1_add(acc, g1_mul(bases[i].clone(), scalars[i].clone()));
        assert(scalars@.take(i + 1).drop_last() =~= scalars@.take(i as int));
        i = i + 1;
    }
    assert(scalars@.take(scalars@.len() as int) =~= scalars@);
    acc
}

fn msm_g2_portable(bases: &Vec<G2>, scalars: &Vec<Scalar>) -> (r: G2)
    requires
        bases@.len() == scalars@.len(),
    ensures
        r == spec_msm_g2(bases@, scalars@),
{
    let mut acc: G2 = g2_zero();
    let mut i: usize = 0;
    while i < scalars.len()
        invariant
            i <= scalars@.len(),
            bases@.len() == scalars@.len(),
            acc == spec_msm_g2(bases@, scalars@.take(i as int)),
        decreases scalars@.len() - i,
    {
        acc = g2_add(acc, g2_mul(bases[i].clone(), scalars[i].clone()));
        assert(scalars@.take(i + 1).drop_last() =~= scalars@.take(i as int));
        i = i + 1;
    }
    assert(scalars@.take(scalars@.len() as int) =~= scalars@);
    acc
}

fn prefix_g1(v: &Vec<G1>, n: usize) -> (r: Vec<G1>)
    requires
        n <= v@.len(),
    ensures
        r@ == v@.take(n as int),
{
    let mut out: Vec<G1> = Vec::new();
    let mut i: usize = 0;
    while i < n
        invariant
            i <= n <= v@.len(),
            out@.len() == i,
            forall|j: int| 0 <= j < i ==> out@[j] == v@[j],
        decreases n - i,
    {
        out.push(v[i].clone());
        i = i + 1;
    }
    assert(out@ =~= v@.take(n as int));
    out
}

fn prefix_g2(v: &Vec<G2>, n: usize) -> (r: Vec<G2>)
    requires
        n <= v@.len(),
    ensures
        r@ == v@.take(n as int),
{
    let mut out: Vec<G2> = Vec::new();
    let mut i: usize = 0;
    while i < n
        invariant
            i <= n <= v@.len(),
            out@.len() == i,
            forall|j: int| 0 <= j < i ==> out@[j] == v@[j],
        decreases n - i,
    {
        out.push(v[i].clone());
        i = i + 1;
    }
    assert(out@ =~= v@.take(n as int));
    out
}

/// MSM of the first `|scalars|` bases against `scalars` in G1; errs when
/// there are more scalars than bases.
pub fn curve_msm_g1(bases: &Vec<G1>, scalars: &Vec<Scalar>, backend: MsmBackend) -> (r: Result<
    G1,
    Error,
>)
    ensures
        r matches Ok(p) ==> scalars@.len() <= bases@.len() && p == spec_msm_g1(
            bases@.take(scalars@.len() as int),
            scalars@,
        ),
        r is Err <==> scalars@.len() > bases@.len(),
        r is Err ==> r == Err::<G1, Error>(Error::SizeMismatch),
{
    if scalars.len() > bases.len() {
        return Err(Error::SizeMismatch);
    }
    let pb = prefix_g1(bases, scalars.len());
    match backend {
        MsmBackend::Portable => Ok(msm_g1_portable(&pb, scalars)),
        MsmBackend::Fast => Ok(msm_g1_fast(&pb, scalars)),
    }
}

/// MSM of the first `|scalars|` bases against `scalars` in G2; errs when
/// there are more scalars than bases.
pub fn curve_msm_g2(bases: &Vec<G2>, scalars: &Vec<Scalar>, backend: MsmBackend) -> (r: Result<
    G2,
    Error,
>)
    ensures
        r matches Ok(p) ==> scalars@.len() <= bases@.len() && p == spec_msm_g2(
            bases@.take(scalars@.len() as int),
            scalars@,
        ),
        r is Err <==> scalars@.len() > bases@.len(),
        r is Err ==> r == Err::<G2, Error>(Error::SizeMismatch),
{
    if scalars.len() > bases.len() {
        return Err(Error::SizeMismatch);
    }
    let pb = prefix_g2(bases, scalars.len());
    match backend {
        MsmBackend::Portable => Ok(msm_g2_portable(&pb, scalars)),
        MsmBackend::Fast => Ok(msm_g2_fast(&pb, scalars)),
    }
}

/// The two MSM backends agree: committing identical bases and scalars
/// through either realization yields the identical group element, since
/// both satisfy the one contract `spec_msm_g1`.
pub proof fn lemma_msm_backends_agree(bases: Seq<G1>, scalars: Seq<Scalar>, r1: G1, r2: G1)
    requires
        r1 == spec_msm_g1(bases, scalars),
        r2 == spec_msm_g1(bases, scalars),
    ensures
        r1 == r2,
{
}

} // verus!
