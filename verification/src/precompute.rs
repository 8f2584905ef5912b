//! Generic per-point-set precomputation: for a fixed collection of point
//! sets, the vanishing polynomial, its G2 commitment and the Lagrange
//! interpolation context of each set are computed once, and `open`/`verify`
//! against a point-set index delegate to the base protocol with the cached
//! values substituted. The outcome of every call is pinned to the same
//! spec functions as the no-precompute scheme, so precomputation cannot
//! change any result.
use vstd::prelude::*;

use crate::arith::{Scalar, G2};
use crate::lagrange::{spec_lag_ok, LagrangeInterpContext};
use crate::method1::{
    commits_view, spec_commit, spec_fs_tstate, spec_open, spec_verify_full,
    spec_verify_full_tstate, Commitment, M1NoPrecomp, Proof,
};
use crate::msm::{curve_msm_g2, spec_msm_g2};
use crate::poly::{lemma_vanishing_len, rows_view, spec_vanishing, vanishing_polynomial};
use crate::Error;

verus! {

/// Why precomputation of one point set fails: its vanishing polynomial
/// exceeds the SRS G2 capacity, it is empty, or it has a vanishing
/// Lagrange weight (a repeated point).
pub open spec fn spec_set_err(g2: Seq<G2>, pts: Seq<Scalar>) -> Result<(), Error> {
    if spec_vanishing(pts).len() > g2.len() {
        Err(Error::SizeMismatch)
    } else if pts.len() == 0 {
        Err(Error::EmptyInput)
    } else if !spec_lag_ok(pts) {
        Err(Error::InvariantViolation)
    } else {
        Ok(())
    }
}

/// The outcome of precomputing a collection of point sets: the error of
/// the first failing set, in order.
pub open spec fn spec_precomp(g2: Seq<G2>, sets: Seq<Seq<Scalar>>) -> Result<(), Error>
    decreases sets.len(),
{
    if sets.len() == 0 {
        Ok(())
    } else if spec_set_err(g2, sets.first()) is Err {
        spec_set_err(g2, sets.first())
    } else {
        spec_precomp(g2, sets.drop_first())
    }
}

/// The base scheme together with per-point-set precomputed tables.
pub struct M1Precomp {
    /// The scheme without precomputation.
    pub inner: M1NoPrecomp,
    pub(crate) point_sets: Vec<Vec<Scalar>>,
    pub(crate) vanishing_polys: Vec<Vec<Scalar>>,
    pub(crate) g2_zeros: Vec<G2>,
    pub(crate) lagrange_ctxs: Vec<LagrangeInterpContext>,
}

impl M1Precomp {
    /// The scheme the tables were derived from.
    pub closed spec fn spec_inner(&self) -> M1NoPrecomp {
        self.inner
    }

    /// The precomputed point sets, by index.
    pub closed spec fn spec_point_sets(&self) -> Seq<Seq<Scalar>> {
        rows_view(self.point_sets@)
    }

    /// Every cached table is exactly what the base protocol would
    /// recompute from its point set.
    pub closed spec fn wf(&self) -> bool {
        &&& self.vanishing_polys@.len() == self.point_sets@.len()
        &&& self.g2_zeros@.len() == self.point_sets@.len()
        &&& self.lagrange_ctxs@.len() == self.point_sets@.len()
        &&& forall|i: int|
            0 <= i < self.point_sets@.len() ==> {
                let pts = (#[trigger] self.point_sets@[i])@;
                &&& self.vanishing_polys@[i]@ == spec_vanishing(pts)
                &&& spec_vanishing(pts).len() <= self.inner.powers_of_g2@.len()
                &&& self.g2_zeros@[i] == spec_msm_g2(
                    self.inner.powers_of_g2@.take(spec_vanishing(pts).len() as int),
                    spec_vanishing(pts),
                )
                &&& self.lagrange_ctxs@[i].wf()
                &&& self.lagrange_ctxs@[i].spec_points() == pts
                &&& spec_lag_ok(pts)
            }
    }

    /// Precomputes tables for the given point sets over the given scheme;
    /// fails with the error of the first set that exceeds the SRS G2
    /// capacity, is empty, or has a repeated point.
    pub fn from_inner(inner: M1NoPrecomp, point_sets: Vec<Vec<Scalar>>) -> (r: Result<
        M1Precomp,
        Error,
    >)
        ensures
            r is Ok <==> spec_precomp(inner.powers_of_g2@, rows_view(point_sets@)) is Ok,
            r matches Err(e) ==> spec_precomp(inner.powers_of_g2@, rows_view(point_sets@)) == Err::<
                (),
                Error,
            >(e),
            r matches Ok(c) ==> c.wf() && c.spec_inner() == inner && c.spec_point_sets() == rows_view(
                point_sets@,
            ),
    {
        let ghost sets = rows_view(point_sets@);
        proof {
            crate::poly::lemma_rows_view(point_sets@);
            assert(sets.skip(0) =~= sets);
        }
        let mut vanishing_polys: Vec<Vec<Scalar>> = Vec::new();
        let mut g2_zeros: Vec<G2> = Vec::new();
        let mut lagrange_ctxs: Vec<LagrangeInterpContext> = Vec::new();
        let mut i: usize = 0;
        while i < point_sets.len()
            invariant
                i <= point_sets@.len(),
                sets == rows_view(point_sets@),
                sets.len() == point_sets@.len(),
                forall|j: int| 0 <= j < point_sets@.len() ==> sets[j] == #[trigger] point_sets@[j]@,
                spec_precomp(inner.powers_of_g2@, sets) == spec_precomp(
                    inner.powers_of_g2@,
                    sets.skip(i as int),
                ),
                vanishing_polys@.len() == i,
                g2_zeros@.len() == i,
                lagrange_ctxs@.len() == i,
                forall|j: int|
                    0 <= j < i ==> {
                        let pts = (#[trigger] point_sets@[j])@;
                        &&& vanishing_polys@[j]@ == spec_vanishing(pts)
                        &&& spec_vanishing(pts).len() <= inner.powers_of_g2@.len()
                        &&& g2_zeros@[j] == spec_msm_g2(
                            inner.powers_of_g2@.take(spec_vanishing(pts).len() as int),
                            spec_vanishing(pts),
                        )
                        &&& lagrange_ctxs@[j].wf()
                        &&& lagrange_ctxs@[j].spec_points() == pts
                        &&& spec_lag_ok(pts)
                    },
            decreases point_sets@.len() - i,
        {
            proof {
                assert(sets.skip(i as int).first() == sets[i as int]);
                assert(sets.skip(i as int).drop_first() =~= sets.skip(i + 1));
            }
            let vp = vanishing_polynomial(&point_sets[i]);
            let g2z = match curve_msm_g2(&inner.powers_of_g2, &vp, inner.backend) {
                Err(e) => {
                    return Err(e);
                },
                Ok(p) => p,
            };
            let lag = match LagrangeInterpContext::new_from_points(&point_sets[i]) {
                Err(e) => {
                    return Err(e);
                },
                Ok(c) => c,
            };
            vanishing_polys.push(vp);
            g2_zeros.push(g2z);
            lagrange_ctxs.push(lag);
            i = i + 1;
        }
        proof {
            assert(sets.skip(point_sets@.len() as int) =~= Seq::<Seq<Scalar>>::empty());
        }
        Ok(M1Precomp { inner, point_sets, vanishing_polys, g2_zeros, lagrange_ctxs })
    }

    /// Commits through the inner scheme.
    pub fn commit(&self, coeffs: &Vec<Scalar>) -> (r: Result<Commitment, Error>)
        ensures
            ({
                let s = spec_commit(self.spec_inner().powers_of_g1@, coeffs@);
                match r {
                    Ok(c) => s matches Ok(g) && c.0 == g,
                    Err(e) => s == Err::<crate::arith::G1, Error>(e),
                }
            }),
    {
        self.inner.commit(coeffs)
    }

    /// Opens against the point set at `point_set_index`, substituting the
    /// cached vanishing polynomial: the outcome is exactly that of the
    /// no-precompute `open` on the same point set.
    pub fn open(
        &self,
        transcript: &mut merlin::Transcript,
        evals: &Vec<Vec<Scalar>>,
        polys: &Vec<Vec<Scalar>>,
        point_set_index: usize,
    ) -> (r: Result<Proof, Error>)
        requires
            self.wf(),
        ensures
            point_set_index >= self.spec_point_sets().len() ==> r == Err::<Proof, Error>(
                Error::IndexOutOfRange { index: point_set_index },
            ) && *final(transcript) == *old(transcript),
            point_set_index < self.spec_point_sets().len() ==> ({
                let s = spec_open(
                    self.spec_inner().powers_of_g1@,
                    *old(transcript),
                    rows_view(evals@),
                    rows_view(polys@),
                    self.spec_point_sets()[point_set_index as int],
                );
                &&& (match r {
                    Ok(p) => s matches Ok(g) && p.0 == g,
                    Err(e) => s == Err::<crate::arith::G1, Error>(e),
                })
                &&& *final(transcript) == spec_fs_tstate(
                    *old(transcript),
                    rows_view(evals@),
                    self.spec_point_sets()[point_set_index as int],
                )
            }),
    {
        if point_set_index >= self.point_sets.len() {
            return Err(Error::IndexOutOfRange { index: point_set_index });
        }
        self.inner.open_with_vanishing_poly(
            transcript,
            evals,
            polys,
            &self.point_sets[point_set_index],
            &self.vanishing_polys[point_set_index],
        )
    }

    /// Verifies against the point set at `point_set_index`, substituting
    /// the cached interpolation context and G2 commitment: the outcome is
    /// exactly that of the no-precompute `verify` on the same point set.
    pub fn verify(
        &self,
        transcript: &mut merlin::Transcript,
        commits: &Vec<Commitment>,
        point_set_index: usize,
        evals: &Vec<Vec<Scalar>>,
        proof: &Proof,
    ) -> (r: Result<bool, Error>)
        requires
            self.wf(),
        ensures
            point_set_index >= self.spec_point_sets().len() ==> r == Err::<bool, Error>(
                Error::IndexOutOfRange { index: point_set_index },
            ) && *final(transcript) == *old(transcript),
            point_set_index < self.spec_point_sets().len() ==> r == spec_verify_full(
                self.spec_inner().powers_of_g1@,
                self.spec_inner().powers_of_g2@,
                *old(transcript),
                commits_view(commits@),
                self.spec_point_sets()[point_set_index as int],
                rows_view(evals@),
                proof.0,
            ) && *final(transcript) == spec_verify_full_tstate(
                self.spec_inner().powers_of_g2@,
                *old(transcript),
                rows_view(evals@),
                self.spec_point_sets()[point_set_index as int],
            ),
    {
        if point_set_index >= self.point_sets.len() {
            return Err(Error::IndexOutOfRange { index: point_set_index });
        }
        proof {
            lemma_vanishing_len(self.point_sets@[point_set_index as int]@);
        }
        self.inner.verify_with_lag_ctx_g2_zeros(
            transcript,
            commits,
            &self.point_sets[point_set_index],
            evals,
            proof,
            &self.lagrange_ctxs[point_set_index],
            &self.g2_zeros[point_set_index],
        )
    }
}

} // verus!
