//! The Lagrange interpolation context: per-point-set precomputation that
//! turns blended evaluation vectors into interpolating polynomials.
//!
//! For each point `x_i` the context stores the coefficient vector of the
//! Lagrange basis polynomial `L_i = (Z / (X - x_i)) / Z'(x_i)` where `Z` is
//! the vanishing polynomial of the point set and `Z'(x_i)` the barycentric
//! weight. Interpolating a blended evaluation vector is then one linear
//! combination of the stored basis rows, reusable for unboundedly many
//! calls against the fixed point set.
use vstd::prelude::*;

use crate::arith::{fr_inv_of, fr_inverse, fr_of_u64, Scalar};
use crate::poly::{
    clone_scalars, divide_sparse, eval_poly, linear_combination, rows_view, scale_poly,
    spec_div_sparse, spec_eval, spec_lin_comb, spec_scale, spec_vanishing, vanishing_polynomial,
};
use crate::Error;

verus! {

/// `Z / (X - points[i])`: the monic numerator of the `i`-th Lagrange basis
/// polynomial.
pub open spec fn spec_lag_numerator(points: Seq<Scalar>, i: int) -> Seq<Scalar> {
    spec_div_sparse(spec_vanishing(points), 1, points[i])
}

/// The barycentric weight of the `i`-th point: the numerator evaluated at
/// the point itself.
pub open spec fn spec_lag_weight(points: Seq<Scalar>, i: int) -> Scalar {
    spec_eval(spec_lag_numerator(points, i), points[i])
}

/// The coefficient vector of the `i`-th Lagrange basis polynomial.
pub open spec fn spec_lag_basis_row(points: Seq<Scalar>, i: int) -> Seq<Scalar> {
    spec_scale(fr_inv_of(spec_lag_weight(points, i)), spec_lag_numerator(points, i))
}

/// All basis rows, one per point.
pub open spec fn spec_lag_basis(points: Seq<Scalar>) -> Seq<Seq<Scalar>> {
    Seq::new(points.len(), |i: int| spec_lag_basis_row(points, i))
}

/// A context can be built exactly when there is at least one point and no
/// weight vanishes (a zero weight means a repeated point).
pub open spec fn spec_lag_ok(points: Seq<Scalar>) -> bool {
    points.len() >= 1 && (forall|i: int|
        0 <= i < points.len() ==> spec_lag_weight(points, i) != fr_of_u64(0))
}

/// The interpolation result: the blend of the evaluation rows by the
/// blending scalars, re-expressed in the Lagrange basis.
pub open spec fn spec_lag_interp(
    points: Seq<Scalar>,
    rows: Seq<Seq<Scalar>>,
    gammas: Seq<Scalar>,
) -> Seq<Scalar> {
    spec_lin_comb(spec_lag_basis(points), spec_lin_comb(rows, gammas))
}

/// Per-point-set precomputed interpolation tables.
pub struct LagrangeInterpContext {
    pub(crate) points: Vec<Scalar>,
    pub(crate) basis: Vec<Vec<Scalar>>,
}

impl LagrangeInterpContext {
    /// The point set this context was built for.
    pub closed spec fn spec_points(&self) -> Seq<Scalar> {
        self.points@
    }

    /// The context holds exactly the basis rows of its point set.
    pub closed spec fn wf(&self) -> bool {
        &&& spec_lag_ok(self.points@)
        &&& rows_view(self.basis@) == spec_lag_basis(self.points@)
    }

    /// Builds the tables for one point set; fails on an empty set, or with
    /// an invariant violation when a weight has no inverse (a repeated
    /// point).
    pub fn new_from_points(points: &Vec<Scalar>) -> (r: Result<Self, Error>)
        ensures
            r is Ok <==> spec_lag_ok(points@),
            r matches Ok(c) ==> c.wf() && c.spec_points() == points@,
            points@.len() == 0 ==> r == Err::<Self, Error>(Error::EmptyInput),
            r is Err && points@.len() >= 1 ==> r == Err::<Self, Error>(Error::InvariantViolation),
    {
        if points.len() == 0 {
            return Err(Error::EmptyInput);
        }
        let vp = vanishing_polynomial(points);
        let mut basis: Vec<Vec<Scalar>> = Vec::new();
        let mut i: usize = 0;
        while i < points.len()
            invariant
                i <= points@.len(),
                points@.len() >= 1,
                vp@ == spec_vanishing(points@),
                basis@.len() == i,
                forall|j: int| 0 <= j < i ==> spec_lag_weight(points@, j) != fr_of_u64(0),
                forall|j: int|
                    0 <= j < i ==> (#[trigger] basis@[j])@ == spec_lag_basis_row(points@, j),
            decreases points@.len() - i,
        {
            let num = divide_sparse(clone_scalars(&vp), 1, &points[i]);
            let w = eval_poly(&num, &points[i]);
            match fr_inverse(w) {
                None => {
                    proof {
                        assert(spec_lag_weight(points@, i as int) == fr_of_u64(0));
                        assert(!spec_lag_ok(points@));
                    }
                    return Err(Error::InvariantViolation);
                },
                Some(wi) => {
                    basis.push(scale_poly(&wi, &num));
                },
            }
            i = i + 1;
        }
        assert(rows_view(basis@) =~= spec_lag_basis(points@));
        Ok(LagrangeInterpContext { points: clone_scalars(points), basis })
    }

    /// Interpolates the blend of `evals` by `gammas` over the context's
    /// point set: the returned coefficients are those of the unique
    /// polynomial of degree below the point count taking the blended
    /// values at the points.
    pub fn lagrange_interp_linear_combo(&self, evals: &Vec<Vec<Scalar>>, gammas: &Vec<Scalar>) -> (r:
        Result<Vec<Scalar>, Error>)
        requires
            self.wf(),
            gammas@.len() >= evals@.len(),
        ensures
            r is Ok <==> evals@.len() >= 1 && (forall|i: int|
                0 <= i < evals@.len() ==> evals@[i]@.len() == self.spec_points().len()),
            r matches Ok(v) ==> v@ == spec_lag_interp(
                self.spec_points(),
                rows_view(evals@),
                gammas@,
            ),
            evals@.len() == 0 ==> r == Err::<Vec<Scalar>, Error>(Error::EmptyInput),
            r is Err && evals@.len() >= 1 ==> r == Err::<Vec<Scalar>, Error>(Error::SizeMismatch),
    {
        if evals.len() == 0 {
            return Err(Error::EmptyInput);
        }
        let n = self.points.len();
        let mut i: usize = 0;
        while i < evals.len()
            invariant
                i <= evals@.len(),
                evals@.len() >= 1,
                n == self.spec_points().len(),
                self.wf(),
                forall|j: int| 0 <= j < i ==> evals@[j]@.len() == n,
            decreases evals@.len() - i,
        {
            if evals[i].len() != n {
                return Err(Error::SizeMismatch);
            }
            i = i + 1;
        }
        let blended = match linear_combination(evals, gammas) {
            Some(b) => b,
            None => {
                return Err(Error::EmptyInput);
            },
        };
        proof {
            crate::poly::lemma_lin_comb_uniform_len(rows_view(evals@), gammas@, n as nat);
            lemma_lag_basis_row_lens(self.points@);
            assert(blended@.len() == n);
            assert(self.basis@.len() == spec_lag_basis(self.points@).len());
        }
        match linear_combination(&self.basis, &blended) {
            Some(v) => Ok(v),
            None => {
                proof {
                    // the preceding checks make this arm unreachable
                    assert(false);
                }
                Err(Error::EmptyInput)
            },
        }
    }
}

/// Every basis row is as long as the point set.
pub proof fn lemma_lag_basis_row_lens(points: Seq<Scalar>)
    ensures
        forall|i: int|
            0 <= i < points.len() ==> (#[trigger] spec_lag_basis(points)[i]).len() == points.len(),
{
    assert forall|i: int| 0 <= i < points.len() implies (#[trigger] spec_lag_basis(points)[i]).len()
        == points.len() by {
        crate::poly::lemma_vanishing_len(points);
        crate::poly::lemma_div_sparse_len(spec_vanishing(points), 1, points[i]);
    }
}

} // verus!
