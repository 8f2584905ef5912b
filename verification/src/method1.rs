//! The base multiproof protocol: commit, open, verify, with no
//! precomputation.
//!
//! `spec_open` and `spec_verify` pin the whole outcome of each call —
//! the returned value and every error — as a function of the SRS, the
//! inputs, and the starting transcript state. Determinism of the scheme is
//! exactly that these are functions; the companion lemmas state it.
use vstd::prelude::*;

use crate::arith::{fr_of_u64, g1_mul, g1_mul_of, g2_mul, g2_mul_of, pairing_check,
    pairing_check_of, Scalar, G1, G2};
use crate::lagrange::{spec_lag_interp, spec_lag_ok, LagrangeInterpContext};
use crate::msm::{curve_msm_g1, curve_msm_g2, spec_msm_g1, spec_msm_g2, MsmBackend};
use crate::poly::{
    gen_powers, linear_combination, lemma_rows_view, lemma_vanishing_len, poly_div_q_r, pow_of,
    rows_view, spec_div_qr, spec_lin_comb, spec_powers, spec_rows_ok, spec_vanishing,
    vanishing_polynomial,
};
use crate::transcript::{
    get_challenge, spec_after_challenge, spec_challenge_scalar, spec_transcribe,
    transcribe_points_and_evals,
};
use crate::Error;

verus! {

/// A structured reference string over BLS12-381: powers of a discarded
/// secret committed into both groups, and the MSM backend the scheme
/// routes every curve operation through.
pub struct M1NoPrecomp {
    pub powers_of_g1: Vec<G1>,
    pub powers_of_g2: Vec<G2>,
    pub backend: MsmBackend,
}

/// A commitment: one G1 point binding a polynomial's coefficients.
pub struct Commitment(pub G1);

/// An opening proof: the commitment to the quotient polynomial.
pub struct Proof(pub G1);

impl Commitment {
    /// The canonical wire form: exactly one encoded group element.
    pub fn to_bytes(&self) -> (r: Vec<u8>)
        ensures
            r@ == crate::arith::g1_bytes_of(self.0),
            r@.len() == 48,
    {
        crate::arith::g1_to_bytes(&self.0)
    }
}

impl Proof {
    /// The canonical wire form: exactly one encoded group element.
    pub fn to_bytes(&self) -> (r: Vec<u8>)
        ensures
            r@ == crate::arith::g1_bytes_of(self.0),
            r@.len() == 48,
    {
        crate::arith::g1_to_bytes(&self.0)
    }
}

/// The commitments' underlying points.
pub open spec fn commits_view(commits: Seq<Commitment>) -> Seq<G1> {
    commits.map_values(|c: Commitment| c.0)
}

/// The outcome of `commit`: the MSM of the first `|coeffs|` SRS points
/// against the coefficients, or a size error when the SRS is too small.
pub open spec fn spec_commit(g1: Seq<G1>, coeffs: Seq<Scalar>) -> Result<G1, Error> {
    if coeffs.len() > g1.len() {
        Err(Error::SizeMismatch)
    } else {
        Ok(spec_msm_g1(g1.take(coeffs.len() as int), coeffs))
    }
}

/// The full outcome of `open`: the quotient commitment, or the exact error,
/// as a function of the SRS, the starting transcript state, and the inputs.
pub open spec fn spec_open(
    g1: Seq<G1>,
    t0: merlin::Transcript,
    evals: Seq<Seq<Scalar>>,
    polys: Seq<Seq<Scalar>>,
    points: Seq<Scalar>,
) -> Result<G1, Error> {
    if points.len() == 0 {
        Err(Error::EmptyInput)
    } else if !spec_rows_ok(evals, points) {
        Err(Error::SizeMismatch)
    } else if polys.len() == 0 {
        Err(Error::EmptyInput)
    } else {
        let gamma = spec_challenge_scalar(spec_transcribe(t0, points, evals));
        let gammas = spec_powers(gamma, polys.len());
        let fsum = spec_lin_comb(polys, gammas);
        let vp = spec_vanishing(points);
        if vp.last() == fr_of_u64(0) {
            Err(Error::InvariantViolation)
        } else {
            let q = spec_div_qr(fsum, vp).0;
            if q.len() > g1.len() {
                Err(Error::SizeMismatch)
            } else {
                Ok(spec_msm_g1(g1.take(q.len() as int), q))
            }
        }
    }
}

/// The transcript state an `open` or `verify` call leaves behind: untouched
/// when the inputs were rejected before transcription, else the state after
/// the full transcription and one challenge.
pub open spec fn spec_fs_tstate(
    t0: merlin::Transcript,
    evals: Seq<Seq<Scalar>>,
    points: Seq<Scalar>,
) -> merlin::Transcript {
    if points.len() == 0 || !spec_rows_ok(evals, points) {
        t0
    } else {
        spec_after_challenge(spec_transcribe(t0, points, evals))
    }
}

/// The full outcome of `verify` against cached interpolation tables and a
/// G2 commitment `g2z` of the vanishing polynomial: the boolean pairing
/// verdict, or the exact error.
pub open spec fn spec_verify(
    g1: Seq<G1>,
    g2: Seq<G2>,
    t0: merlin::Transcript,
    commits: Seq<G1>,
    points: Seq<Scalar>,
    evals: Seq<Seq<Scalar>>,
    pi: G1,
    g2z: G2,
) -> Result<bool, Error> {
    if points.len() == 0 {
        Err(Error::EmptyInput)
    } else if !spec_rows_ok(evals, points) {
        Err(Error::SizeMismatch)
    } else if evals.len() == 0 {
        Err(Error::EmptyInput)
    } else {
        let gamma = spec_challenge_scalar(spec_transcribe(t0, points, evals));
        let gammas = spec_powers(gamma, evals.len());
        let gamma_ris = spec_lag_interp(points, evals, gammas);
        if gamma_ris.len() > g1.len() {
            Err(Error::SizeMismatch)
        } else {
            let ris_pt = spec_msm_g1(g1.take(gamma_ris.len() as int), gamma_ris);
            if commits.len() != evals.len() {
                Err(Error::SizeMismatch)
            } else {
                let cm_pt = spec_msm_g1(commits, gammas);
                if g2.len() == 0 {
                    Err(Error::SizeMismatch)
                } else {
                    Ok(pairing_check_of(cm_pt, ris_pt, g2[0], pi, g2z))
                }
            }
        }
    }
}

/// The full outcome of the no-precompute `verify`: the vanishing polynomial
/// and interpolation tables are rebuilt from the points, then the pairing
/// verdict is as `spec_verify`.
pub open spec fn spec_verify_full(
    g1: Seq<G1>,
    g2: Seq<G2>,
    t0: merlin::Transcript,
    commits: Seq<G1>,
    points: Seq<Scalar>,
    evals: Seq<Seq<Scalar>>,
    pi: G1,
) -> Result<bool, Error> {
    let vp = spec_vanishing(points);
    if vp.len() > g2.len() {
        Err(Error::SizeMismatch)
    } else if !spec_lag_ok(points) {
        if points.len() == 0 {
            Err(Error::EmptyInput)
        } else {
            Err(Error::InvariantViolation)
        }
    } else {
        spec_verify(
            g1,
            g2,
            t0,
            commits,
            points,
            evals,
            pi,
            spec_msm_g2(g2.take(vp.len() as int), vp),
        )
    }
}

/// The transcript state the no-precompute `verify` leaves behind.
pub open spec fn spec_verify_full_tstate(
    g2: Seq<G2>,
    t0: merlin::Transcript,
    evals: Seq<Seq<Scalar>>,
    points: Seq<Scalar>,
) -> merlin::Transcript {
    if spec_vanishing(points).len() > g2.len() || !spec_lag_ok(points) {
        t0
    } else {
        spec_fs_tstate(t0, evals, points)
    }
}

pub(crate) fn commits_to_points(commits: &Vec<Commitment>) -> (r: Vec<G1>)
    ensures
        r@ == commits_view(commits@),
{
    let mut out: Vec<G1> = Vec::new();
    let mut i: usize = 0;
    while i < commits.len()
        invariant
            i <= commits@.len(),
            out@.len() == i,
            forall|j: int| 0 <= j < i ==> out@[j] == commits@[j].0,
        decreases commits@.len() - i,
    {
        out.push(commits[i].0.clone());
        i = i + 1;
    }
    assert(out@ =~= commits_view(commits@));
    out
}

/// The sequences of an SRS are the powers of one secret scalar `x`
/// applied to one generator per group.
pub open spec fn spec_srs_from(s: M1NoPrecomp, x: Scalar, g1: G1, g2: G2) -> bool {
    &&& forall|i: int|
        0 <= i < s.powers_of_g1@.len() ==> s.powers_of_g1@[i] == g1_mul_of(
            g1,
            #[trigger] pow_of(x, i as nat),
        )
    &&& forall|i: int|
        0 <= i < s.powers_of_g2@.len() ==> s.powers_of_g2@[i] == g2_mul_of(
            g2,
            #[trigger] pow_of(x, i as nat),
        )
}

impl M1NoPrecomp {
    /// A fresh SRS from a random secret scalar and random generators; for
    /// tests and demonstrations — production callers construct from
    /// externally generated public powers. Whatever was drawn, the result
    /// holds the powers of one secret scalar applied to one generator per
    /// group.
    pub fn new(max_coeffs: usize, max_pts: usize, rng: &mut ark_std::rand::rngs::StdRng) -> (r:
        Self)
        requires
            max_pts < usize::MAX,
        ensures
            r.powers_of_g1@.len() == (if max_coeffs >= max_pts + 1 {
                max_coeffs as int
            } else {
                max_pts + 1
            }),
            r.powers_of_g2@.len() == max_pts + 1,
            r.backend == MsmBackend::Fast,
            exists|x: Scalar, g1: G1, g2: G2| #[trigger] spec_srs_from(r, x, g1, g2),
    {
        let x = crate::arith::fr_rand(rng);
        let g1 = crate::arith::g1_rand(rng);
        let g2 = crate::arith::g2_rand(rng);
        let r = Self::new_from_scalar(x, g1, g2, max_coeffs, max_pts);
        proof {
            assert(spec_srs_from(r, x, g1, g2));
        }
        r
    }

    /// An SRS from a known secret scalar: `powers_of_g1[i] = x^i * g1` and
    /// `powers_of_g2[i] = x^i * g2`, with enough G1 powers for
    /// `max_coeffs` coefficients and enough G2 powers for `max_pts`
    /// points.
    pub fn new_from_scalar(x: Scalar, g1: G1, g2: G2, max_coeffs: usize, max_pts: usize) -> (r:
        Self)
        requires
            max_pts < usize::MAX,
        ensures
            r.powers_of_g1@ == Seq::new(
                (if max_coeffs >= max_pts + 1 {
                    max_coeffs as int
                } else {
                    max_pts + 1
                }) as nat,
                |i: int| g1_mul_of(g1, pow_of(x, i as nat)),
            ),
            r.powers_of_g2@ == Seq::new(
                (max_pts + 1) as nat,
                |i: int| g2_mul_of(g2, pow_of(x, i as nat)),
            ),
            r.backend == MsmBackend::Fast,
    {
        let n_g2_powers: usize = max_pts + 1;
        let n: usize = if max_coeffs >= n_g2_powers {
            max_coeffs
        } else {
            n_g2_powers
        };
        let x_powers = gen_powers(x, n);
        let mut powers_of_g1: Vec<G1> = Vec::new();
        let mut i: usize = 0;
        while i < n
            invariant
                i <= n,
                x_powers@ == spec_powers(x, n as nat),
                powers_of_g1@.len() == i,
                forall|j: int| 0 <= j < i ==> powers_of_g1@[j] == g1_mul_of(g1, pow_of(x, j as nat)),
            decreases n - i,
        {
            powers_of_g1.push(g1_mul(g1.clone(), x_powers[i].clone()));
            i = i + 1;
        }
        let mut powers_of_g2: Vec<G2> = Vec::new();
        let mut i: usize = 0;
        while i < n_g2_powers
            invariant
                i <= n_g2_powers <= n,
                x_powers@ == spec_powers(x, n as nat),
                powers_of_g2@.len() == i,
                forall|j: int| 0 <= j < i ==> powers_of_g2@[j] == g2_mul_of(g2, pow_of(x, j as nat)),
            decreases n_g2_powers - i,
        {
            powers_of_g2.push(g2_mul(g2.clone(), x_powers[i].clone()));
            i = i + 1;
        }
        assert(powers_of_g1@ =~= Seq::new(
            n as nat,
            |i: int| g1_mul_of(g1, pow_of(x, i as nat)),
        ));
        assert(powers_of_g2@ =~= Seq::new(
            n_g2_powers as nat,
            |i: int| g2_mul_of(g2, pow_of(x, i as nat)),
        ));
        Self::new_from_affine(powers_of_g1, powers_of_g2)
    }

    /// An SRS from public powers, copied.
    pub fn new_from_powers(powers_of_g1: &Vec<G1>, powers_of_g2: &Vec<G2>) -> (r: Self)
        ensures
            r.powers_of_g1@ == powers_of_g1@,
            r.powers_of_g2@ == powers_of_g2@,
            r.backend == MsmBackend::Fast,
    {
        let mut g1s: Vec<G1> = Vec::new();
        let mut i: usize = 0;
        while i < powers_of_g1.len()
            invariant
                i <= powers_of_g1@.len(),
                g1s@ == powers_of_g1@.take(i as int),
            decreases powers_of_g1@.len() - i,
        {
            g1s.push(powers_of_g1[i].clone());
            assert(g1s@ =~= powers_of_g1@.take(i + 1));
            i = i + 1;
        }
        assert(g1s@ =~= powers_of_g1@);
        let mut g2s: Vec<G2> = Vec::new();
        let mut i: usize = 0;
        while i < powers_of_g2.len()
            invariant
                i <= powers_of_g2@.len(),
                g2s@ == powers_of_g2@.take(i as int),
            decreases powers_of_g2@.len() - i,
        {
            g2s.push(powers_of_g2[i].clone());
            assert(g2s@ =~= powers_of_g2@.take(i + 1));
            i = i + 1;
        }
        assert(g2s@ =~= powers_of_g2@);
        Self::new_from_affine(g1s, g2s)
    }

    /// An SRS holding exactly the given powers.
    pub fn new_from_affine(powers_of_g1: Vec<G1>, powers_of_g2: Vec<G2>) -> (r: Self)
        ensures
            r.powers_of_g1@ == powers_of_g1@,
            r.powers_of_g2@ == powers_of_g2@,
            r.backend == MsmBackend::Fast,
    {
        M1NoPrecomp { powers_of_g1, powers_of_g2, backend: MsmBackend::Fast }
    }

    /// Commits to a coefficient vector: the MSM of the first `|coeffs|`
    /// SRS G1 points against the coefficients.
    pub fn commit(&self, coeffs: &Vec<Scalar>) -> (r: Result<Commitment, Error>)
        ensures
            ({
                let s = spec_commit(self.powers_of_g1@, coeffs@);
                match r {
                    Ok(c) => s matches Ok(g) && c.0 == g,
                    Err(e) => s == Err::<G1, Error>(e),
                }
            }),
    {
        match curve_msm_g1(&self.powers_of_g1, coeffs, self.backend) {
            Ok(p) => Ok(Commitment(p)),
            Err(e) => Err(e),
        }
    }

    /// Opens `polys` at `points` against `evals` with a caller-supplied
    /// vanishing polynomial of the points.
    pub(crate) fn open_with_vanishing_poly(
        &self,
        transcript: &mut merlin::Transcript,
        evals: &Vec<Vec<Scalar>>,
        polys: &Vec<Vec<Scalar>>,
        points: &Vec<Scalar>,
        vp: &Vec<Scalar>,
    ) -> (r: Result<Proof, Error>)
        requires
            vp@ == spec_vanishing(points@),
        ensures
            ({
                let s = spec_open(
                    self.powers_of_g1@,
                    *old(transcript),
                    rows_view(evals@),
                    rows_view(polys@),
                    points@,
                );
                match r {
                    Ok(p) => s matches Ok(g) && p.0 == g,
                    Err(e) => s == Err::<G1, Error>(e),
                }
            }),
            *final(transcript) == spec_fs_tstate(*old(transcript), rows_view(evals@), points@),
    {
        proof {
            lemma_vanishing_len(points@);
            lemma_rows_view(evals@);
        }
        match transcribe_points_and_evals(transcript, points, evals) {
            Err(e) => {
                return Err(e);
            },
            Ok(u) => {
                u
            },
        };
        let gamma = get_challenge(transcript);
        let gammas = gen_powers(gamma, polys.len());
        let fsum = match linear_combination(polys, &gammas) {
            None => {
                return Err(Error::EmptyInput);
            },
            Some(f) => f,
        };
        let qr = match poly_div_q_r(fsum, vp) {
            Err(e) => {
                return Err(e);
            },
            Ok(qr) => qr,
        };
        match curve_msm_g1(&self.powers_of_g1, &qr.0, self.backend) {
            Ok(pt) => Ok(Proof(pt)),
            Err(e) => Err(e),
        }
    }

    /// Opens `polys` at `points` against `evals`: derives the challenge
    /// from the transcript, blends the polynomials, divides by the
    /// vanishing polynomial of the points, and commits the quotient.
    pub fn open(
        &self,
        transcript: &mut merlin::Transcript,
        evals: &Vec<Vec<Scalar>>,
        polys: &Vec<Vec<Scalar>>,
        points: &Vec<Scalar>,
    ) -> (r: Result<Proof, Error>)
        ensures
            ({
                let s = spec_open(
                    self.powers_of_g1@,
                    *old(transcript),
                    rows_view(evals@),
                    rows_view(polys@),
                    points@,
                );
                match r {
                    Ok(p) => s matches Ok(g) && p.0 == g,
                    Err(e) => s == Err::<G1, Error>(e),
                }
            }),
            *final(transcript) == spec_fs_tstate(*old(transcript), rows_view(evals@), points@),
    {
        let vp = vanishing_polynomial(points);
        self.open_with_vanishing_poly(transcript, evals, polys, points, &vp)
    }

    /// Verifies a proof against cached interpolation tables and a cached
    /// G2 commitment of the vanishing polynomial.
    pub(crate) fn verify_with_lag_ctx_g2_zeros(
        &self,
        transcript: &mut merlin::Transcript,
        commits: &Vec<Commitment>,
        points: &Vec<Scalar>,
        evals: &Vec<Vec<Scalar>>,
        proof: &Proof,
        lag_ctx: &LagrangeInterpContext,
        g2_zeros: &G2,
    ) -> (r: Result<bool, Error>)
        requires
            lag_ctx.wf(),
            lag_ctx.spec_points() == points@,
        ensures
            r == spec_verify(
                self.powers_of_g1@,
                self.powers_of_g2@,
                *old(transcript),
                commits_view(commits@),
                points@,
                rows_view(evals@),
                proof.0,
                *g2_zeros,
            ),
            *final(transcript) == spec_fs_tstate(*old(transcript), rows_view(evals@), points@),
    {
        proof {
            lemma_rows_view(evals@);
        }
        match transcribe_points_and_evals(transcript, points, evals) {
            Err(e) => {
                return Err(e);
            },
            Ok(u) => {
                u
            },
        };
        proof {
            assert forall|j: int| 0 <= j < evals@.len() implies (#[trigger] evals@[j])@.len()
                == points@.len() by {
                assert(rows_view(evals@)[j] == evals@[j]@);
            }
        }
        let gamma = get_challenge(transcript);
        let gammas = gen_powers(gamma, evals.len());
        let gamma_ris = match lag_ctx.lagrange_interp_linear_combo(evals, &gammas) {
            Err(e) => {
                return Err(e);
            },
            Ok(v) => v,
        };
        let gamma_ris_pt = match curve_msm_g1(&self.powers_of_g1, &gamma_ris, self.backend) {
            Err(e) => {
                return Err(e);
            },
            Ok(p) => p,
        };
        if commits.len() != evals.len() {
            return Err(Error::SizeMismatch);
        }
        let cms = commits_to_points(commits);
        let gamma_cm_pt = match curve_msm_g1(&cms, &gammas, self.backend) {
            Err(e) => {
                proof {
                    // the preceding checks make this arm unreachable
                    assert(false);
                }
                return Err(e);
            },
            Ok(p) => p,
        };
        proof {
            assert(commits_view(commits@).take(commits@.len() as int) =~= commits_view(commits@));
        }
        if self.powers_of_g2.len() == 0 {
            return Err(Error::SizeMismatch);
        }
        let g2_first = self.powers_of_g2[0].clone();
        Ok(pairing_check(gamma_cm_pt, gamma_ris_pt, g2_first, proof.0.clone(), g2_zeros.clone()))
    }

    /// Verifies a proof from scratch: rebuilds the vanishing polynomial,
    /// its G2 commitment and the interpolation tables from the points,
    /// then checks the one pairing equation.
    pub fn verify(
        &self,
        transcript: &mut merlin::Transcript,
        commits: &Vec<Commitment>,
        points: &Vec<Scalar>,
        evals: &Vec<Vec<Scalar>>,
        proof: &Proof,
    ) -> (r: Result<bool, Error>)
        ensures
            r == spec_verify_full(
                self.powers_of_g1@,
                self.powers_of_g2@,
                *old(transcript),
                commits_view(commits@),
                points@,
                rows_view(evals@),
                proof.0,
            ),
            *final(transcript) == spec_verify_full_tstate(
                self.powers_of_g2@,
                *old(transcript),
                rows_view(evals@),
                points@,
            ),
    {
        proof {
            lemma_vanishing_len(points@);
        }
        let vp = vanishing_polynomial(points);
        let g2_zeros = match curve_msm_g2(&self.powers_of_g2, &vp, self.backend) {
            Err(e) => {
                return Err(e);
            },
            Ok(p) => p,
        };
        let lag_ctx = match LagrangeInterpContext::new_from_points(points) {
            Err(e) => {
                return Err(e);
            },
            Ok(c) => c,
        };
        self.verify_with_lag_ctx_g2_zeros(
            transcript,
            commits,
            points,
            evals,
            proof,
            &lag_ctx,
            &g2_zeros,
        )
    }
}

/// Determinism of `open`: the outcome is a function of the SRS, the
/// starting transcript state, and the inputs alone, so two calls with
/// identical arguments and identically-seeded transcripts produce the
/// identical proof.
pub proof fn lemma_open_deterministic(
    g1: Seq<G1>,
    t0: merlin::Transcript,
    evals: Seq<Seq<Scalar>>,
    polys: Seq<Seq<Scalar>>,
    points: Seq<Scalar>,
    r1: G1,
    r2: G1,
)
    requires
        spec_open(g1, t0, evals, polys, points) == Ok::<G1, Error>(r1),
        spec_open(g1, t0, evals, polys, points) == Ok::<G1, Error>(r2),
    ensures
        r1 == r2,
{
}

/// Determinism of `verify`, in the same sense.
pub proof fn lemma_verify_deterministic(
    g1: Seq<G1>,
    g2: Seq<G2>,
    t0: merlin::Transcript,
    commits: Seq<G1>,
    points: Seq<Scalar>,
    evals: Seq<Seq<Scalar>>,
    pi: G1,
    r1: Result<bool, Error>,
    r2: Result<bool, Error>,
)
    requires
        r1 == spec_verify_full(g1, g2, t0, commits, points, evals, pi),
        r2 == spec_verify_full(g1, g2, t0, commits, points, evals, pi),
    ensures
        r1 == r2,
{
}

} // verus!
