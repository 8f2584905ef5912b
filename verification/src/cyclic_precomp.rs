//! Coset/FFT-optimized precomputation: every point set is one coset of a
//! power-of-two evaluation domain split into a power-of-two number of
//! equal cosets.
//!
//! Coset `k` has vanishing polynomial `X^s - h^s` in closed form, where
//! `s` is the coset size and `h = g^k` the coset offset (`g` the base
//! domain's generator), so its G2 commitment costs two scalar
//! multiplications, interpolation is one inverse FFT over the coset, and
//! polynomial division uses the sparse divisor's two-term recurrence.
use vstd::prelude::*;

use crate::arith::{
    domain_elements, domain_elements_of, domain_gen_of, domain_group_gen, domain_ifft,
    domain_ifft_of, fr_from_u64, fr_of_u64, fr_sub, fr_sub_of, pairing_check, pairing_check_of,
    Domain, Scalar, G1, G2,
};
use crate::domain::{is_power_of_two, spec_pow2, SplitEvalDomain};
use crate::method1::{commits_view, spec_commit, Commitment, M1NoPrecomp, Proof};
use crate::msm::{curve_msm_g1, curve_msm_g2, spec_msm_g1, spec_msm_g2};
use crate::poly::{
    divide_sparse, fr_pow, gen_powers, linear_combination, lemma_rows_view, pow_of, rows_view,
    spec_div_sparse, spec_lin_comb, spec_powers,
};
use crate::transcript::{
    get_challenge, spec_after_challenge, spec_challenge_scalar, spec_transcribe,
    transcribe_points_and_evals,
};
use crate::Error;

verus! {

/// The closed-form vanishing polynomial of a coset: `X^s - cpow` where
/// `cpow` is the coset offset raised to the coset size `s`.
pub open spec fn spec_coset_z(s: nat, cpow: Scalar) -> Seq<Scalar> {
    Seq::new(
        (s + 1) as nat,
        |j: int|
            if j == 0 {
                fr_sub_of(fr_of_u64(0), cpow)
            } else if j == s {
                fr_of_u64(1)
            } else {
                fr_of_u64(0)
            },
    )
}

/// The offset of coset `k` (the `k`-th power of the base generator),
/// raised to the coset size.
pub open spec fn spec_offset_pow(base: Domain, k: int, s: nat) -> Scalar {
    pow_of(pow_of(domain_gen_of(base), k as nat), s)
}

/// Every evaluation row has exactly `s` entries.
pub open spec fn spec_rows_len(evals: Seq<Seq<Scalar>>, s: int) -> bool {
    forall|i: int| 0 <= i < evals.len() ==> (#[trigger] evals[i]).len() == s
}

/// The full outcome of the coset-variant `open` against coset `idx`.
pub open spec fn spec_cyclic_open(
    g1: Seq<G1>,
    subs: Seq<Domain>,
    s: nat,
    gen: Scalar,
    t0: merlin::Transcript,
    evals: Seq<Seq<Scalar>>,
    polys: Seq<Seq<Scalar>>,
    idx: usize,
) -> Result<G1, Error> {
    if evals.len() != polys.len() {
        Err(Error::SizeMismatch)
    } else if evals.len() == 0 {
        Err(Error::EmptyInput)
    } else if !spec_rows_len(evals, s as int) {
        Err(Error::SizeMismatch)
    } else if idx >= subs.len() {
        Err(Error::IndexOutOfRange { index: idx })
    } else {
        let points = domain_elements_of(subs[idx as int]);
        let gamma = spec_challenge_scalar(spec_transcribe(t0, points, evals));
        let gammas = spec_powers(gamma, polys.len());
        let fsum = spec_lin_comb(polys, gammas);
        let q = spec_div_sparse(fsum, s, pow_of(pow_of(gen, idx as nat), s));
        if q.len() > g1.len() {
            Err(Error::SizeMismatch)
        } else {
            Ok(spec_msm_g1(g1.take(q.len() as int), q))
        }
    }
}

/// The full outcome of the coset-variant `verify` against coset `idx`,
/// with `g2zs` the cached G2 commitments of the coset vanishing
/// polynomials.
pub open spec fn spec_cyclic_verify(
    g1: Seq<G1>,
    g2: Seq<G2>,
    subs: Seq<Domain>,
    s: nat,
    t0: merlin::Transcript,
    commits: Seq<G1>,
    evals: Seq<Seq<Scalar>>,
    pi: G1,
    g2zs: Seq<G2>,
    idx: usize,
) -> Result<bool, Error> {
    if commits.len() != evals.len() {
        Err(Error::SizeMismatch)
    } else if evals.len() == 0 {
        Err(Error::EmptyInput)
    } else if !spec_rows_len(evals, s as int) {
        Err(Error::SizeMismatch)
    } else if idx >= subs.len() {
        Err(Error::IndexOutOfRange { index: idx })
    } else {
        let points = domain_elements_of(subs[idx as int]);
        let gamma = spec_challenge_scalar(spec_transcribe(t0, points, evals));
        let gammas = spec_powers(gamma, evals.len());
        let coeffs = domain_ifft_of(subs[idx as int], spec_lin_comb(evals, gammas));
        if coeffs.len() > g1.len() {
            Err(Error::SizeMismatch)
        } else {
            let ris_pt = spec_msm_g1(g1.take(coeffs.len() as int), coeffs);
            let cm_pt = spec_msm_g1(commits, gammas);
            if g2.len() == 0 {
                Err(Error::SizeMismatch)
            } else {
                Ok(pairing_check_of(cm_pt, ris_pt, g2[0], pi, g2zs[idx as int]))
            }
        }
    }
}

/// The transcript state a coset-variant call leaves behind.
pub open spec fn spec_cyclic_tstate(
    subs: Seq<Domain>,
    s: nat,
    t0: merlin::Transcript,
    evals: Seq<Seq<Scalar>>,
    n_partners: int,
    idx: usize,
) -> merlin::Transcript {
    if evals.len() != n_partners || evals.len() == 0 || !spec_rows_len(evals, s as int) || idx
        >= subs.len() {
        t0
    } else {
        spec_after_challenge(spec_transcribe(t0, domain_elements_of(subs[idx as int]), evals))
    }
}

/// Checks the shapes an opening takes: as many evaluation vectors as
/// polynomials, at least one of each, and every evaluation vector of the
/// coset size.
pub fn check_opening_sizes(evals: &Vec<Vec<Scalar>>, polys: &Vec<Vec<Scalar>>, n: usize) -> (r:
    Result<(), Error>)
    ensures
        r is Ok <==> evals@.len() == polys@.len() && evals@.len() >= 1 && spec_rows_len(
            rows_view(evals@),
            n as int,
        ),
        evals@.len() != polys@.len() ==> r == Err::<(), Error>(Error::SizeMismatch),
        evals@.len() == polys@.len() && evals@.len() == 0 ==> r == Err::<(), Error>(
            Error::EmptyInput,
        ),
        r is Err && evals@.len() == polys@.len() && evals@.len() >= 1 ==> r == Err::<(), Error>(
            Error::SizeMismatch,
        ),
{
    proof {
        lemma_rows_view(evals@);
    }
    if evals.len() != polys.len() {
        return Err(Error::SizeMismatch);
    }
    if evals.len() == 0 {
        return Err(Error::EmptyInput);
    }
    let mut i: usize = 0;
    while i < evals.len()
        invariant
            i <= evals@.len(),
            forall|j: int| 0 <= j < i ==> evals@[j]@.len() == n,
        decreases evals@.len() - i,
    {
        if evals[i].len() != n {
            proof {
                assert(rows_view(evals@)[i as int] == evals@[i as int]@);
            }
            return Err(Error::SizeMismatch);
        }
        i = i + 1;
    }
    proof {
        assert forall|j: int| 0 <= j < rows_view(evals@).len() implies (#[trigger] rows_view(
            evals@,
        )[j]).len() == n as int by {
            assert(rows_view(evals@)[j] == evals@[j]@);
        }
    }
    Ok(())
}

/// Checks the shapes a verification takes: one commitment per evaluation
/// vector, at least one of each, and every evaluation vector of the coset
/// size.
pub fn check_verify_sizes(commits: &Vec<Commitment>, evals: &Vec<Vec<Scalar>>, n: usize) -> (r:
    Result<(), Error>)
    ensures
        r is Ok <==> commits@.len() == evals@.len() && evals@.len() >= 1 && spec_rows_len(
            rows_view(evals@),
            n as int,
        ),
        commits@.len() != evals@.len() ==> r == Err::<(), Error>(Error::SizeMismatch),
        commits@.len() == evals@.len() && evals@.len() == 0 ==> r == Err::<(), Error>(
            Error::EmptyInput,
        ),
        r is Err && commits@.len() == evals@.len() && evals@.len() >= 1 ==> r == Err::<(), Error>(
            Error::SizeMismatch,
        ),
{
    proof {
        lemma_rows_view(evals@);
    }
    if commits.len() != evals.len() {
        return Err(Error::SizeMismatch);
    }
    if evals.len() == 0 {
        return Err(Error::EmptyInput);
    }
    let mut i: usize = 0;
    while i < evals.len()
        invariant
            i <= evals@.len(),
            forall|j: int| 0 <= j < i ==> evals@[j]@.len() == n,
        decreases evals@.len() - i,
    {
        if evals[i].len() != n {
            proof {
                assert(rows_view(evals@)[i as int] == evals@[i as int]@);
            }
            return Err(Error::SizeMismatch);
        }
        i = i + 1;
    }
    proof {
        assert forall|j: int| 0 <= j < rows_view(evals@).len() implies (#[trigger] rows_view(
            evals@,
        )[j]).len() == n as int by {
            assert(rows_view(evals@)[j] == evals@[j]@);
        }
    }
    Ok(())
}

/// The base scheme together with a split evaluation domain and the cached
/// G2 commitments of each coset's closed-form vanishing polynomial.
pub struct M1CyclPrecomp {
    /// The scheme without precomputation.
    pub inner: M1NoPrecomp,
    pub(crate) split_domain: SplitEvalDomain,
    pub(crate) g2_zeros: Vec<G2>,
}

impl M1CyclPrecomp {
    /// The scheme the tables were derived from.
    pub closed spec fn spec_inner(&self) -> M1NoPrecomp {
        self.inner
    }

    /// The split domain whose cosets are the point sets.
    pub closed spec fn spec_split_domain(&self) -> SplitEvalDomain {
        self.split_domain
    }

    /// The cached tables are exactly the closed-form coset vanishing
    /// polynomials committed into G2.
    pub closed spec fn wf(&self) -> bool {
        &&& self.split_domain.wf()
        &&& self.g2_zeros@.len() == self.split_domain.spec_num_chunks()
        &&& self.split_domain.spec_sub_size() + 1 <= self.inner.powers_of_g2@.len()
        &&& forall|k: int|
            0 <= k < self.g2_zeros@.len() ==> #[trigger] self.g2_zeros@[k] == spec_msm_g2(
                self.inner.powers_of_g2@.take(self.split_domain.spec_sub_size() + 1),
                spec_coset_z(
                    self.split_domain.spec_sub_size() as nat,
                    spec_offset_pow(
                        self.split_domain.spec_base(),
                        k,
                        self.split_domain.spec_sub_size() as nat,
                    ),
                ),
            )
    }

    /// Builds the split domain and commits each coset's vanishing
    /// polynomial into G2. Fails, reporting the offending size, when
    /// `base_size` or `num_point_sets` is not a power of two or exceeds the
    /// base, when the SRS holds fewer than `base_size` G1 powers or not
    /// more than coset-size G2 powers, or when the FFT domain cannot be
    /// built; on good sizes within the field's two-adicity (and nonzero
    /// coset offsets, which powers of a root of unity always are), it
    /// succeeds.
    pub fn from_inner(inner: M1NoPrecomp, base_size: usize, num_point_sets: usize) -> (r: Result<
        M1CyclPrecomp,
        Error,
    >)
        ensures
            !spec_pow2(base_size as int) ==> r == Err::<M1CyclPrecomp, Error>(
                Error::ConstructionError { size: base_size },
            ),
            spec_pow2(base_size as int) && (!spec_pow2(num_point_sets as int) || num_point_sets
                > base_size) ==> r == Err::<M1CyclPrecomp, Error>(
                Error::ConstructionError { size: num_point_sets },
            ),
            spec_pow2(base_size as int) && spec_pow2(num_point_sets as int) && num_point_sets
                <= base_size && inner.powers_of_g1@.len() < base_size ==> r == Err::<
                M1CyclPrecomp,
                Error,
            >(Error::ConstructionError { size: base_size }),
            spec_pow2(base_size as int) && spec_pow2(num_point_sets as int) && num_point_sets
                <= base_size && inner.powers_of_g1@.len() >= base_size && inner.powers_of_g2@.len()
                <= base_size as int / num_point_sets as int ==> r == Err::<M1CyclPrecomp, Error>(
                Error::ConstructionError { size: inner.powers_of_g2@.len() as usize },
            ),
            spec_pow2(base_size as int) && spec_pow2(num_point_sets as int) && num_point_sets
                <= base_size && inner.powers_of_g1@.len() >= base_size && inner.powers_of_g2@.len()
                > base_size as int / num_point_sets as int && SplitEvalDomain::spec_can_split(
                base_size,
                num_point_sets,
            ) ==> r is Ok,
            r matches Ok(c) ==> c.wf() && c.spec_inner() == inner
                && c.spec_split_domain().spec_base_size() == base_size
                && c.spec_split_domain().spec_num_chunks() == num_point_sets,
            r is Err ==> (r == Err::<M1CyclPrecomp, Error>(
                Error::ConstructionError { size: base_size },
            ) || r == Err::<M1CyclPrecomp, Error>(
                Error::ConstructionError { size: num_point_sets },
            ) || r == Err::<M1CyclPrecomp, Error>(
                Error::ConstructionError { size: inner.powers_of_g2@.len() as usize },
            )),
    {
        if !is_power_of_two(base_size) {
            return Err(Error::ConstructionError { size: base_size });
        }
        if !is_power_of_two(num_point_sets) || num_point_sets > base_size {
            return Err(Error::ConstructionError { size: num_point_sets });
        }
        if inner.powers_of_g1.len() < base_size {
            return Err(Error::ConstructionError { size: base_size });
        }
        let want_sub: usize = base_size / num_point_sets;
        if inner.powers_of_g2.len() <= want_sub {
            let n = inner.powers_of_g2.len();
            return Err(Error::ConstructionError { size: n });
        }
        let split_domain = match SplitEvalDomain::new(base_size, num_point_sets) {
            None => {
                return Err(Error::ConstructionError { size: base_size });
            },
            Some(s) => s,
        };
        let sub_size = split_domain.sub_size();
        proof {
            assert(sub_size == want_sub);
        }
        let gen = domain_group_gen(split_domain.base());
        let zero = fr_from_u64(0);
        let one = fr_from_u64(1);
        let mut g2_zeros: Vec<G2> = Vec::new();
        let mut k: usize = 0;
        while k < num_point_sets
            invariant
                k <= num_point_sets,
                split_domain.wf(),
                split_domain.spec_num_chunks() == num_point_sets,
                sub_size == split_domain.spec_sub_size(),
                sub_size + 1 <= inner.powers_of_g2@.len(),
                gen == domain_gen_of(split_domain.spec_base()),
                zero == fr_of_u64(0),
                one == fr_of_u64(1),
                g2_zeros@.len() == k,
                forall|j: int|
                    0 <= j < k ==> #[trigger] g2_zeros@[j] == spec_msm_g2(
                        inner.powers_of_g2@.take(split_domain.spec_sub_size() + 1),
                        spec_coset_z(
                            split_domain.spec_sub_size() as nat,
                            spec_offset_pow(
                                split_domain.spec_base(),
                                j,
                                split_domain.spec_sub_size() as nat,
                            ),
                        ),
                    ),
            decreases num_point_sets - k,
        {
            let offset = fr_pow(&gen, k);
            let cpow = fr_pow(&offset, sub_size);
            let mut z: Vec<Scalar> = Vec::new();
            z.push(fr_sub(zero.clone(), cpow));
            let mut j: usize = 1;
            while j < sub_size
                invariant
                    1 <= j <= sub_size,
                    zero == fr_of_u64(0),
                    z@.len() == j,
                    z@[0] == fr_sub_of(
                        fr_of_u64(0),
                        pow_of(pow_of(gen, k as nat), sub_size as nat),
                    ),
                    forall|t: int| 1 <= t < j ==> z@[t] == fr_of_u64(0),
                decreases sub_size - j,
            {
                z.push(zero.clone());
                j = j + 1;
            }
            z.push(one.clone());
            proof {
                assert(z@ =~= spec_coset_z(
                    sub_size as nat,
                    spec_offset_pow(split_domain.spec_base(), k as int, sub_size as nat),
                ));
            }
            let g2z = match curve_msm_g2(&inner.powers_of_g2, &z, inner.backend) {
                Err(e) => {
                    proof {
                        // the preceding checks make this arm unreachable
                        assert(false);
                    }
                    return Err(e);
                },
                Ok(p) => p,
            };
            g2_zeros.push(g2z);
            k = k + 1;
        }
        Ok(M1CyclPrecomp { inner, split_domain, g2_zeros })
    }

    /// The split domain: callers use it to map a base-domain index to a
    /// (coset, intra-coset) index and to project evaluation vectors onto
    /// one coset.
    pub fn point_sets(&self) -> (r: &SplitEvalDomain)
        ensures
            *r == self.spec_split_domain(),
    {
        &self.split_domain
    }

    /// Commits through the inner scheme.
    pub fn commit(&self, coeffs: &Vec<Scalar>) -> (r: Result<Commitment, Error>)
        ensures
            ({
                let s = spec_commit(self.spec_inner().powers_of_g1@, coeffs@);
                match r {
                    Ok(c) => s matches Ok(g) && c.0 == g,
                    Err(e) => s == Err::<G1, Error>(e),
                }
            }),
    {
        self.inner.commit(coeffs)
    }

    /// Opens against coset `point_set_index`: the batched polynomial is
    /// divided by the coset's sparse vanishing polynomial `X^s - h^s`.
    pub fn open(
        &self,
        transcript: &mut merlin::Transcript,
        evals: &Vec<Vec<Scalar>>,
        polys: &Vec<Vec<Scalar>>,
        point_set_index: usize,
    ) -> (r: Result<Proof, Error>)
        requires
            self.wf(),
        ensures
            ({
                let s = spec_cyclic_open(
                    self.spec_inner().powers_of_g1@,
                    self.spec_split_domain().spec_subgroups(),
                    self.spec_split_domain().spec_sub_size() as nat,
                    domain_gen_of(self.spec_split_domain().spec_base()),
                    *old(transcript),
                    rows_view(evals@),
                    rows_view(polys@),
                    point_set_index,
                );
                match r {
                    Ok(p) => s matches Ok(g) && p.0 == g,
                    Err(e) => s == Err::<G1, Error>(e),
                }
            }),
            *final(transcript) == spec_cyclic_tstate(
                self.spec_split_domain().spec_subgroups(),
                self.spec_split_domain().spec_sub_size() as nat,
                *old(transcript),
                rows_view(evals@),
                polys@.len() as int,
                point_set_index,
            ),
    {
        proof {
            lemma_rows_view(evals@);
            lemma_rows_view(polys@);
        }
        let sub_size = self.split_domain.sub_size();
        match check_opening_sizes(evals, polys, sub_size) {
            Err(e) => {
                return Err(e);
            },
            Ok(u) => {
                u
            },
        };
        if point_set_index >= self.split_domain.num_chunks() {
            return Err(Error::IndexOutOfRange { index: point_set_index });
        }
        let points = domain_elements(&self.split_domain.subgroups()[point_set_index]);
        match transcribe_points_and_evals(transcript, &points, evals) {
            Err(e) => {
                proof {
                    // the preceding checks make this arm unreachable
                    assert(false);
                }
                return Err(e);
            },
            Ok(u) => {
                u
            },
        };
        let gamma = get_challenge(transcript);
        let gammas = gen_powers(gamma, polys.len());
        let fsum = match linear_combination(polys, &gammas) {
            None => {
                proof {
                    // the preceding checks make this arm unreachable
                    assert(false);
                }
                return Err(Error::EmptyInput);
            },
            Some(f) => f,
        };
        let gen = domain_group_gen(self.split_domain.base());
        let offset = fr_pow(&gen, point_set_index);
        let cpow = fr_pow(&offset, sub_size);
        let q = divide_sparse(fsum, sub_size, &cpow);
        match curve_msm_g1(&self.inner.powers_of_g1, &q, self.inner.backend) {
            Ok(pt) => Ok(Proof(pt)),
            Err(e) => Err(e),
        }
    }

    /// Verifies against coset `point_set_index`: interpolation is one
    /// inverse FFT over the coset, and the pairing equation uses the
    /// cached G2 commitment of the coset vanishing polynomial.
    pub fn verify(
        &self,
        transcript: &mut merlin::Transcript,
        commits: &Vec<Commitment>,
        point_set_index: usize,
        evals: &Vec<Vec<Scalar>>,
        proof: &Proof,
    ) -> (r: Result<bool, Error>)
        requires
            self.wf(),
        ensures
            r == spec_cyclic_verify(
                self.spec_inner().powers_of_g1@,
                self.spec_inner().powers_of_g2@,
                self.spec_split_domain().spec_subgroups(),
                self.spec_split_domain().spec_sub_size() as nat,
                *old(transcript),
                commits_view(commits@),
                rows_view(evals@),
                proof.0,
                self.spec_g2_zeros(),
                point_set_index,
            ),
            *final(transcript) == spec_cyclic_tstate(
                self.spec_split_domain().spec_subgroups(),
                self.spec_split_domain().spec_sub_size() as nat,
                *old(transcript),
                rows_view(evals@),
                commits@.len() as int,
                point_set_index,
            ),
    {
        proof {
            lemma_rows_view(evals@);
        }
        let sub_size = self.split_domain.sub_size();
        match check_verify_sizes(commits, evals, sub_size) {
            Err(e) => {
                return Err(e);
            },
            Ok(u) => {
                u
            },
        };
        if point_set_index >= self.split_domain.num_chunks() {
            return Err(Error::IndexOutOfRange { index: point_set_index });
        }
        let points = domain_elements(&self.split_domain.subgroups()[point_set_index]);
        match transcribe_points_and_evals(transcript, &points, evals) {
            Err(e) => {
                proof {
                    // the preceding checks make this arm unreachable
                    assert(false);
                }
                return Err(e);
            },
            Ok(u) => {
                u
            },
        };
        let gamma = get_challenge(transcript);
        let gammas = gen_powers(gamma, evals.len());
        let gamma_ris = match linear_combination(evals, &gammas) {
            None => {
                proof {
                    // the preceding checks make this arm unreachable
                    assert(false);
                }
                return Err(Error::EmptyInput);
            },
            Some(v) => v,
        };
        let coeffs = domain_ifft(&self.split_domain.subgroups()[point_set_index], &gamma_ris);
        let gamma_ris_pt = match curve_msm_g1(&self.inner.powers_of_g1, &coeffs, self.inner.backend)
            {
            Err(e) => {
                return Err(e);
            },
            Ok(p) => p,
        };
        let cms = crate::method1::commits_to_points(commits);
        let gamma_cm_pt = match curve_msm_g1(&cms, &gammas, self.inner.backend) {
            Err(e) => {
                proof {
                    // the preceding checks make this arm unreachable
                    assert(false);
                }
                return Err(e);
            },
            Ok(p) => p,
        };
        proof {
            assert(commits_view(commits@).take(commits@.len() as int) =~= commits_view(commits@));
        }
        if self.inner.powers_of_g2.len() == 0 {
            return Err(Error::SizeMismatch);
        }
        let g2_first = self.inner.powers_of_g2[0].clone();
        let g2z = self.g2_zeros[point_set_index].clone();
        Ok(pairing_check(gamma_cm_pt, gamma_ris_pt, g2_first, proof.0.clone(), g2z))
    }

    /// The cached G2 commitments, by coset.
    pub closed spec fn spec_g2_zeros(&self) -> Seq<G2> {
        self.g2_zeros@
    }
}

} // verus!
