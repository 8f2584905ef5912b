//! The split evaluation domain: a power-of-two base FFT domain factored
//! into a power-of-two number of disjoint equal cosets.
//!
//! Base-domain index `i` belongs to coset `i % num_chunks` at intra-coset
//! index `i / num_chunks`; the two index maps below are verified inverses
//! of each other, and `take_subgroup_indices` projects a full-domain
//! evaluation vector onto one coset accordingly.
use vstd::prelude::*;

use crate::arith::{
    domain_elements, domain_gen_of, domain_get_coset, domain_group_gen, domain_new, domain_of,
    domain_size_of, fr_of_u64, Domain, Scalar,
};
use crate::poly::{fr_pow, pow_of};

verus! {

/// `n` is a power of two.
pub open spec fn spec_pow2(n: int) -> bool
    decreases n,
{
    if n <= 0 {
        false
    } else if n == 1 {
        true
    } else {
        n % 2 == 0 && spec_pow2(n / 2)
    }
}

/// A power of two divides any power of two at least as large, the
/// quotient is again a power of two, and it is no larger than the
/// dividend.
pub proof fn lemma_pow2_div(a: int, b: int)
    requires
        spec_pow2(a),
        spec_pow2(b),
        b <= a,
    ensures
        a % b == 0,
        spec_pow2(a / b),
        a / b <= a,
    decreases b,
{
    if b == 1 {
        vstd::arithmetic::div_mod::lemma_div_basics(a);
        vstd::arithmetic::div_mod::lemma_mod_multiples_basic(a, 1);
    } else {
        lemma_pow2_div(a / 2, b / 2);
        let q = (a / 2) / (b / 2);
        vstd::arithmetic::div_mod::lemma_fundamental_div_mod(a, 2);
        vstd::arithmetic::div_mod::lemma_fundamental_div_mod(b, 2);
        vstd::arithmetic::div_mod::lemma_fundamental_div_mod(a / 2, b / 2);
        assert(a == b * q) by (nonlinear_arith)
            requires
                a == 2 * (a / 2) + a % 2,
                b == 2 * (b / 2) + b % 2,
                a % 2 == 0,
                b % 2 == 0,
                a / 2 == (b / 2) * q + (a / 2) % (b / 2),
                (a / 2) % (b / 2) == 0,
        ;
        vstd::arithmetic::div_mod::lemma_div_multiples_vanish(q, b);
        vstd::arithmetic::div_mod::lemma_mod_multiples_basic(q, b);
        assert(b * q == q * b) by (nonlinear_arith);
    }
}

/// Whether `n` is a power of two.
pub fn is_power_of_two(n: usize) -> (r: bool)
    ensures
        r == spec_pow2(n as int),
{
    if n == 0 {
        return false;
    }
    let mut m: usize = n;
    while m % 2 == 0
        invariant
            m >= 1,
            spec_pow2(n as int) == spec_pow2(m as int),
        decreases m,
    {
        m = m / 2;
    }
    m == 1
}

/// A base FFT domain of size `base_size` split into `num_chunks` disjoint
/// cosets of equal power-of-two size, each exposed as its own FFT-friendly
/// sub-domain.
pub struct SplitEvalDomain {
    pub(crate) base: Domain,
    pub(crate) subgroups: Vec<Domain>,
    pub(crate) base_size: usize,
    pub(crate) num_chunks: usize,
}

impl SplitEvalDomain {
    /// The base domain value.
    pub closed spec fn spec_base(&self) -> Domain {
        self.base
    }

    /// The coset sub-domains.
    pub closed spec fn spec_subgroups(&self) -> Seq<Domain> {
        self.subgroups@
    }

    /// The size of the base domain.
    pub closed spec fn spec_base_size(&self) -> int {
        self.base_size as int
    }

    /// The number of cosets.
    pub closed spec fn spec_num_chunks(&self) -> int {
        self.num_chunks as int
    }

    /// The size of each coset.
    pub open spec fn spec_sub_size(&self) -> int {
        self.spec_base_size() / self.spec_num_chunks()
    }

    /// Shape facts every operation relies on: both counts are powers of
    /// two, the chunks exactly divide the base, and every sub-domain has
    /// the common coset size.
    pub open spec fn wf(&self) -> bool {
        &&& spec_pow2(self.spec_base_size())
        &&& spec_pow2(self.spec_num_chunks())
        &&& 1 <= self.spec_num_chunks() <= self.spec_base_size()
        &&& self.spec_base_size() % self.spec_num_chunks() == 0
        &&& 1 <= self.spec_sub_size()
        &&& self.spec_num_chunks() * self.spec_sub_size() == self.spec_base_size()
        &&& domain_size_of(self.spec_base()) == self.spec_base_size()
        &&& self.spec_subgroups().len() == self.spec_num_chunks()
        &&& forall|k: int|
            0 <= k < self.spec_num_chunks() ==> domain_size_of(
                #[trigger] self.spec_subgroups()[k],
            ) == self.spec_sub_size()
    }

    /// The conditions under which a split is owed: both counts are powers
    /// of two within the field's two-adicity, and no coset offset (a power
    /// of the base generator) is zero -- powers of a root of unity never
    /// are, but the offsets are opaque here, so the condition is stated.
    pub open spec fn spec_can_split(base_size: usize, num_chunks: usize) -> bool {
        &&& spec_pow2(base_size as int)
        &&& spec_pow2(num_chunks as int)
        &&& num_chunks <= base_size
        &&& base_size <= 0x100000000
        &&& forall|k: nat|
            k < num_chunks ==> #[trigger] pow_of(domain_gen_of(domain_of(base_size as nat)), k)
                != fr_of_u64(0)
    }

    /// Splits a fresh base domain of size `base_size` into `num_chunks`
    /// cosets, coset `k` offset by the `k`-th power of the base generator.
    pub fn new(base_size: usize, num_chunks: usize) -> (r: Option<Self>)
        ensures
            r matches Some(s) ==> s.wf() && s.spec_base_size() == base_size && s.spec_num_chunks()
                == num_chunks,
            Self::spec_can_split(base_size, num_chunks) ==> r is Some,
    {
        proof {
            if spec_pow2(base_size as int) && spec_pow2(num_chunks as int) && num_chunks
                <= base_size {
                lemma_pow2_div(base_size as int, num_chunks as int);
            }
        }
        if !is_power_of_two(base_size) || !is_power_of_two(num_chunks) {
            return None;
        }
        if num_chunks == 0 || num_chunks > base_size || base_size % num_chunks != 0 {
            return None;
        }
        let sub_size: usize = base_size / num_chunks;
        if !is_power_of_two(sub_size) {
            return None;
        }
        proof {
            assert(sub_size >= 1);
            assert(num_chunks as int * sub_size as int == base_size as int) by {
                vstd::arithmetic::div_mod::lemma_fundamental_div_mod(
                    base_size as int,
                    num_chunks as int,
                );
            }
        }
        let base = match domain_new(base_size) {
            None => {
                return None;
            },
            Some(d) => d,
        };
        let small = match domain_new(sub_size) {
            None => {
                return None;
            },
            Some(d) => d,
        };
        let gen = domain_group_gen(&base);
        let mut subgroups: Vec<Domain> = Vec::new();
        let mut k: usize = 0;
        while k < num_chunks
            invariant
                k <= num_chunks,
                base == domain_of(base_size as nat),
                gen == domain_gen_of(base),
                domain_size_of(small) == sub_size,
                subgroups@.len() == k,
                forall|j: int|
                    0 <= j < k ==> domain_size_of(#[trigger] subgroups@[j]) == sub_size as int,
            decreases num_chunks - k,
        {
            let offset = fr_pow(&gen, k);
            let sub = match domain_get_coset(&small, offset) {
                None => {
                    proof {
                        assert(pow_of(domain_gen_of(domain_of(base_size as nat)), k as nat)
                            == fr_of_u64(0));
                    }
                    return None;
                },
                Some(c) => c,
            };
            subgroups.push(sub);
            k = k + 1;
        }
        Some(SplitEvalDomain { base, subgroups, base_size, num_chunks })
    }

    /// The base domain, for producing full-domain evaluation vectors.
    pub fn base(&self) -> (r: &Domain)
        ensures
            *r == self.spec_base(),
    {
        &self.base
    }

    /// The coset sub-domains, in coset order.
    pub fn subgroups(&self) -> (r: &Vec<Domain>)
        ensures
            r@ == self.spec_subgroups(),
    {
        &self.subgroups
    }

    /// The size of the base domain.
    pub fn base_size(&self) -> (r: usize)
        ensures
            r == self.spec_base_size(),
    {
        self.base_size
    }

    /// The number of cosets.
    pub fn num_chunks(&self) -> (r: usize)
        ensures
            r == self.spec_num_chunks(),
    {
        self.num_chunks
    }

    /// The size of each coset.
    pub fn sub_size(&self) -> (r: usize)
        requires
            self.wf(),
        ensures
            r == self.spec_sub_size(),
    {
        self.base_size / self.num_chunks
    }

    /// Evaluates a coefficient vector over the whole base domain (a
    /// forward FFT): what callers slice into per-coset evaluation vectors.
    pub fn evals_over_base(&self, coeffs: &Vec<Scalar>) -> (r: Vec<Scalar>)
        ensures
            r@ == crate::arith::domain_fft_of(self.spec_base(), coeffs@),
            r@.len() == domain_size_of(self.spec_base()),
    {
        crate::arith::domain_fft(&self.base, coeffs)
    }

    /// The elements of coset `k`, the points one proof attests to:
    /// element `i` is the coset's offset times the `i`-th power of its
    /// generator.
    pub fn subgroup_points(&self, k: usize) -> (r: Option<Vec<Scalar>>)
        requires
            self.wf(),
        ensures
            r is Some <==> k < self.spec_num_chunks(),
            r matches Some(v) ==> v@ == crate::arith::domain_elements_of(self.spec_subgroups()[k as int])
                && v@.len() == self.spec_sub_size() && (forall|i: int|
                0 <= i < v@.len() ==> v@[i] == crate::arith::fr_mul_of(
                    crate::arith::domain_offset_of(self.spec_subgroups()[k as int]),
                    #[trigger] pow_of(
                        domain_gen_of(self.spec_subgroups()[k as int]),
                        i as nat,
                    ),
                )),
    {
        if k >= self.num_chunks {
            return None;
        }
        Some(domain_elements(&self.subgroups[k]))
    }

    /// Which (coset, intra-coset) pair a base-domain index maps to.
    pub fn subgroup_index_of(&self, base_index: usize) -> (r: (usize, usize))
        requires
            self.wf(),
        ensures
            r.0 == base_index as int % self.spec_num_chunks(),
            r.1 == base_index as int / self.spec_num_chunks(),
    {
        (base_index % self.num_chunks, base_index / self.num_chunks)
    }

    /// Which base-domain index a (coset, intra-coset) pair comes from.
    pub fn base_index_of(&self, k: usize, j: usize) -> (r: usize)
        requires
            self.wf(),
            k < self.spec_num_chunks(),
            j < self.spec_sub_size(),
        ensures
            r == k + j * self.spec_num_chunks(),
            r < self.spec_base_size(),
    {
        proof {
            assert(k + j * self.spec_num_chunks() < self.spec_base_size()) by (nonlinear_arith)
                requires
                    k < self.spec_num_chunks(),
                    j < self.spec_sub_size(),
                    self.spec_num_chunks() * self.spec_sub_size() == self.spec_base_size(),
                    self.spec_num_chunks() >= 1,
            ;
        }
        k + j * self.num_chunks
    }

    /// Projects a full-domain evaluation vector onto coset `k`: entry `j`
    /// of the result is the base-domain entry at index `k + j * num_chunks`.
    pub fn take_subgroup_indices(&self, k: usize, v: Vec<Scalar>) -> (r: Option<Vec<Scalar>>)
        requires
            self.wf(),
        ensures
            r is Some <==> k < self.spec_num_chunks() && v@.len() == self.spec_base_size(),
            r matches Some(w) ==> w@.len() == self.spec_sub_size() && (forall|j: int|
                0 <= j < w@.len() ==> w@[j] == v@[k + j * self.spec_num_chunks()]),
    {
        if k >= self.num_chunks || v.len() != self.base_size {
            return None;
        }
        let s: usize = self.base_size / self.num_chunks;
        let mut out: Vec<Scalar> = Vec::new();
        let mut j: usize = 0;
        while j < s
            invariant
                j <= s,
                s == self.spec_sub_size(),
                self.wf(),
                k < self.spec_num_chunks(),
                v@.len() == self.spec_base_size(),
                out@.len() == j,
                forall|t: int| 0 <= t < j ==> out@[t] == v@[k + t * self.spec_num_chunks()],
            decreases s - j,
        {
            proof {
                assert(k + j * self.spec_num_chunks() < self.spec_base_size()) by (nonlinear_arith)
                    requires
                        k < self.spec_num_chunks(),
                        j < self.spec_sub_size(),
                        self.spec_num_chunks() * self.spec_sub_size() == self.spec_base_size(),
                        self.spec_num_chunks() >= 1,
                ;
            }
            out.push(v[k + j * self.num_chunks].clone());
            j = j + 1;
        }
        Some(out)
    }
}

/// The two index maps are inverse bijections between base-domain indices
/// and (coset, intra-coset) pairs.
pub proof fn lemma_index_bijection(num: int, s: int, i: int)
    requires
        num >= 1,
        s >= 1,
        0 <= i < num * s,
    ensures
        i % num + (i / num) * num == i,
        0 <= i % num < num,
        0 <= i / num < s,
{
    vstd::arithmetic::div_mod::lemma_fundamental_div_mod(i, num);
    vstd::arithmetic::div_mod::lemma_mod_bound(i, num);
    assert(i % num + (i / num) * num == i) by (nonlinear_arith)
        requires
            i == num * (i / num) + i % num,
    ;
    assert(0 <= i / num < s) by (nonlinear_arith)
        requires
            num >= 1,
            s >= 1,
            0 <= i < num * s,
            i == num * (i / num) + i % num,
            0 <= i % num < num,
    ;
}

} // verus!
