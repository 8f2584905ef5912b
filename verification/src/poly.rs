//! Verified polynomial algebra over the scalar field.
//!
//! A polynomial is a coefficient vector, lowest degree first. Every
//! operation is specified by a spec-level recurrence over the named field
//! operations of [`crate::arith`], and each executable function returns
//! exactly the value of its recurrence.
use vstd::prelude::*;

use crate::arith::{
    fr_add, fr_add_of, fr_from_u64, fr_inv_of, fr_inverse, fr_mul, fr_mul_of, fr_of_u64, fr_sub,
    fr_sub_of, Scalar,
};
use crate::Error;

verus! {

/// Coefficient `i` of `s`, zero when `i` is out of range.
pub open spec fn coeff_or_zero(s: Seq<Scalar>, i: int) -> Scalar {
    if 0 <= i < s.len() {
        s[i]
    } else {
        fr_of_u64(0)
    }
}

/// `x^k` as the `k`-fold product `1 * x * ... * x`.
pub open spec fn pow_of(x: Scalar, k: nat) -> Scalar
    decreases k,
{
    if k == 0 {
        fr_of_u64(1)
    } else {
        fr_mul_of(pow_of(x, (k - 1) as nat), x)
    }
}

/// The first `n` powers of `x`: `[1, x, x^2, ..., x^(n-1)]`.
pub open spec fn spec_powers(x: Scalar, n: nat) -> Seq<Scalar> {
    Seq::new(n, |i: int| pow_of(x, i as nat))
}

/// `c * p`, coefficient-wise.
pub open spec fn spec_scale(c: Scalar, p: Seq<Scalar>) -> Seq<Scalar> {
    Seq::new(p.len(), |i: int| fr_mul_of(c, p[i]))
}

/// `a + b` as polynomials: coefficient-wise where both are present, the
/// surviving coefficient where only one is.
pub open spec fn spec_padded_add(a: Seq<Scalar>, b: Seq<Scalar>) -> Seq<Scalar> {
    Seq::new(
        if a.len() >= b.len() {
            a.len()
        } else {
            b.len()
        },
        |i: int|
            if i < a.len() && i < b.len() {
                fr_add_of(a[i], b[i])
            } else if i < a.len() {
                a[i]
            } else {
                b[i]
            },
    )
}

/// `sum_i gammas[i] * polys[i]` as a polynomial.
pub open spec fn spec_lin_comb(polys: Seq<Seq<Scalar>>, gammas: Seq<Scalar>) -> Seq<Scalar>
    recommends
        gammas.len() >= polys.len(),
    decreases polys.len(),
{
    if polys.len() == 0 {
        Seq::empty()
    } else {
        spec_padded_add(
            spec_lin_comb(polys.drop_last(), gammas),
            spec_scale(gammas[polys.len() - 1], polys.last()),
        )
    }
}

/// `(X - p) * c`.
pub open spec fn spec_mul_linear(c: Seq<Scalar>, p: Scalar) -> Seq<Scalar> {
    Seq::new(
        c.len() + 1,
        |i: int| fr_sub_of(coeff_or_zero(c, i - 1), fr_mul_of(p, coeff_or_zero(c, i))),
    )
}

/// The vanishing polynomial of `points`: `prod_i (X - points[i])`, built by
/// repeated multiplication by a linear factor, starting from the constant
/// polynomial one.
pub open spec fn spec_vanishing(points: Seq<Scalar>) -> Seq<Scalar>
    decreases points.len(),
{
    if points.len() == 0 {
        seq![fr_of_u64(1)]
    } else {
        spec_mul_linear(spec_vanishing(points.drop_last()), points.last())
    }
}

pub proof fn lemma_vanishing_len(points: Seq<Scalar>)
    ensures
        spec_vanishing(points).len() == points.len() + 1,
    decreases points.len(),
{
    if points.len() > 0 {
        lemma_vanishing_len(points.drop_last());
    }
}

/// Long division of `f` by `d`, by synthetic division from the top
/// coefficient down: each step cancels the leading coefficient of the
/// running remainder against `lead(f) / lead(d)` times a shift of `d`.
/// Returns (quotient, remainder).
pub open spec fn spec_div_qr(f: Seq<Scalar>, d: Seq<Scalar>) -> (Seq<Scalar>, Seq<Scalar>)
    recommends
        d.len() >= 1,
    decreases f.len(),
{
    if d.len() == 0 || f.len() < d.len() {
        (Seq::empty(), f)
    } else {
        let k = f.len() - d.len();
        let lead = fr_mul_of(f.last(), fr_inv_of(d.last()));
        let f2 = Seq::new(
            (f.len() - 1) as nat,
            |j: int|
                if j >= k {
                    fr_sub_of(f[j], fr_mul_of(lead, d[j - k]))
                } else {
                    f[j]
                },
        );
        let qr = spec_div_qr(f2, d);
        (qr.0.push(lead), qr.1)
    }
}

/// Quotient of `f` by the sparse monic binomial `X^s - c` (`s >= 1`): a
/// synthetic division in which each step moves `c` times the leading
/// coefficient down `s` places. The remainder (the low `s` coefficients of
/// the final state) is discarded.
pub open spec fn spec_div_sparse(f: Seq<Scalar>, s: nat, c: Scalar) -> Seq<Scalar>
    recommends
        s >= 1,
    decreases f.len(),
{
    if s == 0 || f.len() <= s {
        Seq::empty()
    } else {
        let k = f.len() - 1 - s;
        let lead = f.last();
        let f2 = Seq::new(
            (f.len() - 1) as nat,
            |j: int|
                if j == k {
                    fr_add_of(f[j], fr_mul_of(c, lead))
                } else {
                    f[j]
                },
        );
        spec_div_sparse(f2, s, c).push(lead)
    }
}

/// Horner evaluation of `c` at `x`.
pub open spec fn spec_eval(c: Seq<Scalar>, x: Scalar) -> Scalar
    decreases c.len(),
{
    if c.len() == 0 {
        fr_of_u64(0)
    } else {
        fr_add_of(c.first(), fr_mul_of(x, spec_eval(c.drop_first(), x)))
    }
}

/// The first `n` powers of `x`, lowest first.
pub fn gen_powers(x: Scalar, n: usize) -> (r: Vec<Scalar>)
    ensures
        r@ == spec_powers(x, n as nat),
{
    let mut out: Vec<Scalar> = Vec::new();
    let mut acc: Scalar = fr_from_u64(1);
    let mut i: usize = 0;
    while i < n
        invariant
            i <= n,
            out@.len() == i,
            acc == pow_of(x, i as nat),
            forall|j: int| 0 <= j < i ==> out@[j] == pow_of(x, j as nat),
        decreases n - i,
    {
        out.push(acc.clone());
        acc = fr_mul(acc, x.clone());
        i = i + 1;
    }
    assert(out@ =~= spec_powers(x, n as nat));
    out
}

/// `x^k` by repeated multiplication.
pub fn fr_pow(x: &Scalar, k: usize) -> (r: Scalar)
    ensures
        r == pow_of(*x, k as nat),
{
    let mut acc: Scalar = fr_from_u64(1);
    let mut i: usize = 0;
    while i < k
        invariant
            i <= k,
            acc == pow_of(*x, i as nat),
        decreases k - i,
    {
        acc = fr_mul(acc, x.clone());
        i = i + 1;
    }
    acc
}

/// `c * p`, coefficient-wise.
pub fn scale_poly(c: &Scalar, p: &Vec<Scalar>) -> (r: Vec<Scalar>)
    ensures
        r@ == spec_scale(*c, p@),
{
    let mut out: Vec<Scalar> = Vec::new();
    let mut i: usize = 0;
    while i < p.len()
        invariant
            i <= p@.len(),
            out@.len() == i,
            forall|j: int| 0 <= j < i ==> out@[j] == fr_mul_of(*c, p@[j]),
        decreases p@.len() - i,
    {
        out.push(fr_mul(c.clone(), p[i].clone()));
        i = i + 1;
    }
    assert(out@ =~= spec_scale(*c, p@));
    out
}

/// `a + b` as polynomials, the longer length winning.
pub fn padded_add(a: &Vec<Scalar>, b: &Vec<Scalar>) -> (r: Vec<Scalar>)
    ensures
        r@ == spec_padded_add(a@, b@),
{
    let n: usize = if a.len() >= b.len() {
        a.len()
    } else {
        b.len()
    };
    let mut out: Vec<Scalar> = Vec::new();
    let mut i: usize = 0;
    while i < n
        invariant
            i <= n,
            n == spec_padded_add(a@, b@).len(),
            out@.len() == i,
            forall|j: int| 0 <= j < i ==> out@[j] == spec_padded_add(a@, b@)[j],
        decreases n - i,
    {
        let v: Scalar = if i < a.len() && i < b.len() {
            fr_add(a[i].clone(), b[i].clone())
        } else if i < a.len() {
            a[i].clone()
        } else {
            b[i].clone()
        };
        out.push(v);
        i = i + 1;
    }
    assert(out@ =~= spec_padded_add(a@, b@));
    out
}

/// The view of each row of a vector of coefficient vectors.
pub open spec fn rows_view(rows: Seq<Vec<Scalar>>) -> Seq<Seq<Scalar>> {
    rows.map_values(|v: Vec<Scalar>| v@)
}

/// `sum_i gammas[i] * polys[i]`; `None` exactly when no polynomials are
/// given.
pub fn linear_combination(polys: &Vec<Vec<Scalar>>, gammas: &Vec<Scalar>) -> (r: Option<
    Vec<Scalar>,
>)
    requires
        gammas@.len() >= polys@.len(),
    ensures
        r is None <==> polys@.len() == 0,
        r matches Some(v) ==> v@ == spec_lin_comb(rows_view(polys@), gammas@),
{
    if polys.len() == 0 {
        return None;
    }
    let mut acc: Vec<Scalar> = Vec::new();
    assert(rows_view(polys@).take(0) =~= Seq::<Seq<Scalar>>::empty());
    assert(spec_lin_comb(Seq::<Seq<Scalar>>::empty(), gammas@) == Seq::<Scalar>::empty());
    let mut i: usize = 0;
    while i < polys.len()
        invariant
            i <= polys@.len(),
            gammas@.len() >= polys@.len(),
            acc@ == spec_lin_comb(rows_view(polys@).take(i as int), gammas@),
        decreases polys@.len() - i,
    {
        let scaled = scale_poly(&gammas[i], &polys[i]);
        acc = padded_add(&acc, &scaled);
        assert(rows_view(polys@).take(i + 1).drop_last() =~= rows_view(polys@).take(i as int));
        assert(rows_view(polys@).take(i + 1).last() == polys@[i as int]@);
        i = i + 1;
    }
    assert(rows_view(polys@).take(polys@.len() as int) =~= rows_view(polys@));
    Some(acc)
}

/// `(X - p) * c`.
fn mul_linear(c: &Vec<Scalar>, p: &Scalar) -> (r: Vec<Scalar>)
    ensures
        r@ == spec_mul_linear(c@, *p),
{
    let mut out: Vec<Scalar> = Vec::new();
    let mut i: usize = 0;
    let zero: Scalar = fr_from_u64(0);
    while i < c.len()
        invariant
            i <= c@.len(),
            zero == fr_of_u64(0),
            out@.len() == i,
            forall|j: int| 0 <= j < i ==> out@[j] == spec_mul_linear(c@, *p)[j],
        decreases c@.len() - i,
    {
        let lo: Scalar = if i >= 1 {
            c[i - 1].clone()
        } else {
            zero.clone()
        };
        out.push(fr_sub(lo, fr_mul(p.clone(), c[i].clone())));
        i = i + 1;
    }
    let top: Scalar = if c.len() >= 1 {
        c[c.len() - 1].clone()
    } else {
        zero.clone()
    };
    out.push(fr_sub(top, fr_mul(p.clone(), zero)));
    assert(out@ =~= spec_mul_linear(c@, *p));
    out
}

/// The vanishing polynomial of `points`: monic of degree `|points|`, with
/// exactly the points as roots.
pub fn vanishing_polynomial(points: &Vec<Scalar>) -> (r: Vec<Scalar>)
    ensures
        r@ == spec_vanishing(points@),
{
    let mut out: Vec<Scalar> = Vec::new();
    out.push(fr_from_u64(1));
    assert(out@ =~= spec_vanishing(points@.take(0)));
    let mut i: usize = 0;
    while i < points.len()
        invariant
            i <= points@.len(),
            out@ == spec_vanishing(points@.take(i as int)),
        decreases points@.len() - i,
    {
        out = mul_linear(&out, &points[i]);
        assert(points@.take(i + 1).drop_last() =~= points@.take(i as int));
        i = i + 1;
    }
    assert(points@.take(points@.len() as int) =~= points@);
    out
}

fn div_qr_rec(f: Vec<Scalar>, d: &Vec<Scalar>, inv_lead: &Scalar) -> (r: (Vec<Scalar>, Vec<
    Scalar,
>))
    requires
        d@.len() >= 1,
        *inv_lead == fr_inv_of(d@.last()),
    ensures
        (r.0@, r.1@) == spec_div_qr(f@, d@),
    decreases f@.len(),
{
    if f.len() < d.len() {
        let q: Vec<Scalar> = Vec::new();
        assert((q@, f@) == spec_div_qr(f@, d@));
        return (q, f);
    }
    let n: usize = f.len();
    let k: usize = n - d.len();
    let lead: Scalar = fr_mul(f[n - 1].clone(), inv_lead.clone());
    let ghost spec_f2 = spec_div_qr(f@, d@);
    let mut f2: Vec<Scalar> = Vec::new();
    let mut j: usize = 0;
    while j < n - 1
        invariant
            j <= n - 1,
            n == f@.len(),
            n >= d@.len() >= 1,
            k == n - d@.len(),
            lead == fr_mul_of(f@.last(), fr_inv_of(d@.last())),
            f2@.len() == j,
            forall|t: int|
                0 <= t < j ==> f2@[t] == (if t >= k {
                    fr_sub_of(f@[t], fr_mul_of(lead, d@[t - k]))
                } else {
                    f@[t]
                }),
        decreases n - 1 - j,
    {
        if j >= k {
            f2.push(fr_sub(f[j].clone(), fr_mul(lead.clone(), d[j - k].clone())));
        } else {
            f2.push(f[j].clone());
        }
        j = j + 1;
    }
    assert(f2@ =~= Seq::new(
        (f@.len() - 1) as nat,
        |t: int|
            if t >= k {
                fr_sub_of(f@[t], fr_mul_of(lead, d@[t - k]))
            } else {
                f@[t]
            },
    ));
    let rec = div_qr_rec(f2, d, inv_lead);
    let mut q = rec.0;
    q.push(lead);
    (q, rec.1)
}

/// Long division of `f` by `d`: `Ok((quotient, remainder))` unless the
/// divisor is empty or its leading coefficient has no inverse (a zero
/// leading coefficient, possible only for a malformed divisor).
pub fn poly_div_q_r(f: Vec<Scalar>, d: &Vec<Scalar>) -> (r: Result<
    (Vec<Scalar>, Vec<Scalar>),
    Error,
>)
    ensures
        r matches Ok(qr) ==> d@.len() >= 1 && d@.last() != fr_of_u64(0) && (qr.0@, qr.1@)
            == spec_div_qr(f@, d@),
        d@.len() == 0 ==> r == Err::<(Vec<Scalar>, Vec<Scalar>), Error>(Error::EmptyInput),
        d@.len() >= 1 && d@.last() == fr_of_u64(0) ==> r == Err::<
            (Vec<Scalar>, Vec<Scalar>),
            Error,
        >(Error::InvariantViolation),
        r is Ok <==> d@.len() >= 1 && d@.last() != fr_of_u64(0),
{
    if d.len() == 0 {
        return Err(Error::EmptyInput);
    }
    let inv = fr_inverse(d[d.len() - 1].clone());
    match inv {
        None => Err(Error::InvariantViolation),
        Some(inv_lead) => Ok(div_qr_rec(f, d, &inv_lead)),
    }
}

/// Quotient of `f` by `X^s - c`, for `s >= 1`; no inverse is needed since
/// the divisor is monic. The remainder is discarded.
pub fn divide_sparse(f: Vec<Scalar>, s: usize, c: &Scalar) -> (r: Vec<Scalar>)
    requires
        s >= 1,
    ensures
        r@ == spec_div_sparse(f@, s as nat, *c),
    decreases f@.len(),
{
    if f.len() <= s {
        let q: Vec<Scalar> = Vec::new();
        assert(q@ =~= spec_div_sparse(f@, s as nat, *c));
        return q;
    }
    let n: usize = f.len();
    let k: usize = n - 1 - s;
    let lead: Scalar = f[n - 1].clone();
    let mut f2: Vec<Scalar> = Vec::new();
    let mut j: usize = 0;
    while j < n - 1
        invariant
            j <= n - 1,
            n == f@.len(),
            n > s >= 1,
            k == n - 1 - s,
            lead == f@.last(),
            f2@.len() == j,
            forall|t: int|
                0 <= t < j ==> f2@[t] == (if t == k {
                    fr_add_of(f@[t], fr_mul_of(*c, lead))
                } else {
                    f@[t]
                }),
        decreases n - 1 - j,
    {
        if j == k {
            f2.push(fr_add(f[j].clone(), fr_mul(c.clone(), lead.clone())));
        } else {
            f2.push(f[j].clone());
        }
        j = j + 1;
    }
    assert(f2@ =~= Seq::new(
        (f@.len() - 1) as nat,
        |t: int|
            if t == k {
                fr_add_of(f@[t], fr_mul_of(*c, lead))
            } else {
                f@[t]
            },
    ));
    let mut q = divide_sparse(f2, s, c);
    q.push(lead);
    q
}

/// Every evaluation vector has one entry per point.
pub open spec fn spec_rows_ok(evals: Seq<Seq<Scalar>>, points: Seq<Scalar>) -> bool {
    forall|i: int| 0 <= i < evals.len() ==> (#[trigger] evals[i]).len() == points.len()
}

/// Indexing through `rows_view` is indexing the row's view.
pub proof fn lemma_rows_view(rows: Seq<Vec<Scalar>>)
    ensures
        rows_view(rows).len() == rows.len(),
        forall|i: int| 0 <= i < rows.len() ==> #[trigger] rows_view(rows)[i] == rows[i]@,
{
}

/// An element-wise copy (the `Vec` is rebuilt so its view is pinned).
pub fn clone_scalars(v: &Vec<Scalar>) -> (r: Vec<Scalar>)
    ensures
        r@ == v@,
{
    let mut out: Vec<Scalar> = Vec::new();
    let mut i: usize = 0;
    while i < v.len()
        invariant
            i <= v@.len(),
            out@.len() == i,
            forall|j: int| 0 <= j < i ==> out@[j] == v@[j],
        decreases v@.len() - i,
    {
        out.push(v[i].clone());
        i = i + 1;
    }
    assert(out@ =~= v@);
    out
}

/// The length of a blend of same-length rows is that common length.
pub proof fn lemma_lin_comb_uniform_len(rows: Seq<Seq<Scalar>>, gammas: Seq<Scalar>, n: nat)
    requires
        rows.len() >= 1,
        forall|i: int| 0 <= i < rows.len() ==> (#[trigger] rows[i]).len() == n,
    ensures
        spec_lin_comb(rows, gammas).len() == n,
    decreases rows.len(),
{
    if rows.len() == 1 {
        assert(spec_lin_comb(rows.drop_last(), gammas) == Seq::<Scalar>::empty());
    } else {
        lemma_lin_comb_uniform_len(rows.drop_last(), gammas, n);
    }
}

/// The quotient by `X^s - c` is `s` shorter than the dividend.
pub proof fn lemma_div_sparse_len(f: Seq<Scalar>, s: nat, c: Scalar)
    requires
        s >= 1,
    ensures
        spec_div_sparse(f, s, c).len() == if f.len() <= s {
            0int
        } else {
            f.len() - s
        },
    decreases f.len(),
{
    if f.len() > s {
        let k = f.len() - 1 - s;
        let lead = f.last();
        let f2 = Seq::new(
            (f.len() - 1) as nat,
            |j: int|
                if j == k {
                    fr_add_of(f[j], fr_mul_of(c, lead))
                } else {
                    f[j]
                },
        );
        lemma_div_sparse_len(f2, s, c);
    }
}

/// Horner evaluation of the polynomial `c` at `x`.
pub fn eval_poly(c: &Vec<Scalar>, x: &Scalar) -> (r: Scalar)
    ensures
        r == spec_eval(c@, *x),
{
    let mut acc: Scalar = fr_from_u64(0);
    let mut i: usize = c.len();
    while i > 0
        invariant
            i <= c@.len(),
            acc == spec_eval(c@.skip(i as int), *x),
        decreases i,
    {
        i = i - 1;
        acc = fr_add(c[i].clone(), fr_mul(x.clone(), acc));
        assert(c@.skip(i as int).drop_first() =~= c@.skip(i + 1));
        assert(c@.skip(i as int).first() == c@[i as int]);
    }
    assert(c@.skip(0) =~= c@);
    acc
}

} // verus!
