use merlin::Transcript;
use rand::SeedableRng;

use poly_multiproof::arith::{fr_add, fr_eq, fr_from_u64, fr_mul, fr_rand, fr_sub, g1_eq, Scalar};
use poly_multiproof::cyclic_precomp::M1CyclPrecomp;
use poly_multiproof::method1::{Commitment, M1NoPrecomp, Proof};
use poly_multiproof::msm::MsmBackend;
use poly_multiproof::poly::{eval_poly, gen_powers, vanishing_polynomial};
use poly_multiproof::precompute::M1Precomp;
use poly_multiproof::Error;

fn test_rng() -> rand::rngs::StdRng {
    rand::rngs::StdRng::seed_from_u64(0)
}

fn rand_scalars(n: usize, rng: &mut rand::rngs::StdRng) -> Vec<Scalar> {
    (0..n).map(|_| fr_rand(rng)).collect()
}

fn rand_polys(count: usize, degree: usize, rng: &mut rand::rngs::StdRng) -> Vec<Vec<Scalar>> {
    (0..count).map(|_| rand_scalars(degree + 1, rng)).collect()
}

fn eval_rows(polys: &[Vec<Scalar>], points: &[Scalar]) -> Vec<Vec<Scalar>> {
    polys
        .iter()
        .map(|p| points.iter().map(|x| eval_poly(p, x)).collect())
        .collect()
}

fn commit_all(s: &M1NoPrecomp, polys: &[Vec<Scalar>]) -> Vec<Commitment> {
    polys.iter().map(|p| s.commit(p).expect("Commit failed")).collect()
}

fn rows_eq(a: &[Vec<Scalar>], b: &[Vec<Scalar>]) -> bool {
    a.len() == b.len()
        && a.iter().zip(b.iter()).all(|(x, y)| {
            x.len() == y.len() && x.iter().zip(y.iter()).all(|(u, v)| fr_eq(u, v))
        })
}

fn proofs_eq(a: &Proof, b: &Proof) -> bool {
    g1_eq(&a.0, &b.0)
}

#[test]
fn mod_test_basic_open_works() {
    let s = M1NoPrecomp::new(256, 30, &mut test_rng());
    let points = rand_scalars(30, &mut test_rng());
    let polys = rand_polys(20, 50, &mut test_rng());
    let evals = eval_rows(&polys, &points);
    let commits = commit_all(&s, &polys);
    let mut transcript = Transcript::new(b"testing");
    let open = s
        .open(&mut transcript, &evals, &polys, &points)
        .expect("Open failed");
    let mut transcript = Transcript::new(b"testing");
    assert_eq!(
        Ok(true),
        s.verify(&mut transcript, &commits, &points, &evals, &open)
    );
}

fn test_basic_precomp(s: &M1Precomp, points: &[Scalar]) {
    let polys = rand_polys(2, 50, &mut test_rng());
    let evals = eval_rows(&polys, points);
    let commits: Vec<Commitment> =
        polys.iter().map(|p| s.commit(p).expect("Commit failed")).collect();
    let open = s
        .open(&mut Transcript::new(b"test"), &evals, &polys, 0)
        .expect("Failed to open");
    assert_eq!(
        Ok(true),
        s.verify(&mut Transcript::new(b"test"), &commits, 0, &evals, &open)
    );
}

#[test]
fn precompute_test_basic_open_works() {
    let points = rand_scalars(30, &mut test_rng());
    let s = M1NoPrecomp::new(256, 32, &mut test_rng());
    let s = M1Precomp::from_inner(s, vec![points.clone()]).expect("Failed to construct");
    test_basic_precomp(&s, &points);

    let mut s2 = M1NoPrecomp::new(256, 32, &mut test_rng());
    s2.backend = MsmBackend::Portable;
    let s2 = M1Precomp::from_inner(s2, vec![points.clone()]).expect("Failed to construct");
    test_basic_precomp(&s2, &points);
}

#[test]
fn cyclic_precomp_test_basic_open_works() {
    let s = M1NoPrecomp::new(256, 256, &mut test_rng());
    let s = M1CyclPrecomp::from_inner(s, 256, 2).expect("Failed to construct");
    let points = s.point_sets().subgroup_points(0).unwrap();
    let polys = rand_polys(2, 50, &mut test_rng());
    let evals = eval_rows(&polys, &points);
    let commits: Vec<Commitment> =
        polys.iter().map(|p| s.commit(p).expect("Commit failed")).collect();
    let open = s
        .open(&mut Transcript::new(b"test"), &evals, &polys, 0)
        .expect("Failed to open");
    assert_eq!(
        Ok(true),
        s.verify(&mut Transcript::new(b"test"), &commits, 0, &evals, &open)
    );
}

#[test]
fn test_complex_open_works() {
    let s = M1NoPrecomp::new(256, 256, &mut test_rng());
    let s = M1CyclPrecomp::from_inner(s, 256, 2).expect("Failed to construct");
    let polys = rand_polys(2, 255, &mut test_rng());
    let commits: Vec<Commitment> =
        polys.iter().map(|p| s.commit(p).expect("Commit failed")).collect();
    let base_points = poly_multiproof::arith::domain_elements(s.point_sets().base());
    let naive_evals = eval_rows(&polys, &base_points);
    let evals: Vec<Vec<Scalar>> = polys
        .iter()
        .map(|p| s.point_sets().evals_over_base(p))
        .collect();
    assert!(rows_eq(&evals, &naive_evals));
    for gi in 0..s.point_sets().num_chunks() {
        let trimmed_evals: Vec<Vec<Scalar>> = naive_evals
            .iter()
            .map(|ev| s.point_sets().take_subgroup_indices(gi, ev.clone()).unwrap())
            .collect();
        let proof = s
            .open(&mut Transcript::new(b"test"), &trimmed_evals, &polys, gi)
            .expect("Failed to open");
        assert_eq!(
            Ok(true),
            s.verify(
                &mut Transcript::new(b"test"),
                &commits,
                gi,
                &trimmed_evals,
                &proof
            )
        );
    }
}

#[test]
fn test_open_is_deterministic() {
    let mut rng = test_rng();
    let s = M1NoPrecomp::new(64, 8, &mut rng);
    let points = rand_scalars(8, &mut rng);
    let polys = rand_polys(3, 20, &mut rng);
    let evals = eval_rows(&polys, &points);
    let p1 = s
        .open(&mut Transcript::new(b"same seed"), &evals, &polys, &points)
        .expect("Open failed");
    let p2 = s
        .open(&mut Transcript::new(b"same seed"), &evals, &polys, &points)
        .expect("Open failed");
    assert!(proofs_eq(&p1, &p2));
    let b1 = p1.to_bytes();
    assert_eq!(b1.len(), 48);
    assert_eq!(b1, p2.to_bytes());
    let c = s.commit(&polys[0]).expect("Commit failed");
    assert_eq!(c.to_bytes().len(), 48);
}

#[test]
fn test_msm_backends_agree_on_commit() {
    let mut rng = test_rng();
    let mut s = M1NoPrecomp::new(64, 8, &mut rng);
    let poly = rand_scalars(40, &mut rng);
    s.backend = MsmBackend::Fast;
    let fast = s.commit(&poly).expect("Commit failed");
    s.backend = MsmBackend::Portable;
    let portable = s.commit(&poly).expect("Commit failed");
    assert!(g1_eq(&fast.0, &portable.0));
}

#[test]
fn test_generic_and_coset_precompute_agree() {
    let mut rng = test_rng();
    let x = fr_rand(&mut rng);
    let g1 = poly_multiproof::arith::g1_rand(&mut rng);
    let g2 = poly_multiproof::arith::g2_rand(&mut rng);
    let s_a = M1NoPrecomp::new_from_scalar(x.clone(), g1.clone(), g2.clone(), 64, 64);
    let s_b = M1NoPrecomp::new_from_scalar(x, g1, g2, 64, 64);

    let cyc = M1CyclPrecomp::from_inner(s_a, 64, 2).expect("Failed to construct");
    let points = cyc.point_sets().subgroup_points(1).unwrap();
    let gen = M1Precomp::from_inner(s_b, vec![points.clone()]).expect("Failed to construct");

    let polys = rand_polys(2, 40, &mut test_rng());
    let evals = eval_rows(&polys, &points);
    let commits: Vec<Commitment> =
        polys.iter().map(|p| cyc.commit(p).expect("Commit failed")).collect();

    let p_cyc = cyc
        .open(&mut Transcript::new(b"agree"), &evals, &polys, 1)
        .expect("Failed to open");
    let p_gen = gen
        .open(&mut Transcript::new(b"agree"), &evals, &polys, 0)
        .expect("Failed to open");
    assert!(proofs_eq(&p_cyc, &p_gen));
    assert_eq!(
        Ok(true),
        cyc.verify(&mut Transcript::new(b"agree"), &commits, 1, &evals, &p_cyc)
    );
    assert_eq!(
        Ok(true),
        gen.verify(&mut Transcript::new(b"agree"), &commits, 0, &evals, &p_gen)
    );
}

#[test]
fn test_verify_rejects_mutated_eval() {
    let mut rng = test_rng();
    let s = M1NoPrecomp::new(64, 8, &mut rng);
    let points = rand_scalars(8, &mut rng);
    let polys = rand_polys(3, 20, &mut rng);
    let mut evals = eval_rows(&polys, &points);
    let commits = commit_all(&s, &polys);
    let proof = s
        .open(&mut Transcript::new(b"m"), &evals, &polys, &points)
        .expect("Open failed");
    evals[1][3] = fr_add(evals[1][3].clone(), fr_from_u64(1));
    assert_eq!(
        Ok(false),
        s.verify(&mut Transcript::new(b"m"), &commits, &points, &evals, &proof)
    );
}

#[test]
fn test_verify_rejects_mutated_commit() {
    let mut rng = test_rng();
    let s = M1NoPrecomp::new(64, 8, &mut rng);
    let points = rand_scalars(8, &mut rng);
    let polys = rand_polys(3, 20, &mut rng);
    let evals = eval_rows(&polys, &points);
    let mut commits = commit_all(&s, &polys);
    let proof = s
        .open(&mut Transcript::new(b"m"), &evals, &polys, &points)
        .expect("Open failed");
    commits.swap(0, 1);
    assert_eq!(
        Ok(false),
        s.verify(&mut Transcript::new(b"m"), &commits, &points, &evals, &proof)
    );
}

#[test]
fn test_verify_rejects_bad_shapes() {
    let mut rng = test_rng();
    let s = M1NoPrecomp::new(64, 8, &mut rng);
    let points = rand_scalars(8, &mut rng);
    let polys = rand_polys(2, 20, &mut rng);
    let mut evals = eval_rows(&polys, &points);
    let commits = commit_all(&s, &polys);
    let proof = s
        .open(&mut Transcript::new(b"m"), &evals, &polys, &points)
        .expect("Open failed");
    evals[0].pop();
    assert_eq!(
        Err(Error::SizeMismatch),
        s.verify(&mut Transcript::new(b"m"), &commits, &points, &evals, &proof)
    );
    let no_points: Vec<Scalar> = Vec::new();
    assert!(matches!(
        s.open(&mut Transcript::new(b"m"), &evals, &polys, &no_points),
        Err(Error::EmptyInput)
    ));
    let no_polys: Vec<Vec<Scalar>> = Vec::new();
    let no_evals: Vec<Vec<Scalar>> = Vec::new();
    assert!(matches!(
        s.open(&mut Transcript::new(b"m"), &no_evals, &no_polys, &points),
        Err(Error::EmptyInput)
    ));
}

#[test]
fn test_precompute_rejects_repeated_point() {
    let mut rng = test_rng();
    let s = M1NoPrecomp::new(64, 8, &mut rng);
    let p = fr_rand(&mut rng);
    let points = vec![p.clone(), fr_rand(&mut rng), p];
    assert!(matches!(
        M1Precomp::from_inner(s, vec![points]),
        Err(Error::InvariantViolation)
    ));
}

#[test]
fn test_precompute_index_out_of_range() {
    let mut rng = test_rng();
    let s = M1NoPrecomp::new(64, 8, &mut rng);
    let points = rand_scalars(4, &mut rng);
    let pre = M1Precomp::from_inner(s, vec![points.clone()]).expect("Failed to construct");
    let polys = rand_polys(1, 3, &mut test_rng());
    let evals = eval_rows(&polys, &points);
    assert!(matches!(
        pre.open(&mut Transcript::new(b"i"), &evals, &polys, 7),
        Err(Error::IndexOutOfRange { index: 7 })
    ));
}

#[test]
fn test_commit_rejects_too_many_coeffs() {
    let s = M1NoPrecomp::new(16, 4, &mut test_rng());
    let poly = rand_scalars(40, &mut test_rng());
    assert!(matches!(s.commit(&poly), Err(Error::SizeMismatch)));
}

#[test]
fn test_coset_construction_rejects_non_power_of_two() {
    let s = M1NoPrecomp::new(256, 256, &mut test_rng());
    assert!(matches!(
        M1CyclPrecomp::from_inner(s, 255, 2),
        Err(Error::ConstructionError { size: 255 })
    ));
    let s = M1NoPrecomp::new(256, 256, &mut test_rng());
    assert!(matches!(
        M1CyclPrecomp::from_inner(s, 256, 3),
        Err(Error::ConstructionError { size: 3 })
    ));
    let s = M1NoPrecomp::new(16, 4, &mut test_rng());
    assert!(matches!(
        M1CyclPrecomp::from_inner(s, 256, 2),
        Err(Error::ConstructionError { size: 256 })
    ));
}

#[test]
fn test_vanishing_polynomial_exact() {
    let two = fr_from_u64(2);
    let five = fr_from_u64(5);
    let vp = vanishing_polynomial(&vec![two.clone(), five.clone()]);
    assert_eq!(vp.len(), 3);
    // (X - 2)(X - 5) = X^2 - 7X + 10
    assert!(fr_eq(&vp[0], &fr_from_u64(10)));
    assert!(fr_eq(&vp[1], &fr_sub(fr_from_u64(0), fr_from_u64(7))));
    assert!(fr_eq(&vp[2], &fr_from_u64(1)));
    // it vanishes at its roots and nowhere obvious else
    assert!(fr_eq(&eval_poly(&vp, &two), &fr_from_u64(0)));
    assert!(fr_eq(&eval_poly(&vp, &five), &fr_from_u64(0)));
    assert!(!fr_eq(&eval_poly(&vp, &fr_from_u64(3)), &fr_from_u64(0)));
}

#[test]
fn test_eval_and_powers_exact() {
    // 1 + 2x + 3x^2 at x = 2 is 17
    let c = vec![fr_from_u64(1), fr_from_u64(2), fr_from_u64(3)];
    assert!(fr_eq(&eval_poly(&c, &fr_from_u64(2)), &fr_from_u64(17)));
    let pows = gen_powers(fr_from_u64(3), 4);
    let expect = [1u64, 3, 9, 27];
    assert_eq!(pows.len(), 4);
    for (p, e) in pows.iter().zip(expect.iter()) {
        assert!(fr_eq(p, &fr_from_u64(*e)));
    }
    // multiplication through the wrapper does not echo an argument
    assert!(fr_eq(&fr_mul(fr_from_u64(6), fr_from_u64(7)), &fr_from_u64(42)));
}

#[test]
fn test_take_subgroup_indices_strides() {
    let s = M1NoPrecomp::new(8, 8, &mut test_rng());
    let c = M1CyclPrecomp::from_inner(s, 8, 2).expect("Failed to construct");
    let v: Vec<Scalar> = (0..8u64).map(fr_from_u64).collect();
    let half = c.point_sets().take_subgroup_indices(1, v).unwrap();
    let expect = [1u64, 3, 5, 7];
    assert_eq!(half.len(), 4);
    for (got, e) in half.iter().zip(expect.iter()) {
        assert!(fr_eq(got, &fr_from_u64(*e)));
    }
    let (k, j) = c.point_sets().subgroup_index_of(5);
    assert_eq!((k, j), (1, 2));
    assert_eq!(c.point_sets().base_index_of(1, 2), 5);
}
