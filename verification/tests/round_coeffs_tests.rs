use sumcheck_prover::binary_field::BinaryField8b;
use sumcheck_prover::error::{Error, PolynomialError};
use sumcheck_prover::evaluator::SumcheckEvaluator;
use sumcheck_prover::field::{add_into, extrapolate_line, Field};
use sumcheck_prover::multilinear::{MultilinearExtension, MultilinearPoly};
use sumcheck_prover::prover::ProverState;
use sumcheck_prover::query::MultilinearQuery;
use sumcheck_prover::round_coeffs::{
    compute_round_coeffs_first, compute_round_coeffs_post_switchover,
    compute_round_coeffs_pre_switchover, process_round_evals, BivariateProduct,
    CompositeEvaluator, CompositionPoly, EvaluationDomain, MultilinearComposite,
    PreSwitchoverWitness,
    SumcheckProof, SumcheckRound, SumcheckRoundClaim,
};
use sumcheck_prover::vertex_sum::{calculate_round_evals_from_fold_result, ParFoldState};

type F = BinaryField8b;

fn f(v: u8) -> F {
    BinaryField8b::new(v)
}

fn fs(values: &[u8]) -> Vec<F> {
    values.iter().map(|&v| f(v)).collect()
}

fn mle(values: &[u8]) -> MultilinearExtension<F> {
    MultilinearExtension::from_values(fs(values)).unwrap()
}

fn arbitrary_bytes(seed: u32, len: usize) -> Vec<u8> {
    let mut state = seed;
    (0..len)
        .map(|_| {
            state = state.wrapping_mul(1664525).wrapping_add(1013904223);
            (state >> 24) as u8
        })
        .collect()
}

/// The product of the first two variables plus the third.
struct MulAdd;

fn mul_add(values: &[F]) -> F {
    values[0].mul(values[1]).add(values[2])
}

impl CompositionPoly<F> for MulAdd {
    fn n_vars(&self) -> usize {
        3
    }

    fn degree(&self) -> usize {
        2
    }

    fn evaluate(&self, query: &[F]) -> Result<F, PolynomialError> {
        if query.len() == 3 {
            Ok(mul_add(query))
        } else {
            Err(PolynomialError::OperandFailure)
        }
    }
}

fn naive_fold(values: &[F], c: F) -> Vec<F> {
    values.chunks(2).map(|pair| extrapolate_line(pair[0], pair[1], c)).collect()
}

/// The evaluations at 1 and at `z` of the round polynomial of `mul_add`.
fn naive_round(operands: &[Vec<F>], z: F) -> Vec<F> {
    let mut round_evals = vec![F::zero(); 2];
    for i in 0..operands[0].len() / 2 {
        let at = |x: F| -> F {
            mul_add(
                &operands
                    .iter()
                    .map(|v| extrapolate_line(v[2 * i], v[2 * i + 1], x))
                    .collect::<Vec<F>>(),
            )
        };
        round_evals[0] = round_evals[0].add(at(F::one()));
        round_evals[1] = round_evals[1].add(at(z));
    }
    round_evals
}

fn claim() -> SumcheckRoundClaim<F> {
    SumcheckRoundClaim { partial_point: fs(&[7, 8]), current_round_sum: f(0x5c) }
}

fn domain() -> EvaluationDomain<F> {
    EvaluationDomain { points: fs(&[0, 1, 2]) }
}

fn data() -> Vec<Vec<u8>> {
    (0..3).map(|j| arbitrary_bytes(90 + j, 8)).collect()
}

fn composite(
    data: &[Vec<F>],
    n_vars: usize,
) -> MultilinearComposite<F, MultilinearExtension<F>, MulAdd> {
    let multilinears =
        data.iter().map(|v| MultilinearExtension::from_values(v.clone()).unwrap()).collect();
    MultilinearComposite::new(n_vars, MulAdd, multilinears).unwrap()
}

#[test]
fn the_first_round_samples_directly() {
    let values: Vec<Vec<F>> = data().iter().map(|v| fs(v)).collect();
    let witness = PreSwitchoverWitness {
        polynomial: composite(&values, 3),
        tensor: MultilinearQuery::new(3).unwrap(),
    };
    let out = compute_round_coeffs_first(claim(), witness, &domain()).unwrap();
    assert_eq!(out.claim.partial_point, fs(&[7, 8]));
    assert_eq!(out.claim.current_round_sum, f(0x5c));
    assert_eq!(out.current_proof.rounds.len(), 1);
    assert_eq!(out.current_proof.rounds[0].coeffs, naive_round(&values, f(2)));
    assert_eq!(out.current_witness.polynomial.n_multilinears(), 3);
    assert_eq!(out.current_witness.polynomial.n_vars(), 3);
    assert_eq!(out.current_witness.polynomial.degree(), 2);
    assert_eq!(out.current_witness.tensor.n_vars(), 0);
    for j in 0..3 {
        assert_eq!(out.current_witness.polynomial.multilinears[j].values(), &values[j][..]);
    }
}

#[test]
fn the_first_round_of_the_product_of_two_coordinates() {
    let multilinears = vec![mle(&[0, 1, 0, 1]), mle(&[0, 0, 1, 1])];
    let witness = PreSwitchoverWitness {
        polynomial: MultilinearComposite::new(2, BivariateProduct, multilinears).unwrap(),
        tensor: MultilinearQuery::new(2).unwrap(),
    };
    let out = compute_round_coeffs_first(claim(), witness, &domain()).unwrap();
    assert_eq!(out.current_proof.rounds[0].coeffs, vec![f(1), f(2)]);
}

#[test]
fn a_round_before_switchover_contracts_against_the_tensor() {
    let values: Vec<Vec<F>> = data().iter().map(|v| fs(v)).collect();
    let challenges = [f(0x1b), f(0xd0)];
    let mut proof = SumcheckProof { rounds: vec![SumcheckRound { coeffs: fs(&[1, 2]) }] };
    let mut naive = values.clone();
    for (round, &c) in challenges.iter().enumerate() {
        naive = naive.iter().map(|v| naive_fold(v, c)).collect();
        let witness = PreSwitchoverWitness {
            polynomial: composite(&values, 3),
            tensor: MultilinearQuery::with_full_query(&challenges[..round + 1]).unwrap(),
        };
        let out =
            compute_round_coeffs_pre_switchover(claim(), proof, witness, &domain()).unwrap();
        assert_eq!(out.current_proof.rounds.len(), round + 2);
        assert_eq!(out.current_proof.rounds[0].coeffs, fs(&[1, 2]));
        assert_eq!(out.current_proof.rounds[round + 1].coeffs, naive_round(&naive, f(2)));
        assert_eq!(out.current_witness.tensor.n_vars(), round + 1);
        assert_eq!(out.claim.current_round_sum, f(0x5c));
        proof = out.current_proof;
    }
}

#[test]
fn a_round_after_switchover_samples_the_folded_operands() {
    let values: Vec<Vec<F>> = data().iter().map(|v| fs(v)).collect();
    let folded: Vec<Vec<F>> = values.iter().map(|v| naive_fold(v, f(0x44))).collect();
    let proof = SumcheckProof { rounds: vec![SumcheckRound { coeffs: fs(&[9, 9]) }] };
    let out =
        compute_round_coeffs_post_switchover(claim(), proof, composite(&folded, 2), &domain())
            .unwrap();
    assert_eq!(out.current_proof.rounds.len(), 2);
    assert_eq!(out.current_proof.rounds[0].coeffs, fs(&[9, 9]));
    assert_eq!(out.current_proof.rounds[1].coeffs, naive_round(&folded, f(2)));
    assert_eq!(out.current_witness.n_vars(), 2);
    assert_eq!(out.claim.partial_point, fs(&[7, 8]));
}

#[test]
fn the_three_kinds_of_round_agree_with_the_prover_state() {
    let values: Vec<Vec<F>> = data().iter().map(|v| fs(v)).collect();
    let points = fs(&[0, 1, 2]);
    let operands =
        values.iter().map(|v| MultilinearExtension::from_values(v.clone()).unwrap()).collect();
    let mut prover = ProverState::new(3, operands, |_| 2).unwrap();

    let first = compute_round_coeffs_first(
        claim(),
        PreSwitchoverWitness {
            polynomial: composite(&values, 3),
            tensor: MultilinearQuery::new(3).unwrap(),
        },
        &domain(),
    )
    .unwrap();
    let evaluator = CompositeEvaluator { composition: &MulAdd, domain: &points, degree: 2 };
    assert_eq!(prover.sum_round_evals(evaluator), first.current_proof.rounds[0].coeffs);

    let c = f(0xab);
    prover.fold(c).unwrap();
    let pre = compute_round_coeffs_pre_switchover(
        claim(),
        first.current_proof,
        PreSwitchoverWitness {
            polynomial: composite(&values, 3),
            tensor: MultilinearQuery::with_full_query(&[c]).unwrap(),
        },
        &domain(),
    )
    .unwrap();
    let evaluator = CompositeEvaluator { composition: &MulAdd, domain: &points, degree: 2 };
    assert_eq!(prover.sum_round_evals(evaluator), pre.current_proof.rounds[1].coeffs);

    let d = f(0x12);
    prover.fold(d).unwrap();
    let folded: Vec<Vec<F>> =
        values.iter().map(|v| naive_fold(&naive_fold(v, c), d)).collect();
    let post = compute_round_coeffs_post_switchover(
        claim(),
        pre.current_proof,
        composite(&folded, 1),
        &domain(),
    )
    .unwrap();
    let evaluator = CompositeEvaluator { composition: &MulAdd, domain: &points, degree: 2 };
    assert_eq!(prover.sum_round_evals(evaluator), post.current_proof.rounds[2].coeffs);
    assert_eq!(post.current_proof.rounds.len(), 3);
}

#[test]
fn the_round_polynomial_accounts_for_the_sum_and_hands_on_the_next() {
    // r(0) + r(1) is the sum over the cube, and r(c) is the sum over the cube
    // of the operands folded with c.
    let values: Vec<Vec<F>> = data().iter().map(|v| fs(v)).collect();
    let sum_over = |operands: &[Vec<F>]| -> F {
        (0..operands[0].len()).fold(F::zero(), |acc, v| {
            acc.add(mul_add(&operands.iter().map(|o| o[v]).collect::<Vec<F>>()))
        })
    };
    let at_one = naive_round(&values, f(2))[0];
    let at_zero = naive_round(&values, F::zero())[1];
    assert_eq!(at_zero.add(at_one), sum_over(&values));
    for c in [f(2), f(0x3d), f(0xff)] {
        let folded: Vec<Vec<F>> = values.iter().map(|v| naive_fold(v, c)).collect();
        let witness = PreSwitchoverWitness {
            polynomial: composite(&values, 3),
            tensor: MultilinearQuery::new(3).unwrap(),
        };
        let at_c = compute_round_coeffs_first(
            claim(),
            witness,
            &EvaluationDomain { points: vec![f(0), f(1), c] },
        )
        .unwrap()
        .current_proof
        .rounds[0]
            .coeffs[1];
        assert_eq!(at_c, sum_over(&folded));
    }
}

#[test]
fn processing_a_vertex_adds_the_composition_at_one_and_at_further_points() {
    let evals_0 = fs(&[3, 5, 7]);
    let evals_1 = fs(&[11, 13, 17]);
    let mut evals_z = fs(&[0, 0, 0]);
    let mut round_evals = fs(&[100, 101, 102]);
    let points = fs(&[0, 1, 2]);
    process_round_evals(&MulAdd, &evals_0, &evals_1, &mut evals_z, &mut round_evals, &points);
    let at_two: Vec<F> =
        (0..3).map(|j| extrapolate_line(evals_0[j], evals_1[j], f(2))).collect();
    assert_eq!(evals_z, at_two);
    assert_eq!(
        round_evals,
        vec![f(100).add(mul_add(&evals_1)), f(101).add(mul_add(&at_two)), f(102)]
    );
}

#[test]
fn processing_a_vertex_with_a_domain_of_two_points_adds_at_one_only() {
    let evals_0 = fs(&[3, 5, 7]);
    let evals_1 = fs(&[11, 13, 17]);
    let mut evals_z = fs(&[1, 2, 3]);
    let mut round_evals = fs(&[100, 101]);
    process_round_evals(&MulAdd, &evals_0, &evals_1, &mut evals_z, &mut round_evals, &fs(&[0, 1]));
    assert_eq!(evals_z, fs(&[1, 2, 3]));
    assert_eq!(round_evals, vec![f(100).add(mul_add(&evals_1)), f(101)]);
}

#[test]
fn an_evaluator_that_is_not_usable_adds_nothing() {
    let evals_0 = fs(&[3, 5, 7]);
    let evals_1 = fs(&[11, 13, 17]);
    let no_points: Vec<F> = Vec::new();
    let too_many = fs(&[0, 1, 2, 3]);
    let points = fs(&[0, 1, 2]);
    for (domain, degree, evals) in [
        (&no_points, 2usize, 3usize),
        (&too_many, 2, 3),
        (&points, 2, 2),
    ] {
        let evaluator = CompositeEvaluator { composition: &MulAdd, domain, degree };
        assert_eq!(evaluator.n_round_evals(), 2);
        let mut state = ParFoldState::<F>::new(evals, 2);
        evaluator.process_vertex(
            0,
            &evals_0[..evals],
            &evals_1[..evals],
            &mut state.evals_z,
            &mut state.round_evals,
        );
        assert_eq!(state.round_evals, fs(&[0, 0]));
    }
}

#[test]
fn a_composite_checks_the_number_of_operands_and_of_variables() {
    let r = MultilinearComposite::new(1, MulAdd, vec![mle(&[1, 2]), mle(&[3, 4])]);
    assert!(matches!(
        r,
        Err(Error::IncorrectNumberOfVariables { expected: 3, actual: 2 })
    ));
    let r = MultilinearComposite::new(1, BivariateProduct, vec![mle(&[1, 2]), mle(&[3, 4, 5, 6])]);
    assert!(matches!(
        r,
        Err(Error::IncorrectNumberOfVariables { expected: 1, actual: 2 })
    ));
    let r = MultilinearComposite::new(1, BivariateProduct, vec![mle(&[1, 2]), mle(&[3, 4])]);
    assert!(r.is_ok());
}

#[test]
fn the_bivariate_product_multiplies_its_two_variables() {
    assert_eq!(CompositionPoly::<F>::n_vars(&BivariateProduct), 2);
    assert_eq!(CompositionPoly::<F>::degree(&BivariateProduct), 2);
    assert_eq!(BivariateProduct.evaluate(&fs(&[2, 2])), Ok(f(3)));
    assert_eq!(BivariateProduct.evaluate(&fs(&[0x10, 0x10])), Ok(f(0x41)));
    assert_eq!(
        BivariateProduct.evaluate(&fs(&[1, 2, 3])),
        Err(PolynomialError::IncorrectQuerySize)
    );
    assert_eq!(
        BivariateProduct.evaluate(&Vec::<F>::new()),
        Err(PolynomialError::IncorrectQuerySize)
    );
}

#[test]
fn the_domain_hands_out_its_points() {
    assert_eq!(domain().points(), &fs(&[0, 1, 2])[..]);
}

#[test]
fn partial_sums_are_added_up() {
    let partials = vec![fs(&[1, 2, 4]), fs(&[8, 16, 32]), fs(&[1, 1, 1])];
    assert_eq!(calculate_round_evals_from_fold_result(3, partials), fs(&[8, 19, 37]));
    assert_eq!(calculate_round_evals_from_fold_result::<F>(2, Vec::new()), fs(&[0, 0]));
}

#[test]
fn a_fresh_worker_state_is_all_zeros() {
    let state = ParFoldState::<F>::new(3, 2);
    assert_eq!(state.evals_0, fs(&[0, 0, 0]));
    assert_eq!(state.evals_1, fs(&[0, 0, 0]));
    assert_eq!(state.evals_z, fs(&[0, 0, 0]));
    assert_eq!(state.round_evals, fs(&[0, 0]));
}

#[test]
fn adding_into_a_vector_adds_element_by_element() {
    let mut a = fs(&[1, 2, 3]);
    add_into(&mut a, &fs(&[4, 4, 4]));
    assert_eq!(a, fs(&[5, 6, 7]));
}
