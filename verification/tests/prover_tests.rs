use either::Either;
use sumcheck_prover::binary_field::BinaryField8b;
use sumcheck_prover::error::{Error, PolynomialError};
use sumcheck_prover::evaluator::SumcheckEvaluator;
use sumcheck_prover::field::{extrapolate_line, Field};
use sumcheck_prover::multilinear::{MultilinearExtension, MultilinearPoly};
use sumcheck_prover::prover::{
    pow2_usize, switchover_outcome, ProverState, SamplingKernel, SumcheckMultilinear,
};
use sumcheck_prover::query::MultilinearQuery;

type F = BinaryField8b;

fn f(v: u8) -> F {
    BinaryField8b::new(v)
}

fn fs(values: &[u8]) -> Vec<F> {
    values.iter().map(|&v| f(v)).collect()
}

fn mle(values: &[u8]) -> MultilinearExtension<F> {
    MultilinearExtension::from_values(fs(values)).unwrap()
}

/// Bytes that look arbitrary but are the same in every run.
fn arbitrary_bytes(seed: u32, len: usize) -> Vec<u8> {
    let mut state = seed;
    (0..len)
        .map(|_| {
            state = state.wrapping_mul(1664525).wrapping_add(1013904223);
            (state >> 24) as u8
        })
        .collect()
}

/// Regular sumcheck for the product of all operands, sampled at 1 and at the
/// points of `domain`.
struct ProductEvaluator {
    domain: Vec<F>,
}

fn product(values: &[F]) -> F {
    values.iter().fold(F::one(), |acc, &v| acc.mul(v))
}

impl SumcheckEvaluator<F> for ProductEvaluator {
    fn n_round_evals(&self) -> usize {
        self.domain.len() + 1
    }

    fn process_vertex(
        &self,
        _index: usize,
        evals_0: &[F],
        evals_1: &[F],
        evals_z: &mut Vec<F>,
        round_evals: &mut Vec<F>,
    ) {
        round_evals[0] = round_evals[0].add(product(evals_1));
        for (d, &z) in self.domain.iter().enumerate() {
            for j in 0..evals_0.len() {
                evals_z[j] = extrapolate_line(evals_0[j], evals_1[j], z);
            }
            round_evals[d + 1] = round_evals[d + 1].add(product(evals_z));
        }
    }
}

/// An evaluator whose share depends on the vertex index.
struct IndexWeighted;

impl SumcheckEvaluator<F> for IndexWeighted {
    fn n_round_evals(&self) -> usize {
        2
    }

    fn process_vertex(
        &self,
        index: usize,
        evals_0: &[F],
        evals_1: &[F],
        _evals_z: &mut Vec<F>,
        round_evals: &mut Vec<F>,
    ) {
        let weight = f((index % 251) as u8 + 1);
        round_evals[0] = round_evals[0].add(weight.mul(product(evals_0)));
        round_evals[1] = round_evals[1].add(weight.mul(product(evals_1)));
    }
}

/// The values left when the first variable is fixed to `c`, computed naively.
fn naive_fold(values: &[F], c: F) -> Vec<F> {
    values.chunks(2).map(|pair| extrapolate_line(pair[0], pair[1], c)).collect()
}

/// The round evaluations of the product, computed naively.
fn naive_round(operands: &[Vec<F>], domain: &[F]) -> Vec<F> {
    let mut round_evals = vec![F::zero(); domain.len() + 1];
    for i in 0..operands[0].len() / 2 {
        let at = |z: F| -> F {
            product(
                &operands
                    .iter()
                    .map(|v| extrapolate_line(v[2 * i], v[2 * i + 1], z))
                    .collect::<Vec<F>>(),
            )
        };
        round_evals[0] = round_evals[0].add(at(F::one()));
        for (d, &z) in domain.iter().enumerate() {
            round_evals[d + 1] = round_evals[d + 1].add(at(z));
        }
    }
    round_evals
}

/// Runs all rounds and returns the round evaluations of every round.
fn transcript<M: MultilinearPoly<F> + Sync>(
    prover: &mut ProverState<F, M>,
    challenges: &[F],
    domain: &[F],
) -> Vec<Vec<F>> {
    let mut rounds = Vec::new();
    for &c in challenges {
        rounds.push(prover.sum_round_evals(ProductEvaluator { domain: domain.to_vec() }));
        assert!(prover.round() < prover.n_rounds());
        prover.fold(c).unwrap();
    }
    rounds
}

fn three_operands() -> Vec<Vec<u8>> {
    vec![arbitrary_bytes(1, 8), arbitrary_bytes(2, 8), arbitrary_bytes(3, 8)]
}

/// An operand that reports a given extension degree.
struct Small {
    inner: MultilinearExtension<F>,
    degree: usize,
}

impl MultilinearPoly<F> for Small {
    fn n_vars(&self) -> usize {
        self.inner.n_vars()
    }

    fn extension_degree(&self) -> usize {
        self.degree
    }

    fn evaluate_on_hypercube(&self, index: usize) -> Result<F, PolynomialError> {
        self.inner.evaluate_on_hypercube(index)
    }

    fn evaluate_subcube(
        &self,
        index: usize,
        query: &MultilinearQuery<F>,
    ) -> Result<F, PolynomialError> {
        self.inner.evaluate_subcube(index, query)
    }

    fn evaluate_partial_low(
        &self,
        query: &MultilinearQuery<F>,
    ) -> Result<MultilinearExtension<F>, PolynomialError> {
        self.inner.evaluate_partial_low(query)
    }
}

/// An operand that cannot be materialized.
struct Unfoldable {
    inner: MultilinearExtension<F>,
}

impl MultilinearPoly<F> for Unfoldable {
    fn n_vars(&self) -> usize {
        self.inner.n_vars()
    }

    fn extension_degree(&self) -> usize {
        8
    }

    fn evaluate_on_hypercube(&self, index: usize) -> Result<F, PolynomialError> {
        self.inner.evaluate_on_hypercube(index)
    }

    fn evaluate_subcube(
        &self,
        index: usize,
        query: &MultilinearQuery<F>,
    ) -> Result<F, PolynomialError> {
        self.inner.evaluate_subcube(index, query)
    }

    fn evaluate_partial_low(
        &self,
        _query: &MultilinearQuery<F>,
    ) -> Result<MultilinearExtension<F>, PolynomialError> {
        Err(PolynomialError::OperandFailure)
    }
}

#[test]
fn trivial_identity_composition() {
    let operand = mle(&[0, 1]);
    let mut prover = ProverState::new(1, vec![operand], |_| 1).unwrap();
    let round_evals = prover.sum_round_evals(ProductEvaluator { domain: vec![] });
    assert_eq!(round_evals, vec![f(1)]);

    let c = f(0x5a);
    prover.fold(c).unwrap();
    let folded = prover.folded_multilinear(0).unwrap();
    assert_eq!(folded.n_vars(), 0);
    assert_eq!(folded.values(), &[c]);
}

#[test]
fn product_of_two_coordinates() {
    let a = mle(&[0, 1, 0, 1]);
    let b = mle(&[0, 0, 1, 1]);
    let prover = ProverState::new(2, vec![a, b], |_| 1).unwrap();
    let round_evals = prover.sum_round_evals(ProductEvaluator { domain: vec![f(2)] });
    assert_eq!(round_evals, vec![f(1), f(2)]);
    // The sum of a * b over the square is 1, so the round polynomial is 0 at 0.
    let naive_sum = (0..4)
        .fold(F::zero(), |acc, v| acc.add(f([0, 1, 0, 1][v]).mul(f([0, 0, 1, 1][v]))));
    assert_eq!(naive_sum, f(1));
}

#[test]
fn switchover_at_round_one_folds_everything_at_once() {
    let operands = three_operands().iter().map(|v| mle(v)).collect();
    let mut prover = ProverState::new(3, operands, |_| 1).unwrap();
    assert!(prover.has_query());
    for j in 0..3 {
        assert!(prover.is_transparent(j));
        assert!(prover.folded_multilinear(j).is_none());
    }
    prover.fold(f(0x9d)).unwrap();
    assert_eq!(prover.round(), 1);
    for j in 0..3 {
        assert!(!prover.is_transparent(j));
        assert_eq!(prover.folded_multilinear(j).unwrap().n_vars(), 2);
    }
    assert!(!prover.has_query());
}

#[test]
fn switchover_at_the_last_round_gives_the_same_rounds() {
    let challenges = [f(0x9d), f(0x04), f(0xe1)];
    let domain = [f(2), f(3)];

    let early_operands = three_operands().iter().map(|v| mle(v)).collect();
    let mut early = ProverState::new(3, early_operands, |_| 1).unwrap();
    let early_rounds = transcript(&mut early, &challenges, &domain);

    let late_operands = three_operands().iter().map(|v| mle(v)).collect();
    let mut late = ProverState::new(3, late_operands, |_| 3).unwrap();
    let mut late_rounds = Vec::new();
    for (round, &c) in challenges.iter().enumerate() {
        assert_eq!(late.round(), round);
        for j in 0..3 {
            assert!(late.is_transparent(j));
        }
        assert!(late.has_query());
        late_rounds.push(late.sum_round_evals(ProductEvaluator { domain: domain.to_vec() }));
        late.fold(c).unwrap();
    }
    for j in 0..3 {
        assert!(!late.is_transparent(j));
        assert_eq!(
            late.folded_multilinear(j).unwrap().values(),
            early.folded_multilinear(j).unwrap().values()
        );
    }
    assert!(!late.has_query());
    assert_eq!(late_rounds, early_rounds);
}

#[test]
fn heterogeneous_switchovers_give_the_homogeneous_transcript() {
    let data: Vec<Vec<u8>> = (0..4).map(|j| arbitrary_bytes(10 + j, 16)).collect();
    let challenges = [f(0x13), f(0xf0), f(0x2e), f(0x81)];
    let domain = [f(2), f(3), f(4), f(5)];

    let operands: Vec<Small> = data
        .iter()
        .zip([1usize, 2, 4, 4])
        .map(|(v, degree)| Small { inner: mle(v), degree })
        .collect();
    let mut mixed = ProverState::new(4, operands, |degree| degree).unwrap();
    let mut mixed_rounds = Vec::new();
    for (round, &c) in challenges.iter().enumerate() {
        if round == 2 {
            assert!(!mixed.is_transparent(0));
            assert!(!mixed.is_transparent(1));
            assert!(mixed.is_transparent(2));
            assert!(mixed.is_transparent(3));
            assert!(mixed.has_query());
        }
        mixed_rounds.push(mixed.sum_round_evals(ProductEvaluator { domain: domain.to_vec() }));
        mixed.fold(c).unwrap();
    }
    assert!(!mixed.has_query());

    let reference_operands = data.iter().map(|v| mle(v)).collect();
    let mut reference = ProverState::new(4, reference_operands, |_| 1).unwrap();
    let reference_rounds = transcript(&mut reference, &challenges, &domain);
    assert_eq!(mixed_rounds, reference_rounds);

    let mut naive: Vec<Vec<F>> = data.iter().map(|v| fs(v)).collect();
    for (round, &c) in challenges.iter().enumerate() {
        assert_eq!(mixed_rounds[round], naive_round(&naive, &domain));
        naive = naive.iter().map(|v| naive_fold(v, c)).collect();
    }
    for j in 0..4 {
        assert_eq!(mixed.folded_multilinear(j).unwrap().values(), &naive[j][..]);
    }
}

/// The inverse of a nonzero element, by search.
fn inverse(a: F) -> F {
    (1..=255u8).map(f).find(|&b| a.mul(b) == F::one()).unwrap()
}

/// The value at `x` of the polynomial of degree below `points.len()` that takes
/// the values `values` at `points`.
fn interpolate(points: &[F], values: &[F], x: F) -> F {
    let mut sum = F::zero();
    for k in 0..points.len() {
        let mut term = values[k];
        for m in 0..points.len() {
            if m != k {
                term = term.mul(x.sub(points[m])).mul(inverse(points[k].sub(points[m])));
            }
        }
        sum = sum.add(term);
    }
    sum
}

/// Zerocheck for `a * b - c`: each vertex is weighted by the equality
/// indicator of the remaining variables, and the point 0 is not sampled.
struct ZerocheckEvaluator {
    eq_weights: Vec<F>,
    points: Vec<F>,
}

fn zero_on_cube(values: &[F]) -> F {
    values[0].mul(values[1]).sub(values[2])
}

impl SumcheckEvaluator<F> for ZerocheckEvaluator {
    fn n_round_evals(&self) -> usize {
        self.points.len()
    }

    fn process_vertex(
        &self,
        index: usize,
        evals_0: &[F],
        evals_1: &[F],
        evals_z: &mut Vec<F>,
        round_evals: &mut Vec<F>,
    ) {
        for (k, &z) in self.points.iter().enumerate() {
            for j in 0..evals_0.len() {
                evals_z[j] = extrapolate_line(evals_0[j], evals_1[j], z);
            }
            round_evals[k] =
                round_evals[k].add(self.eq_weights[index].mul(zero_on_cube(evals_z)));
        }
    }
}

#[test]
fn zerocheck_rounds_are_consistent_with_the_equality_indicator() {
    let n = 4;
    let a = arbitrary_bytes(21, 16);
    let b = arbitrary_bytes(22, 16);
    let c: Vec<u8> = a.iter().zip(&b).map(|(&x, &y)| f(x).mul(f(y)).val()).collect();
    let alphas = fs(&arbitrary_bytes(23, n));
    let challenges = fs(&arbitrary_bytes(24, n));
    let points = [f(1), f(2), f(3)];

    let operands: Vec<Small> = [a, b, c]
        .iter()
        .zip([1usize, 2, 4])
        .map(|(v, degree)| Small { inner: mle(v), degree })
        .collect();
    let mut prover = ProverState::new(n, operands, |degree| degree).unwrap();

    // The claim of the first round is zero; each later claim is the value of
    // the round polynomial before at its challenge.
    let mut claim = F::zero();
    for round in 0..n {
        let eq_weights =
            MultilinearQuery::with_full_query(&alphas[round + 1..]).unwrap().expansion().to_vec();
        let evaluator = ZerocheckEvaluator { eq_weights, points: points.to_vec() };
        let round_evals = prover.sum_round_evals(evaluator);
        assert_eq!(round_evals.len(), 3);
        if round == 0 {
            assert_eq!(round_evals[0], F::zero());
        }
        let at_zero = interpolate(&points, &round_evals, F::zero());
        let at_one = round_evals[0];
        let alpha = alphas[round];
        assert_eq!(F::one().sub(alpha).mul(at_zero).add(alpha.mul(at_one)), claim);
        claim = interpolate(&points, &round_evals, challenges[round]);
        prover.fold(challenges[round]).unwrap();
    }
    let finals: Vec<F> =
        (0..3).map(|j| prover.folded_multilinear(j).unwrap().values()[0]).collect();
    assert_eq!(zero_on_cube(&finals), claim);
}

#[test]
fn every_operand_has_the_remaining_variables_after_each_fold() {
    let data: Vec<Vec<u8>> = (0..3).map(|j| arbitrary_bytes(30 + j, 32)).collect();
    let operands: Vec<Small> = data
        .iter()
        .zip([1usize, 3, 5])
        .map(|(v, degree)| Small { inner: mle(v), degree })
        .collect();
    let mut prover = ProverState::new(5, operands, |degree| degree).unwrap();
    let switchovers = [1usize, 3, 5];
    let mut was_folded = [false; 3];
    for round in 1..=5usize {
        prover.fold(f(round as u8 * 17)).unwrap();
        assert_eq!(prover.round(), round);
        assert_eq!(prover.n_rounds(), 5);
        assert_eq!(prover.n_multilinears(), 3);
        let mut any_transparent = false;
        for j in 0..3 {
            let transparent = prover.is_transparent(j);
            assert_eq!(transparent, round < switchovers[j]);
            assert!(!(was_folded[j] && transparent));
            was_folded[j] = !transparent;
            any_transparent |= transparent;
            if let Some(folded) = prover.folded_multilinear(j) {
                assert_eq!(folded.n_vars(), 5 - round);
                assert_eq!(folded.values().len(), 1 << (5 - round));
            }
        }
        assert_eq!(prover.has_query(), any_transparent);
    }
}

#[test]
fn a_fold_halves_a_folded_operand_line_by_line() {
    let data = arbitrary_bytes(40, 8);
    let mut prover = ProverState::new(3, vec![mle(&data)], |_| 1).unwrap();
    prover.fold(f(0x31)).unwrap();
    let before = prover.folded_multilinear(0).unwrap().values().to_vec();
    let c = f(0xc6);
    prover.fold(c).unwrap();
    let after = prover.folded_multilinear(0).unwrap().values().to_vec();
    assert_eq!(after.len(), 2);
    for i in 0..2 {
        let expected = c.mul(before[2 * i + 1]).add(F::one().sub(c).mul(before[2 * i]));
        assert_eq!(after[i], expected);
    }
}

#[test]
fn the_round_sum_does_not_depend_on_the_number_of_workers() {
    let data: Vec<Vec<u8>> = (0..3).map(|j| arbitrary_bytes(50 + j, 1 << 9)).collect();
    let operands: Vec<Small> = data
        .iter()
        .zip([1usize, 2, 9])
        .map(|(v, degree)| Small { inner: mle(v), degree })
        .collect();
    let mut prover = ProverState::new(9, operands, |degree| degree).unwrap();
    for round in 0..3u8 {
        let mut results = Vec::new();
        for workers in [1usize, 2, 3, 7] {
            let pool = rayon::ThreadPoolBuilder::new().num_threads(workers).build().unwrap();
            results.push(pool.install(|| prover.sum_round_evals(IndexWeighted)));
        }
        for r in &results {
            assert_eq!(r, &results[0]);
        }
        // Against a sequential sum over the vertices.
        let pool = rayon::ThreadPoolBuilder::new().num_threads(4).build().unwrap();
        let product_evals =
            pool.install(|| prover.sum_round_evals(ProductEvaluator { domain: vec![f(2)] }));
        let mut naive: Vec<Vec<F>> = data.iter().map(|v| fs(v)).collect();
        for r in 0..round {
            naive = naive.iter().map(|v| naive_fold(v, f(r + 100))).collect();
        }
        assert_eq!(product_evals, naive_round(&naive, &[f(2)]));
        prover.fold(f(round + 100)).unwrap();
    }
}

#[test]
fn an_operand_with_the_wrong_number_of_variables_is_refused() {
    let operands = vec![mle(&[1, 2, 3, 4, 5, 6, 7, 8]), mle(&[1, 2, 3, 4]), mle(&[1, 2])];
    let r = ProverState::new(3, operands, |_| 1);
    assert!(matches!(
        r,
        Err(Error::IncorrectNumberOfVariables { expected: 3, actual: 2 })
    ));
}

#[test]
fn the_switchover_function_is_asked_in_order_and_not_past_a_mismatch() {
    let asked = std::cell::Cell::new(0usize);
    let operands = vec![
        Small { inner: mle(&[1, 2]), degree: 7 },
        Small { inner: mle(&[3, 4]), degree: 8 },
        Small { inner: mle(&[5]), degree: 9 },
        Small { inner: mle(&[6, 7]), degree: 10 },
    ];
    let r = ProverState::new(1, operands, |degree| {
        assert_eq!(degree, 7 + asked.get());
        asked.set(asked.get() + 1);
        1
    });
    assert!(matches!(
        r,
        Err(Error::IncorrectNumberOfVariables { expected: 1, actual: 0 })
    ));
    assert_eq!(asked.get(), 2);
}

#[test]
fn a_switchover_beyond_what_can_be_indexed_is_refused() {
    let bits = usize::BITS as usize;
    let r = ProverState::new(1, vec![mle(&[1, 2])], |_| bits);
    assert!(matches!(
        r,
        Err(Error::PolynomialFailure(PolynomialError::QuerySizeUnsupported))
    ));
}

#[test]
fn a_failure_to_materialize_is_passed_on() {
    let operands = vec![Unfoldable { inner: mle(&[1, 2, 3, 4]) }];
    let mut prover = ProverState::new(2, operands, |_| 2).unwrap();
    assert_eq!(prover.fold(f(3)), Ok(()));
    assert!(prover.is_transparent(0));
    assert_eq!(
        prover.fold(f(4)),
        Err(Error::PolynomialFailure(PolynomialError::OperandFailure))
    );
}

#[test]
fn a_switchover_of_zero_acts_like_one() {
    let data = arbitrary_bytes(60, 4);
    let mut zero = ProverState::new(2, vec![mle(&data)], |_| 0).unwrap();
    let mut one = ProverState::new(2, vec![mle(&data)], |_| 1).unwrap();
    assert!(zero.is_transparent(0));
    let challenges = [f(0x77), f(0x88)];
    let domain = [f(2)];
    assert_eq!(
        transcript(&mut zero, &challenges, &domain),
        transcript(&mut one, &challenges, &domain)
    );
    assert!(!zero.is_transparent(0));
}

#[test]
fn without_operands_the_query_is_dropped_by_the_first_fold() {
    let mut prover = ProverState::new(2, Vec::<MultilinearExtension<F>>::new(), |_| 1).unwrap();
    assert_eq!(prover.n_multilinears(), 0);
    assert!(prover.has_query());
    // Two vertices, each with the empty product 1: in characteristic 2 they cancel.
    assert_eq!(prover.sum_round_evals(ProductEvaluator { domain: vec![] }), vec![f(0)]);
    prover.fold(f(9)).unwrap();
    assert!(!prover.has_query());
    assert_eq!(prover.sum_round_evals(ProductEvaluator { domain: vec![] }), vec![f(1)]);
}

#[test]
fn after_the_last_round_the_sum_is_empty() {
    let mut prover = ProverState::new(1, vec![mle(&[5, 6])], |_| 1).unwrap();
    prover.fold(f(1)).unwrap();
    assert_eq!(prover.round(), prover.n_rounds());
    let round_evals = prover.sum_round_evals(ProductEvaluator { domain: vec![f(2), f(3)] });
    assert_eq!(round_evals, vec![f(0), f(0), f(0)]);
}

#[test]
fn every_kernel_that_fits_gives_the_same_sum() {
    let data: Vec<Vec<u8>> = (0..2).map(|j| arbitrary_bytes(70 + j, 8)).collect();
    let domain = vec![f(2)];
    let operands = || data.iter().map(|v| mle(v)).collect::<Vec<_>>();

    let transparent = ProverState::new(3, operands(), |_| 3).unwrap();
    let expected = naive_round(&data.iter().map(|v| fs(v)).collect::<Vec<_>>(), &domain);
    for kernel in [
        SamplingKernel::TransparentDirect,
        SamplingKernel::TransparentSubcube,
        SamplingKernel::Mixed,
    ] {
        let got = transparent
            .sum_round_evals_helper(kernel, ProductEvaluator { domain: domain.clone() });
        assert_eq!(got, expected);
    }

    let mut folded = ProverState::new(3, operands(), |_| 1).unwrap();
    let c = f(0x3a);
    folded.fold(c).unwrap();
    let naive: Vec<Vec<F>> = data.iter().map(|v| naive_fold(&fs(v), c)).collect();
    let expected = naive_round(&naive, &domain);
    for kernel in [SamplingKernel::FoldedDirect, SamplingKernel::Mixed] {
        let got =
            folded.sum_round_evals_helper(kernel, ProductEvaluator { domain: domain.clone() });
        assert_eq!(got, expected);
    }
}

#[test]
fn either_evaluator_acts_as_the_one_it_holds() {
    let data = arbitrary_bytes(80, 8);
    let prover = ProverState::new(3, vec![mle(&data)], |_| 1).unwrap();
    let left: Either<ProductEvaluator, IndexWeighted> =
        Either::Left(ProductEvaluator { domain: vec![f(2), f(3)] });
    let right: Either<ProductEvaluator, IndexWeighted> = Either::Right(IndexWeighted);
    assert_eq!(left.n_round_evals(), 3);
    assert_eq!(right.n_round_evals(), 2);
    assert_eq!(
        prover.sum_round_evals(left),
        prover.sum_round_evals(ProductEvaluator { domain: vec![f(2), f(3)] })
    );
    assert_eq!(prover.sum_round_evals(right), prover.sum_round_evals(IndexWeighted));
}

#[test]
fn the_outcome_of_a_switchover_is_the_folded_operand_or_the_failure() {
    let ok = switchover_outcome::<F, MultilinearExtension<F>>(Ok(mle(&[4, 5])));
    match ok {
        Ok(SumcheckMultilinear::Folded { large_field_folded_multilin }) => {
            assert_eq!(large_field_folded_multilin.values(), &[f(4), f(5)]);
        }
        _ => panic!("a folded operand was expected"),
    }
    let err =
        switchover_outcome::<F, MultilinearExtension<F>>(Err(PolynomialError::QueryTooLarge));
    assert!(matches!(err, Err(Error::PolynomialFailure(PolynomialError::QueryTooLarge))));
}

#[test]
fn operands_are_unpacked_by_kind() {
    let transparent: SumcheckMultilinear<F, MultilinearExtension<F>> =
        SumcheckMultilinear::Transparent { switchover: 2, small_field_multilin: mle(&[1, 2]) };
    let got = ProverState::<F, MultilinearExtension<F>>::only_transparent(&transparent);
    assert_eq!(got.values(), &[f(1), f(2)]);
    let folded: SumcheckMultilinear<F, MultilinearExtension<F>> =
        SumcheckMultilinear::Folded { large_field_folded_multilin: mle(&[3, 4]) };
    let got = ProverState::<F, MultilinearExtension<F>>::only_folded(&folded);
    assert_eq!(got.values(), &[f(3), f(4)]);
}

#[test]
fn powers_of_two() {
    assert_eq!(pow2_usize(0), 1);
    assert_eq!(pow2_usize(1), 2);
    assert_eq!(pow2_usize(10), 1024);
}
