//! Rounds of regular sumcheck over a composite polynomial.
//!
//! The round polynomial of a composite of degree `d` is sent as its values at
//! the points `1, z_2, .., z_d` of an evaluation domain `0, 1, z_2, .., z_d`;
//! the verifier gets its value at 0 from the claimed sum.
use crate::contraction::{
    fold_step, lemma_fold_step_value, lemma_mul_distributes_right, lemma_one_mul, lemma_zero_mul,
    partial_low_spec,
};
use crate::error::{Error, PolynomialError};
use crate::evaluator::SumcheckEvaluator;
use crate::field::{add_seqs, extrapolate_line, extrapolate_line_spec, zeros, Field};
use crate::multilinear::MultilinearPoly;
use crate::prover::{pow2_usize, ProverState};
use crate::query::{fits_usize, lemma_pow2_monotonic, MultilinearQuery};
use crate::vertex_sum::{
    column, lemma_add_seqs_zeros, query_weights, range_sum, sampled_values, sum_over_vertices,
    Sampler,
};
use vstd::arithmetic::power2::{lemma_pow2_unfold, pow2};
use vstd::prelude::*;

verus! {

/// A polynomial in several variables that is applied to the operands' values.
pub trait CompositionPoly<F: Field> {
    /// The number of variables, one per operand.
    open spec fn n_vars_spec(&self) -> nat {
        arbitrary()
    }

    /// The total degree.
    open spec fn degree_spec(&self) -> nat {
        arbitrary()
    }

    /// The value at the point `query`.
    open spec fn evaluate_spec(&self, query: Seq<F>) -> F {
        arbitrary()
    }

    /// The number of variables.
    fn n_vars(&self) -> (n: usize)
        ensures
            n == self.n_vars_spec(),
    ;

    /// The total degree.
    fn degree(&self) -> (d: usize)
        ensures
            d == self.degree_spec(),
    ;

    /// The value at the point `query`; fails exactly when `query` does not
    /// have one coordinate per variable.
    fn evaluate(&self, query: &[F]) -> (r: Result<F, PolynomialError>)
        ensures
            r is Ok <==> query@.len() == self.n_vars_spec(),
            r is Ok ==> r->Ok_0 == self.evaluate_spec(query@),
    ;
}

/// The product of two variables.
#[derive(Clone, Copy, Debug)]
pub struct BivariateProduct;

impl<F: Field> CompositionPoly<F> for BivariateProduct {
    open spec fn n_vars_spec(&self) -> nat {
        2
    }

    open spec fn degree_spec(&self) -> nat {
        2
    }

    open spec fn evaluate_spec(&self, query: Seq<F>) -> F {
        query[0].mul_spec(query[1])
    }

    fn n_vars(&self) -> (n: usize) {
        2
    }

    fn degree(&self) -> (d: usize) {
        2
    }

    fn evaluate(&self, query: &[F]) -> (r: Result<F, PolynomialError>)
        ensures
            r is Err ==> r == Err::<F, PolynomialError>(PolynomialError::IncorrectQuerySize),
    {
        if query.len() != 2 {
            return Err(PolynomialError::IncorrectQuerySize);
        }
        Ok(query[0].mul(query[1]))
    }
}

/// The points at which round polynomials are evaluated: 0, 1 and further ones.
#[derive(Clone, Debug)]
pub struct EvaluationDomain<F: Field> {
    /// The points, 0 and 1 first.
    pub points: Vec<F>,
}

impl<F: Field> EvaluationDomain<F> {
    /// The points of the domain.
    pub fn points(&self) -> (p: &[F])
        ensures
            p@ == self.points@,
    {
        self.points.as_slice()
    }
}

/// What the verifier holds at the start of a round: the challenges so far and
/// the sum that the round polynomial has to account for.
#[derive(Clone, Debug)]
pub struct SumcheckRoundClaim<F: Field> {
    /// The challenges of the rounds before.
    pub partial_point: Vec<F>,
    /// The sum claimed for the current round.
    pub current_round_sum: F,
}

/// The prover's message of one round.
#[derive(Clone, Debug)]
pub struct SumcheckRound<F: Field> {
    /// The values of the round polynomial at 1 and at the further points of
    /// the domain.
    pub coeffs: Vec<F>,
}

/// The prover's messages of the rounds so far.
#[derive(Clone, Debug)]
pub struct SumcheckProof<F: Field> {
    /// One message per round, in order.
    pub rounds: Vec<SumcheckRound<F>>,
}

/// A composition polynomial applied to multilinear operands that all have the
/// same number of variables.
#[derive(Debug)]
pub struct MultilinearComposite<F: Field, M: MultilinearPoly<F>, C: CompositionPoly<F>> {
    /// The composition.
    pub composition: C,
    /// The number of variables of every operand.
    pub n_vars: usize,
    /// The operands.
    pub multilinears: Vec<M>,
    /// The field of the operands' values.
    pub field: core::marker::PhantomData<F>,
}

impl<F, M, C> Clone for MultilinearComposite<F, M, C> where
    F: Field,
    M: MultilinearPoly<F> + Clone,
    C: CompositionPoly<F> + Clone,
{
    fn clone(&self) -> (r: Self) {
        MultilinearComposite {
            composition: self.composition.clone(),
            n_vars: self.n_vars,
            multilinears: self.multilinears.clone(),
            field: core::marker::PhantomData,
        }
    }
}

impl<F: Field, M: MultilinearPoly<F>, C: CompositionPoly<F>> MultilinearComposite<F, M, C> {
    /// The composition has one variable per operand, and every operand is
    /// consistent and has `n_vars` variables.
    pub open spec fn wf(&self) -> bool {
        &&& self.composition.n_vars_spec() == self.multilinears@.len()
        &&& fits_usize(self.n_vars as nat)
        &&& forall|j: int|
            0 <= j < self.multilinears@.len() ==> {
                &&& (#[trigger] self.multilinears@[j]).wf()
                &&& self.multilinears@[j].n_vars_spec() == self.n_vars
            }
    }

    /// The composite of `composition` over `multilinears`, each of `n_vars`
    /// variables.
    ///
    /// Fails with `IncorrectNumberOfVariables` when the composition does not
    /// have one variable per operand, or else for the first operand that does
    /// not have `n_vars` variables.
    pub fn new(n_vars: usize, composition: C, multilinears: Vec<M>) -> (r: Result<Self, Error>)
        requires
            fits_usize(n_vars as nat),
            forall|j: int| 0 <= j < multilinears@.len() ==> (#[trigger] multilinears@[j]).wf(),
        ensures
            r is Ok <==> composition.n_vars_spec() == multilinears@.len() && forall|j: int|
                0 <= j < multilinears@.len() ==> (#[trigger] multilinears@[j]).n_vars_spec()
                    == n_vars,
            r is Ok ==> {
                &&& r->Ok_0.wf()
                &&& r->Ok_0.composition == composition
                &&& r->Ok_0.n_vars == n_vars
                &&& r->Ok_0.multilinears == multilinears
            },
            r is Err ==> r->Err_0 is IncorrectNumberOfVariables,
    {
        let expected = composition.n_vars();
        if expected != multilinears.len() {
            return Err(
                Error::IncorrectNumberOfVariables { expected, actual: multilinears.len() },
            );
        }
        let k = multilinears.len();
        let mut j: usize = 0;
        while j < k
            invariant
                j <= k,
                k == multilinears@.len(),
                forall|t: int| 0 <= t < multilinears@.len() ==> (#[trigger] multilinears@[t]).wf(),
                forall|t: int| 0 <= t < j ==> (#[trigger] multilinears@[t]).n_vars_spec() == n_vars,
            decreases k - j,
        {
            let actual = multilinears[j].n_vars();
            if actual != n_vars {
                return Err(Error::IncorrectNumberOfVariables { expected: n_vars, actual });
            }
            j += 1;
        }
        Ok(
            MultilinearComposite {
                composition,
                n_vars,
                multilinears,
                field: core::marker::PhantomData,
            },
        )
    }

    /// The total degree of the composition.
    pub fn degree(&self) -> (d: usize)
        ensures
            d == self.composition.degree_spec(),
    {
        self.composition.degree()
    }

    /// The number of variables of every operand.
    pub fn n_vars(&self) -> (n: usize)
        ensures
            n == self.n_vars,
    {
        self.n_vars
    }

    /// The number of operands.
    pub fn n_multilinears(&self) -> (k: usize)
        ensures
            k == self.multilinears@.len(),
    {
        self.multilinears.len()
    }
}

/// The values at `z` of the lines through the operands' values at 0 and at 1.
pub open spec fn lines_at<F: Field>(evals_0: Seq<F>, evals_1: Seq<F>, z: F) -> Seq<F> {
    Seq::new(evals_0.len(), |j: int| extrapolate_line_spec(evals_0[j], evals_1[j], z))
}

/// The share of one vertex in the evaluations of a regular sumcheck round:
/// entry 0 is the composition of the operands' values at 1; entry `k` for
/// `k >= 1` is the composition of their values at point `k + 1` of the domain,
/// or zero when the domain has no such point.
pub open spec fn regular_vertex_evals<F: Field, C: CompositionPoly<F>>(
    composition: &C,
    domain: Seq<F>,
    width: nat,
    evals_0: Seq<F>,
    evals_1: Seq<F>,
) -> Seq<F> {
    Seq::new(
        width,
        |k: int|
            if k == 0 {
                composition.evaluate_spec(evals_1)
            } else if k + 1 < domain.len() {
                composition.evaluate_spec(lines_at(evals_0, evals_1, domain[k + 1]))
            } else {
                F::zero_spec()
            },
    )
}

/// Adds the share of one vertex to the evaluations of a regular sumcheck
/// round.
///
/// `evals_0` and `evals_1` hold the operands' values with the round's variable
/// at 0 and at 1, and `evals_z` is scratch space of the same length. The
/// composition of the values at 1 is added to `round_evals[0]`; then, for each
/// further point of the domain, the operands' values are extrapolated to it and
/// their composition is added to the next entry.
pub fn process_round_evals<F: Field, C: CompositionPoly<F>>(
    composition: &C,
    evals_0: &[F],
    evals_1: &[F],
    evals_z: &mut Vec<F>,
    round_evals: &mut Vec<F>,
    domain: &[F],
)
    requires
        evals_0@.len() == composition.n_vars_spec(),
        evals_1@.len() == composition.n_vars_spec(),
        old(evals_z)@.len() == composition.n_vars_spec(),
        domain@.len() >= 1,
        old(round_evals)@.len() >= 1,
        domain@.len() - 1 <= old(round_evals)@.len(),
    ensures
        final(evals_z)@.len() == old(evals_z)@.len(),
        final(round_evals)@ == add_seqs(
            old(round_evals)@,
            regular_vertex_evals(
                composition,
                domain@,
                old(round_evals)@.len(),
                evals_0@,
                evals_1@,
            ),
        ),
{
    let degree = domain.len() - 1;
    let n = evals_0.len();
    let ghost before = round_evals@;
    let ghost share = regular_vertex_evals(composition, domain@, before.len(), evals_0@, evals_1@);

    let at_one = composition.evaluate(evals_1).unwrap();
    let sum = round_evals[0].add(at_one);
    round_evals.set(0, sum);

    let mut d: usize = 2;
    while d <= degree
        invariant
            2 <= d,
            d <= degree + 1 || degree < 2,
            degree == domain@.len() - 1,
            degree <= before.len(),
            n == evals_0@.len(),
            n == evals_1@.len(),
            n == evals_z@.len(),
            n == composition.n_vars_spec(),
            round_evals@.len() == before.len(),
            share == regular_vertex_evals(composition, domain@, before.len(), evals_0@, evals_1@),
            forall|k: int|
                0 <= k < d - 1 && k < before.len() ==> round_evals@[k] == before[k].add_spec(
                    share[k],
                ),
            forall|k: int| d - 1 <= k < before.len() ==> round_evals@[k] == before[k],
        decreases degree + 1 - d,
    {
        let z = domain[d];
        let mut j: usize = 0;
        while j < n
            invariant
                j <= n,
                n == evals_0@.len(),
                n == evals_1@.len(),
                n == evals_z@.len(),
                forall|t: int|
                    0 <= t < j ==> evals_z@[t] == extrapolate_line_spec(
                        evals_0@[t],
                        evals_1@[t],
                        z,
                    ),
            decreases n - j,
        {
            let v = extrapolate_line(evals_0[j], evals_1[j], z);
            evals_z.set(j, v);
            j += 1;
        }
        assert(evals_z@ =~= lines_at(evals_0@, evals_1@, z));
        let at_z = composition.evaluate(evals_z.as_slice()).unwrap();
        let sum = round_evals[d - 1].add(at_z);
        round_evals.set(d - 1, sum);
        d += 1;
    }
    proof {
        assert forall|k: int| 0 <= k < before.len() implies round_evals@[k] == before[k].add_spec(
            share[k],
        ) by {
            if k >= d - 1 {
                F::lemma_ring_laws(before[k], before[k], before[k]);
            }
        }
        assert(round_evals@ =~= add_seqs(before, share));
    }
}

/// The evaluator of regular sumcheck: the composition, sampled at 1 and at
/// the further points of the domain.
pub struct CompositeEvaluator<'a, F: Field, C: CompositionPoly<F>> {
    /// The composition.
    pub composition: &'a C,
    /// The points of the evaluation domain, 0 and 1 first.
    pub domain: &'a Vec<F>,
    /// The number of evaluations per round.
    pub degree: usize,
}

impl<'a, F: Field, C: CompositionPoly<F>> CompositeEvaluator<'a, F, C> {
    /// There is at least one evaluation per round, and the domain is not
    /// empty and has no more points than one more than there are evaluations.
    pub open spec fn usable(&self) -> bool {
        1 <= self.degree && 1 <= self.domain@.len() <= self.degree + 1
    }
}

impl<'a, F: Field, C: CompositionPoly<F>> SumcheckEvaluator<F> for CompositeEvaluator<'a, F, C> {
    open spec fn n_round_evals_spec(&self) -> nat {
        self.degree as nat
    }

    /// The share of regular sumcheck, where the evaluator is usable and there
    /// is one value per variable of the composition; no share otherwise.
    open spec fn vertex_evals(&self, index: nat, evals_0: Seq<F>, evals_1: Seq<F>) -> Seq<F> {
        if self.usable() && evals_0.len() == self.composition.n_vars_spec() {
            regular_vertex_evals(
                self.composition,
                self.domain@,
                self.degree as nat,
                evals_0,
                evals_1,
            )
        } else {
            zeros(self.degree as nat)
        }
    }

    fn n_round_evals(&self) -> (n: usize) {
        self.degree
    }

    fn process_vertex(
        &self,
        index: usize,
        evals_0: &[F],
        evals_1: &[F],
        evals_z: &mut Vec<F>,
        round_evals: &mut Vec<F>,
    ) {
        if self.degree >= 1 && self.domain.len() >= 1 && self.domain.len() - 1 <= self.degree
            && evals_0.len() == self.composition.n_vars() {
            process_round_evals(
                self.composition,
                evals_0,
                evals_1,
                evals_z,
                round_evals,
                self.domain.as_slice(),
            );
        } else {
            proof {
                lemma_add_seqs_zeros(round_evals@);
            }
        }
    }
}

/// The sum, over the vertices `lo .. hi`, of the shares of regular sumcheck.
pub open spec fn regular_range_sum<F: Field, C: CompositionPoly<F>>(
    composition: &C,
    domain: Seq<F>,
    width: nat,
    values: Seq<Seq<F>>,
    lo: int,
    hi: int,
) -> Seq<F>
    decreases hi - lo,
{
    if hi <= lo {
        zeros(width)
    } else {
        add_seqs(
            regular_range_sum(composition, domain, width, values, lo, hi - 1),
            regular_vertex_evals(
                composition,
                domain,
                width,
                column(values, 2 * (hi - 1)),
                column(values, 2 * (hi - 1) + 1),
            ),
        )
    }
}

/// The evaluations of a regular sumcheck round over operands with the values
/// `values`: entry 0 is the sum over the vertices `i` below `n_vertices` of the
/// composition of the operands' values at `2i + 1`; entry `k >= 1` is the sum
/// of the composition of the values on the lines through `2i` and `2i + 1` at
/// point `k + 1` of the domain.
pub open spec fn regular_round_evals<F: Field, C: CompositionPoly<F>>(
    composition: &C,
    domain: Seq<F>,
    width: nat,
    values: Seq<Seq<F>>,
    n_vertices: nat,
) -> Seq<F> {
    regular_range_sum(composition, domain, width, values, 0, n_vertices as int)
}

/// Summing the shares of a usable regular evaluator is summing the shares of
/// regular sumcheck.
pub proof fn lemma_regular_sum<F: Field, C: CompositionPoly<F>>(
    evaluator: &CompositeEvaluator<'_, F, C>,
    values: Seq<Seq<F>>,
    lo: int,
    hi: int,
)
    requires
        evaluator.usable(),
        values.len() == evaluator.composition.n_vars_spec(),
    ensures
        range_sum(evaluator, values, evaluator.degree as nat, lo, hi) == regular_range_sum(
            evaluator.composition,
            evaluator.domain@,
            evaluator.degree as nat,
            values,
            lo,
            hi,
        ),
    decreases hi - lo,
{
    if hi > lo {
        lemma_regular_sum(evaluator, values, lo, hi - 1);
        assert(column(values, 2 * (hi - 1)).len() == values.len());
    }
}

/// The operands of a regular sumcheck before switchover: the composite, and
/// the tensor of the challenges so far.
#[derive(Clone, Debug)]
pub struct PreSwitchoverWitness<F: Field, M: MultilinearPoly<F>, C: CompositionPoly<F>> {
    /// The composite over the operands as given.
    pub polynomial: MultilinearComposite<F, M, C>,
    /// The tensor of the challenges so far.
    pub tensor: MultilinearQuery<F>,
}

/// What a round before switchover hands on.
#[derive(Clone, Debug)]
pub struct PreSwitchoverRoundOutput<F: Field, M: MultilinearPoly<F>, C: CompositionPoly<F>> {
    /// The claim of the round.
    pub claim: SumcheckRoundClaim<F>,
    /// The proof, with the round's message added.
    pub current_proof: SumcheckProof<F>,
    /// The witness, unchanged.
    pub current_witness: PreSwitchoverWitness<F, M, C>,
}

/// The operands of a regular sumcheck after switchover: the composite over
/// the folded operands.
pub type PostSwitchoverWitness<F, M, C> = MultilinearComposite<F, M, C>;

/// What a round after switchover hands on.
#[derive(Clone, Debug)]
pub struct PostSwitchoverRoundOutput<F: Field, M: MultilinearPoly<F>, C: CompositionPoly<F>> {
    /// The claim of the round.
    pub claim: SumcheckRoundClaim<F>,
    /// The proof, with the round's message added.
    pub current_proof: SumcheckProof<F>,
    /// The witness, unchanged.
    pub current_witness: PostSwitchoverWitness<F, M, C>,
}

/// The evaluations of a round over the composite `poly`, each operand sampled
/// directly, or contracted against `tensor` where there is one.
fn round_evals_of_composite<F, M, C>(
    poly: &MultilinearComposite<F, M, C>,
    tensor: Option<&MultilinearQuery<F>>,
    domain: &Vec<F>,
) -> (coeffs: Vec<F>) where
    F: Field + Send + Sync,
    M: MultilinearPoly<F> + Sync,
    C: CompositionPoly<F> + Sync,

    requires
        poly.wf(),
        poly.composition.degree_spec() >= 1,
        1 <= domain@.len() <= poly.composition.degree_spec() + 1,
        tensor is Some ==> tensor->0.wf() && tensor->0@.len() < poly.n_vars,
        tensor is None ==> poly.n_vars >= 1,
    ensures
        coeffs@ == regular_round_evals(
            &poly.composition,
            domain@,
            poly.composition.degree_spec(),
            composite_values(poly, tensor),
            composite_vertices(poly, tensor),
        ),
{
    let degree = poly.degree();
    let fixed = match tensor {
        Some(t) => t.n_vars(),
        None => 0,
    };
    let rd_vars = poly.n_vars() - fixed;
    proof {
        lemma_pow2_monotonic((rd_vars - 1) as nat, poly.n_vars as nat);
        lemma_pow2_unfold(rd_vars as nat);
    }
    let n_vertices = pow2_usize(rd_vars - 1);
    let n_multilinears = poly.multilinears.len();
    let mut samplers: Vec<Sampler<'_, F, M>> = Vec::new();
    let mut j: usize = 0;
    while j < n_multilinears
        invariant
            j <= n_multilinears,
            n_multilinears == poly.multilinears@.len(),
            poly.wf(),
            tensor is Some ==> tensor->0.wf() && tensor->0@.len() == fixed,
            tensor is None ==> fixed == 0,
            fixed < poly.n_vars,
            rd_vars == poly.n_vars - fixed,
            pow2(rd_vars as nat) == 2 * n_vertices,
            samplers@.len() == j,
            forall|t: int|
                0 <= t < j ==> {
                    &&& (#[trigger] samplers@[t]).wf(tensor, n_vertices as nat)
                    &&& samplers@[t].values(query_weights(tensor)) == composite_values(
                        poly,
                        tensor,
                    )[t]
                },
        decreases n_multilinears - j,
    {
        let multilin = &poly.multilinears[j];
        assert(poly.multilinears@[j as int].wf());
        let n = multilin.n_vars();
        let sampler = match tensor {
            Some(_) => Sampler::Subcube(multilin),
            None => Sampler::Direct(multilin),
        };
        samplers.push(sampler);
        j += 1;
    }
    let evaluator = CompositeEvaluator { composition: &poly.composition, domain, degree };
    proof {
        let values = composite_values(poly, tensor);
        assert(sampled_values(samplers@, query_weights(tensor)) =~= values);
        lemma_regular_sum(&evaluator, values, 0, n_vertices as int);
    }
    sum_over_vertices(&samplers, tensor, &evaluator, n_vertices)
}

/// The values of the operands of `poly` on the hypercube of the variables that
/// remain once those of `tensor`, if there is one, are fixed.
pub open spec fn composite_values<F: Field, M: MultilinearPoly<F>, C: CompositionPoly<F>>(
    poly: &MultilinearComposite<F, M, C>,
    tensor: Option<&MultilinearQuery<F>>,
) -> Seq<Seq<F>> {
    Seq::new(
        poly.multilinears@.len(),
        |j: int|
            match tensor {
                Some(t) => partial_low_spec(poly.multilinears@[j].evals(), t.expansion_spec()),
                None => poly.multilinears@[j].evals(),
            },
    )
}

/// The number of vertices a round over `poly` sums over: half the hypercube of
/// the variables that remain once those of `tensor`, if there is one, are fixed.
pub open spec fn composite_vertices<F: Field, M: MultilinearPoly<F>, C: CompositionPoly<F>>(
    poly: &MultilinearComposite<F, M, C>,
    tensor: Option<&MultilinearQuery<F>>,
) -> nat {
    match tensor {
        Some(t) => pow2((poly.n_vars - t@.len() - 1) as nat),
        None => pow2((poly.n_vars - 1) as nat),
    }
}

/// The first round of regular sumcheck: nothing has been fixed yet, and every
/// operand is sampled directly.
///
/// The result carries the claim and the witness as given, and a proof of one
/// round with the evaluations of the round polynomial.
pub fn compute_round_coeffs_first<F, M, C>(
    round_claim: SumcheckRoundClaim<F>,
    current_witness: PreSwitchoverWitness<F, M, C>,
    domain: &EvaluationDomain<F>,
) -> (r: Result<PreSwitchoverRoundOutput<F, M, C>, Error>) where
    F: Field + Send + Sync,
    M: MultilinearPoly<F> + Sync,
    C: CompositionPoly<F> + Sync,

    requires
        current_witness.polynomial.wf(),
        current_witness.polynomial.n_vars >= 1,
        current_witness.polynomial.composition.degree_spec() >= 1,
        1 <= domain.points@.len() <= current_witness.polynomial.composition.degree_spec() + 1,
    ensures
        r is Ok,
        r->Ok_0.claim == round_claim,
        r->Ok_0.current_witness == current_witness,
        r->Ok_0.current_proof.rounds@.len() == 1,
        r->Ok_0.current_proof.rounds@[0].coeffs@ == regular_round_evals(
            &current_witness.polynomial.composition,
            domain.points@,
            current_witness.polynomial.composition.degree_spec(),
            composite_values(&current_witness.polynomial, None),
            composite_vertices(&current_witness.polynomial, None),
        ),
{
    let PreSwitchoverWitness { polynomial: poly, tensor } = current_witness;
    let coeffs = round_evals_of_composite(&poly, None, &domain.points);
    let mut rounds: Vec<SumcheckRound<F>> = Vec::new();
    rounds.push(SumcheckRound { coeffs });
    let current_proof = SumcheckProof { rounds };
    let result = PreSwitchoverRoundOutput {
        claim: round_claim,
        current_proof,
        current_witness: PreSwitchoverWitness { polynomial: poly, tensor },
    };
    Ok(result)
}

/// A later round of regular sumcheck before switchover: every operand is
/// contracted against the tensor of the challenges so far.
///
/// The result carries the claim and the witness as given, and the proof with
/// one more round: the evaluations of the round polynomial.
pub fn compute_round_coeffs_pre_switchover<F, M, C>(
    updated_claim: SumcheckRoundClaim<F>,
    current_proof: SumcheckProof<F>,
    current_witness: PreSwitchoverWitness<F, M, C>,
    domain: &EvaluationDomain<F>,
) -> (r: Result<PreSwitchoverRoundOutput<F, M, C>, Error>) where
    F: Field + Send + Sync,
    M: MultilinearPoly<F> + Sync,
    C: CompositionPoly<F> + Sync,

    requires
        current_witness.polynomial.wf(),
        current_witness.tensor.wf(),
        current_witness.tensor@.len() < current_witness.polynomial.n_vars,
        current_witness.polynomial.composition.degree_spec() >= 1,
        1 <= domain.points@.len() <= current_witness.polynomial.composition.degree_spec() + 1,
    ensures
        r is Ok,
        r->Ok_0.claim == updated_claim,
        r->Ok_0.current_witness == current_witness,
        r->Ok_0.current_proof.rounds@.len() == current_proof.rounds@.len() + 1,
        r->Ok_0.current_proof.rounds@.drop_last() == current_proof.rounds@,
        r->Ok_0.current_proof.rounds@.last().coeffs@ == regular_round_evals(
            &current_witness.polynomial.composition,
            domain.points@,
            current_witness.polynomial.composition.degree_spec(),
            composite_values(&current_witness.polynomial, Some(&current_witness.tensor)),
            composite_vertices(&current_witness.polynomial, Some(&current_witness.tensor)),
        ),
{
    let PreSwitchoverWitness { polynomial: poly, tensor } = current_witness;
    let mut updated_proof = current_proof;
    let coeffs = round_evals_of_composite(&poly, Some(&tensor), &domain.points);

    // With the claim, the evaluations determine the round polynomial.
    updated_proof.rounds.push(SumcheckRound { coeffs });
    assert(updated_proof.rounds@.drop_last() =~= current_proof.rounds@);
    let result = PreSwitchoverRoundOutput {
        claim: updated_claim,
        current_proof: updated_proof,
        current_witness: PreSwitchoverWitness { polynomial: poly, tensor },
    };
    Ok(result)
}

/// A round of regular sumcheck after switchover: the operands have been
/// folded, and every one is sampled directly.
///
/// The result carries the claim and the witness as given, and the proof with
/// one more round: the evaluations of the round polynomial.
pub fn compute_round_coeffs_post_switchover<F, M, C>(
    updated_claim: SumcheckRoundClaim<F>,
    current_proof: SumcheckProof<F>,
    current_witness: PostSwitchoverWitness<F, M, C>,
    domain: &EvaluationDomain<F>,
) -> (r: Result<PostSwitchoverRoundOutput<F, M, C>, Error>) where
    F: Field + Send + Sync,
    M: MultilinearPoly<F> + Sync,
    C: CompositionPoly<F> + Sync,

    requires
        current_witness.wf(),
        current_witness.n_vars >= 1,
        current_witness.composition.degree_spec() >= 1,
        1 <= domain.points@.len() <= current_witness.composition.degree_spec() + 1,
    ensures
        r is Ok,
        r->Ok_0.claim == updated_claim,
        r->Ok_0.current_witness == current_witness,
        r->Ok_0.current_proof.rounds@.len() == current_proof.rounds@.len() + 1,
        r->Ok_0.current_proof.rounds@.drop_last() == current_proof.rounds@,
        r->Ok_0.current_proof.rounds@.last().coeffs@ == regular_round_evals(
            &current_witness.composition,
            domain.points@,
            current_witness.composition.degree_spec(),
            composite_values(&current_witness, None),
            composite_vertices(&current_witness, None),
        ),
{
    let poly = current_witness;
    let mut updated_proof = current_proof;
    let coeffs = round_evals_of_composite(&poly, None, &domain.points);
    updated_proof.rounds.push(SumcheckRound { coeffs });
    assert(updated_proof.rounds@.drop_last() =~= current_proof.rounds@);
    let result = PostSwitchoverRoundOutput {
        claim: updated_claim,
        current_proof: updated_proof,
        current_witness: poly,
    };
    Ok(result)
}

/// The sum of the composition over the first `n` vertices of the hypercube
/// that the operands' values `values` live on.
pub open spec fn hypercube_sum<F: Field, C: CompositionPoly<F>>(
    composition: &C,
    values: Seq<Seq<F>>,
    n: nat,
) -> F
    decreases n,
{
    if n == 0 {
        F::zero_spec()
    } else {
        hypercube_sum(composition, values, (n - 1) as nat).add_spec(
            composition.evaluate_spec(column(values, n - 1)),
        )
    }
}

/// The value at `z` of the round polynomial: the sum, over the vertices `i`
/// below `n`, of the composition of the values at `z` of the lines through the
/// operands' values at `2i` and at `2i + 1`.
pub open spec fn round_polynomial_at<F: Field, C: CompositionPoly<F>>(
    composition: &C,
    values: Seq<Seq<F>>,
    z: F,
    n: nat,
) -> F
    decreases n,
{
    if n == 0 {
        F::zero_spec()
    } else {
        round_polynomial_at(composition, values, z, (n - 1) as nat).add_spec(
            composition.evaluate_spec(
                lines_at(column(values, 2 * (n - 1)), column(values, 2 * (n - 1) + 1), z),
            ),
        )
    }
}

/// The values of the operands when the first variable of each is fixed to `c`.
pub open spec fn folded_values<F: Field>(values: Seq<Seq<F>>, c: F) -> Seq<Seq<F>> {
    Seq::new(values.len(), |j: int| fold_step(values[j], c))
}

/// The line through `(0, x0)` and `(1, x1)` takes the value `x0` at 0 and `x1`
/// at 1, and at `c` the value `c * x1 + (1 - c) * x0`.
pub proof fn lemma_line_values<F: Field>(x0: F, x1: F, c: F)
    ensures
        extrapolate_line_spec(x0, x1, F::zero_spec()) == x0,
        extrapolate_line_spec(x0, x1, F::one_spec()) == x1,
        extrapolate_line_spec(x0, x1, c) == c.mul_spec(x1).add_spec(
            F::one_spec().sub_spec(c).mul_spec(x0),
        ),
{
    let zero = F::zero_spec();
    let one = F::one_spec();
    let d = x1.sub_spec(x0);
    let e = one.sub_spec(c);
    // At 0: x0 + d * 0 == x0.
    F::lemma_ring_laws(d, zero, zero);
    lemma_zero_mul(d);
    F::lemma_ring_laws(x0, zero, zero);
    // At 1: x0 + d * 1 == x0 + d == d + x0 == x1.
    F::lemma_ring_laws(d, one, one);
    F::lemma_ring_laws(x0, d, d);
    F::lemma_ring_laws(x1, x0, x0);
    // At c: c * x1 == c * d + c * x0, and e * x0 + c * x0 == x0.
    F::lemma_ring_laws(c, d, x0);
    F::lemma_ring_laws(one, c, c);
    lemma_mul_distributes_right(e, c, x0);
    lemma_one_mul(x0);
    F::lemma_ring_laws(c.mul_spec(d), c.mul_spec(x0), e.mul_spec(x0));
    F::lemma_ring_laws(c.mul_spec(x0), e.mul_spec(x0), x0);
    F::lemma_ring_laws(c.mul_spec(d), x0, x0);
    assert(c.mul_spec(x1).add_spec(e.mul_spec(x0)) == x0.add_spec(c.mul_spec(d)));
}

/// `(a + x) + (b + y) == ((a + b) + x) + y`.
proof fn lemma_add_interleave<F: Field>(a: F, x: F, b: F, y: F)
    ensures
        a.add_spec(x).add_spec(b.add_spec(y)) == a.add_spec(b).add_spec(x).add_spec(y),
{
    F::lemma_ring_laws(a.add_spec(x), b, y);
    F::lemma_ring_laws(a, x, b);
    F::lemma_ring_laws(x, b, b);
    F::lemma_ring_laws(a, b, x);
}

/// The round equation of sumcheck: the sum of the composition over the whole
/// hypercube is the value of the round polynomial at 0 plus its value at 1.
pub proof fn lemma_sumcheck_round_identity<F: Field, C: CompositionPoly<F>>(
    composition: &C,
    values: Seq<Seq<F>>,
    n: nat,
)
    ensures
        hypercube_sum(composition, values, 2 * n) == round_polynomial_at(
            composition,
            values,
            F::zero_spec(),
            n,
        ).add_spec(round_polynomial_at(composition, values, F::one_spec(), n)),
    decreases n,
{
    let zero = F::zero_spec();
    let one = F::one_spec();
    if n == 0 {
        F::lemma_ring_laws(zero, zero, zero);
    } else {
        let m: int = n - 1;
        lemma_sumcheck_round_identity(composition, values, m as nat);
        let e0 = column(values, 2 * m);
        let e1 = column(values, 2 * m + 1);
        assert forall|j: int| 0 <= j < e0.len() implies lines_at(e0, e1, zero)[j] == e0[j]
            && lines_at(e0, e1, one)[j] == e1[j] by {
            lemma_line_values(e0[j], e1[j], zero);
        }
        assert(lines_at(e0, e1, zero) =~= e0);
        assert(lines_at(e0, e1, one) =~= e1);
        assert(hypercube_sum(composition, values, 2 * n) == hypercube_sum(
            composition,
            values,
            (2 * n - 1) as nat,
        ).add_spec(composition.evaluate_spec(e1)));
        assert(hypercube_sum(composition, values, (2 * n - 1) as nat) == hypercube_sum(
            composition,
            values,
            (2 * m) as nat,
        ).add_spec(composition.evaluate_spec(e0)));
        lemma_add_interleave(
            round_polynomial_at(composition, values, zero, m as nat),
            composition.evaluate_spec(e0),
            round_polynomial_at(composition, values, one, m as nat),
            composition.evaluate_spec(e1),
        );
    }
}

/// The value of the round polynomial at a challenge is the sum of the
/// composition over the hypercube of the operands folded with that challenge:
/// what one round hands on is what the next round sums.
pub proof fn lemma_round_polynomial_at_challenge<F: Field, C: CompositionPoly<F>>(
    composition: &C,
    values: Seq<Seq<F>>,
    c: F,
    n: nat,
    total: nat,
)
    requires
        n <= total,
        forall|j: int| 0 <= j < values.len() ==> (#[trigger] values[j]).len() == 2 * total,
    ensures
        round_polynomial_at(composition, values, c, n) == hypercube_sum(
            composition,
            folded_values(values, c),
            n,
        ),
    decreases n,
{
    if n > 0 {
        let m: int = n - 1;
        lemma_round_polynomial_at_challenge(composition, values, c, m as nat, total);
        let e0 = column(values, 2 * m);
        let e1 = column(values, 2 * m + 1);
        let folded = column(folded_values(values, c), m);
        assert forall|j: int| 0 <= j < values.len() implies folded[j] == lines_at(e0, e1, c)[j] by {
            assert(values[j].len() == 2 * total);
            lemma_fold_step_value(values[j], c, m);
            lemma_line_values(values[j][2 * m], values[j][2 * m + 1], c);
        }
        assert(folded =~= lines_at(e0, e1, c));
    }
}

/// What a round hands on to the next: when a prover state is folded with the
/// challenge `c`, the sum of the composition over the hypercube of its
/// operands afterwards is the value at `c` of the round polynomial before.
pub proof fn lemma_claim_handed_on<F: Field, M: MultilinearPoly<F>, C: CompositionPoly<F>>(
    before: &ProverState<F, M>,
    after: &ProverState<F, M>,
    c: F,
    composition: &C,
)
    requires
        before.wf(),
        before.round_spec() < before.n_rounds_spec(),
        after.is_fold_of(before, c),
    ensures
        hypercube_sum(composition, after.values(), before.n_vertices()) == round_polynomial_at(
            composition,
            before.values(),
            c,
            before.n_vertices(),
        ),
{
    let n = before.n_vertices();
    lemma_pow2_unfold((before.n_rounds_spec() - before.round_spec()) as nat);
    assert forall|j: int| 0 <= j < before.values().len() implies (
    #[trigger] before.values()[j]).len() == 2 * n by {
        before.lemma_effective_arity(j);
    }
    lemma_round_polynomial_at_challenge(composition, before.values(), c, n, n);
    assert(after.values() =~= folded_values(before.values(), c));
}

/// The evaluations of a regular sumcheck round are values of the round
/// polynomial: the first its value at 1, and each further one its value at
/// the corresponding point of the domain.
pub proof fn lemma_round_evals_are_round_polynomial<F: Field, C: CompositionPoly<F>>(
    composition: &C,
    domain: Seq<F>,
    width: nat,
    values: Seq<Seq<F>>,
    n: nat,
    k: int,
)
    requires
        0 <= k < width,
        k == 0 || k + 1 < domain.len(),
    ensures
        regular_round_evals(composition, domain, width, values, n)[k] == round_polynomial_at(
            composition,
            values,
            if k == 0 {
                F::one_spec()
            } else {
                domain[k + 1]
            },
            n,
        ),
    decreases n,
{
    if n > 0 {
        let m: int = n - 1;
        lemma_round_evals_are_round_polynomial(composition, domain, width, values, m as nat, k);
        lemma_regular_range_sum_len(composition, domain, width, values, 0, m);
        let e0 = column(values, 2 * m);
        let e1 = column(values, 2 * m + 1);
        if k == 0 {
            assert forall|j: int| 0 <= j < e0.len() implies lines_at(e0, e1, F::one_spec())[j]
                == e1[j] by {
                lemma_line_values(e0[j], e1[j], F::one_spec());
            }
            assert(lines_at(e0, e1, F::one_spec()) =~= e1);
        }
    }
}

/// The sums of regular sumcheck have `width` entries.
pub proof fn lemma_regular_range_sum_len<F: Field, C: CompositionPoly<F>>(
    composition: &C,
    domain: Seq<F>,
    width: nat,
    values: Seq<Seq<F>>,
    lo: int,
    hi: int,
)
    ensures
        regular_range_sum(composition, domain, width, values, lo, hi).len() == width,
    decreases hi - lo,
{
    if hi > lo {
        lemma_regular_range_sum_len(composition, domain, width, values, lo, hi - 1);
    }
}

} // verus!
