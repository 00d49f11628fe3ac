//! What a round of the protocol accumulates at each hypercube vertex.
use crate::field::{add_seqs, Field};
use either::Either;
use vstd::prelude::*;

verus! {

#[verifier::external_type_specification]
#[verifier::reject_recursive_types(L)]
#[verifier::reject_recursive_types(R)]
pub struct ExEither<L, R>(Either<L, R>);

/// The composition side of a round: how the values of the operands at one
/// vertex turn into the round's evaluations.
///
/// A round polynomial is sent as its values at a fixed number of points. At
/// each vertex of the remaining hypercube the prover hands over the value of
/// every operand with the round's variable at 0 and at 1; the evaluator adds
/// that vertex's share to the running sums. Regular sumcheck and zerocheck
/// differ only in their evaluator.
pub trait SumcheckEvaluator<F: Field> {
    /// The number of points at which the round polynomial is evaluated.
    open spec fn n_round_evals_spec(&self) -> nat {
        arbitrary()
    }

    /// The share of vertex `index` in the round's evaluations, given the
    /// operands' values at that vertex with the round's variable at 0 and at 1.
    open spec fn vertex_evals(&self, index: nat, evals_0: Seq<F>, evals_1: Seq<F>) -> Seq<F> {
        arbitrary()
    }

    /// The number of points at which the round polynomial is evaluated.
    fn n_round_evals(&self) -> (n: usize)
        ensures
            n == self.n_round_evals_spec(),
    ;

    /// Adds the share of vertex `index` to `round_evals`. `evals_z` is scratch
    /// space, one entry per operand, for values at further points.
    fn process_vertex(
        &self,
        index: usize,
        evals_0: &[F],
        evals_1: &[F],
        evals_z: &mut Vec<F>,
        round_evals: &mut Vec<F>,
    )
        requires
            evals_0@.len() == evals_1@.len(),
            old(evals_z)@.len() == evals_0@.len(),
            old(round_evals)@.len() == self.n_round_evals_spec(),
        ensures
            final(evals_z)@.len() == old(evals_z)@.len(),
            final(round_evals)@ == add_seqs(
                old(round_evals)@,
                self.vertex_evals(index as nat, evals_0@, evals_1@),
            ),
    ;
}

impl<F: Field, L: SumcheckEvaluator<F>, R: SumcheckEvaluator<F>> SumcheckEvaluator<F> for Either<
    L,
    R,
> {
    open spec fn n_round_evals_spec(&self) -> nat {
        match self {
            Either::Left(left) => left.n_round_evals_spec(),
            Either::Right(right) => right.n_round_evals_spec(),
        }
    }

    open spec fn vertex_evals(&self, index: nat, evals_0: Seq<F>, evals_1: Seq<F>) -> Seq<F> {
        match self {
            Either::Left(left) => left.vertex_evals(index, evals_0, evals_1),
            Either::Right(right) => right.vertex_evals(index, evals_0, evals_1),
        }
    }

    fn n_round_evals(&self) -> (n: usize) {
        match self {
            Either::Left(left) => left.n_round_evals(),
            Either::Right(right) => right.n_round_evals(),
        }
    }

    fn process_vertex(
        &self,
        index: usize,
        evals_0: &[F],
        evals_1: &[F],
        evals_z: &mut Vec<F>,
        round_evals: &mut Vec<F>,
    ) {
        match self {
            Either::Left(left) => {
                left.process_vertex(index, evals_0, evals_1, evals_z, round_evals)
            },
            Either::Right(right) => {
                right.process_vertex(index, evals_0, evals_1, evals_z, round_evals)
            },
        }
    }
}

} // verus!
