//! The prover's state across the rounds of the protocol.
use crate::contraction::{
    fold_all, fold_step, lemma_contraction_empty, lemma_contraction_step, lemma_fold_step_value,
    partial_low_spec, tensor,
};
use crate::error::{Error, PolynomialError};
use crate::evaluator::SumcheckEvaluator;
use crate::field::{zero_vec, Field};
use crate::multilinear::{MultilinearExtension, MultilinearPoly};
use crate::query::{fits_usize, lemma_pow2_monotonic, lemma_tensor_len, MultilinearQuery};
use crate::vertex_sum::{
    lemma_contraction_len, query_weights, round_sum, sampled_values, sum_over_vertices, Sampler,
};
use vstd::arithmetic::power2::{
    lemma2_to64, lemma_pow2_adds, lemma_pow2_pos, lemma_pow2_unfold, pow2,
};
use vstd::prelude::*;

verus! {

/// One multilinear operand of the composite.
///
/// An operand starts out transparent: the prover reads the caller's
/// polynomial and contracts it against the tensor of the challenges so far,
/// which costs no memory. At its switchover round it is folded: the
/// contraction is stored, and from then on halved in every round.
#[derive(Debug)]
pub enum SumcheckMultilinear<F: Field, M: MultilinearPoly<F>> {
    /// The caller's polynomial, to be folded at round `switchover`.
    Transparent { switchover: usize, small_field_multilin: M },
    /// The stored contraction, halved in every round.
    Folded { large_field_folded_multilin: MultilinearExtension<F> },
}

impl<F: Field, M: MultilinearPoly<F>> SumcheckMultilinear<F, M> {
    /// The operand's values on the hypercube of the variables that remain,
    /// given the expanded tensor of the challenges so far.
    pub open spec fn values(&self, weights: Seq<F>) -> Seq<F> {
        match self {
            SumcheckMultilinear::Transparent { small_field_multilin, .. } => partial_low_spec(
                small_field_multilin.evals(),
                weights,
            ),
            SumcheckMultilinear::Folded { large_field_folded_multilin } => {
                large_field_folded_multilin@
            },
        }
    }
}

/// How a round sum obtains the operands' values at a vertex.
#[derive(Clone, Copy, Debug, PartialEq, Eq, Structural)]
pub enum SamplingKernel {
    /// All operands are transparent and nothing has been folded in: their own
    /// hypercube values are read.
    TransparentDirect,
    /// All operands are transparent: each is contracted against the tensor query.
    TransparentSubcube,
    /// All operands are folded: their stored values are read.
    FoldedDirect,
    /// Each operand is sampled according to its kind.
    Mixed,
}

/// `2^n`, for `n` such that it fits a machine word.
pub fn pow2_usize(n: usize) -> (r: usize)
    requires
        fits_usize(n as nat),
    ensures
        r == pow2(n as nat),
{
    let mut r: usize = 1;
    let mut k: usize = 0;
    proof {
        lemma2_to64();
    }
    while k < n
        invariant
            k <= n,
            r == pow2(k as nat),
            fits_usize(n as nat),
        decreases n - k,
    {
        proof {
            lemma_pow2_unfold((k + 1) as nat);
            lemma_pow2_monotonic((k + 1) as nat, n as nat);
        }
        r = 2 * r;
        k += 1;
    }
    r
}

/// Every one of `multilinears` has `n_rounds` variables.
pub open spec fn arities_match<F: Field, M: MultilinearPoly<F>>(
    multilinears: Seq<M>,
    n_rounds: nat,
) -> bool {
    forall|j: int|
        0 <= j < multilinears.len() ==> (#[trigger] multilinears[j]).n_vars_spec() == n_rounds
}

/// `multilinears[j]` is the first that does not have `n_rounds` variables.
pub open spec fn first_arity_mismatch<F: Field, M: MultilinearPoly<F>>(
    multilinears: Seq<M>,
    n_rounds: nat,
    j: int,
) -> bool {
    &&& 0 <= j < multilinears.len()
    &&& multilinears[j].n_vars_spec() != n_rounds
    &&& forall|i: int| 0 <= i < j ==> (#[trigger] multilinears[i]).n_vars_spec() == n_rounds
}

/// The largest switchover round among the transparent operands of `operands`,
/// and at least 1.
pub open spec fn max_switchover<F: Field, M: MultilinearPoly<F>>(
    operands: Seq<SumcheckMultilinear<F, M>>,
) -> nat
    decreases operands.len(),
{
    if operands.len() == 0 {
        1
    } else {
        let rest = max_switchover(operands.drop_last());
        match operands.last() {
            SumcheckMultilinear::Transparent { switchover, .. } => if switchover > rest {
                switchover as nat
            } else {
                rest
            },
            SumcheckMultilinear::Folded { .. } => rest,
        }
    }
}

/// No switchover round among `operands` is above `max_switchover`.
pub proof fn lemma_max_switchover_bounds<F: Field, M: MultilinearPoly<F>>(
    operands: Seq<SumcheckMultilinear<F, M>>,
    j: int,
)
    requires
        0 <= j < operands.len(),
        operands[j] is Transparent,
    ensures
        operands[j]->switchover <= max_switchover(operands),
        max_switchover(operands) >= 1,
    decreases operands.len(),
{
    if j < operands.len() - 1 {
        lemma_max_switchover_bounds(operands.drop_last(), j);
    } else {
        lemma_max_switchover_at_least_one(operands.drop_last());
    }
}

/// `max_switchover` is at least 1.
pub proof fn lemma_max_switchover_at_least_one<F: Field, M: MultilinearPoly<F>>(
    operands: Seq<SumcheckMultilinear<F, M>>,
)
    ensures
        max_switchover(operands) >= 1,
    decreases operands.len(),
{
    if operands.len() > 0 {
        lemma_max_switchover_at_least_one(operands.drop_last());
    }
}

/// The state of a prover for sumcheck over a composite of multilinear
/// polynomials.
///
/// The caller alternates `sum_round_evals` and `fold`, `n_rounds` times each.
/// Every operand has a switchover round. Before it the operand is read through
/// the tensor of the challenges received so far; at it the operand is
/// materialized over the remaining variables; after it the materialized
/// operand is halved by each challenge. A switchover of 0 acts like 1, since
/// nothing is folded before the first round.
#[derive(Debug)]
pub struct ProverState<F: Field, M: MultilinearPoly<F>> {
    multilinears: Vec<SumcheckMultilinear<F, M>>,
    query: Option<MultilinearQuery<F>>,
    round: usize,
    n_rounds: usize,
}

impl<F: Field, M: MultilinearPoly<F>> ProverState<F, M> {
    /// The operands.
    pub closed spec fn operands(&self) -> Seq<SumcheckMultilinear<F, M>> {
        self.multilinears@
    }

    /// The tensor query, while there is one.
    pub closed spec fn query_spec(&self) -> Option<MultilinearQuery<F>> {
        self.query
    }

    /// The number of challenges folded in so far.
    pub closed spec fn round_spec(&self) -> nat {
        self.round as nat
    }

    /// The number of rounds of the protocol, and of variables of every operand.
    pub closed spec fn n_rounds_spec(&self) -> nat {
        self.n_rounds as nat
    }

    /// The expanded tensor of the challenges so far, while there is a query.
    pub open spec fn weights(&self) -> Seq<F> {
        match self.query_spec() {
            Some(q) => q.expansion_spec(),
            None => Seq::empty(),
        }
    }

    /// The values of every operand on the hypercube of the variables that remain.
    pub open spec fn values(&self) -> Seq<Seq<F>> {
        Seq::new(self.operands().len(), |j: int| self.operands()[j].values(self.weights()))
    }

    /// Whether some operand is still transparent.
    pub open spec fn any_transparent(&self) -> bool {
        exists|j: int|
            0 <= j < self.operands().len() && (#[trigger] self.operands()[j]) is Transparent
    }

    /// Whether every operand that reaches its switchover round with the next
    /// fold is of a kind that can always be materialized.
    pub open spec fn switchover_succeeds(&self) -> bool {
        forall|j: int|
            0 <= j < self.operands().len() && (#[trigger] self.operands()[j]) is Transparent
                && self.operands()[j]->switchover <= self.round_spec() + 1
                ==> self.operands()[j]->small_field_multilin.materializes()
    }

    /// The number of vertices that a round sum ranges over: half the
    /// hypercube of the remaining variables, or none when no variable remains.
    pub open spec fn n_vertices(&self) -> nat {
        if self.round_spec() >= self.n_rounds_spec() {
            0
        } else {
            pow2((self.n_rounds_spec() - self.round_spec() - 1) as nat)
        }
    }

    /// Operand `op` is consistent with the state.
    pub open spec fn operand_wf(&self, op: SumcheckMultilinear<F, M>) -> bool {
        match op {
            SumcheckMultilinear::Transparent { switchover, small_field_multilin } => {
                &&& small_field_multilin.wf()
                &&& small_field_multilin.n_vars_spec() == self.n_rounds_spec()
                &&& small_field_multilin.evals().len() == pow2(self.n_rounds_spec())
                &&& self.round_spec() == 0 || self.round_spec() < switchover
                &&& self.query_spec() is Some
                &&& switchover <= self.query_spec()->0.capacity()
            },
            SumcheckMultilinear::Folded { large_field_folded_multilin } => {
                &&& large_field_folded_multilin.inv()
                &&& large_field_folded_multilin.arity() == self.n_rounds_spec() - self.round_spec()
                &&& self.round_spec() > 0
            },
        }
    }

    /// The state is consistent.
    ///
    /// The round is within the number of rounds. Every transparent operand has
    /// all `n_rounds` variables and has not reached its switchover; every
    /// folded operand has the variables that remain. The query holds exactly
    /// the challenges so far, has room for one more, and is there if and only
    /// if an operand is transparent or no challenge was folded in yet.
    pub open spec fn wf(&self) -> bool {
        &&& self.round_spec() <= self.n_rounds_spec()
        &&& fits_usize(self.n_rounds_spec())
        &&& forall|j: int|
            0 <= j < self.operands().len() ==> self.operand_wf(#[trigger] self.operands()[j])
        &&& self.query_spec() is Some <==> self.any_transparent() || self.round_spec() == 0
        &&& self.query_spec() is Some ==> {
            &&& self.query_spec()->0.wf()
            &&& self.query_spec()->0@.len() == self.round_spec()
            &&& self.round_spec() < self.query_spec()->0.capacity()
        }
    }

    /// A prover for `n_rounds` rounds over the operands `multilinears`, all
    /// transparent. `switchover_fn` gives each operand's switchover round from
    /// its extension degree.
    ///
    /// Fails with `IncorrectNumberOfVariables` for the first operand that does
    /// not have `n_rounds` variables, before anything else is done. Otherwise
    /// the tensor query is made for the largest switchover round, and at least
    /// for one challenge; where that cannot be indexed, the failure is passed on.
    pub fn new(n_rounds: usize, multilinears: Vec<M>, switchover_fn: impl Fn(usize) -> usize) -> (r:
        Result<Self, Error>)
        requires
            fits_usize(n_rounds as nat),
            forall|j: int| 0 <= j < multilinears@.len() ==> (#[trigger] multilinears@[j]).wf(),
            forall|d: usize| call_requires(switchover_fn, (d,)),
        ensures
            match r {
                Err(Error::IncorrectNumberOfVariables { expected, actual }) => {
                    &&& expected == n_rounds
                    &&& exists|j: int|
                        first_arity_mismatch(multilinears@, n_rounds as nat, j) && actual
                            == multilinears@[j].n_vars_spec()
                },
                Err(Error::PolynomialFailure(e)) => {
                    &&& arities_match(multilinears@, n_rounds as nat)
                    &&& e == PolynomialError::QuerySizeUnsupported
                    &&& exists|j: int, s: usize|
                        0 <= j < multilinears@.len() && #[trigger] call_ensures(
                            switchover_fn,
                            (multilinears@[j].extension_degree_spec(),),
                            s,
                        ) && !fits_usize(s as nat)
                },
                Ok(state) => {
                    &&& arities_match(multilinears@, n_rounds as nat)
                    &&& state.wf()
                    &&& state.round_spec() == 0
                    &&& state.n_rounds_spec() == n_rounds
                    &&& state.operands().len() == multilinears@.len()
                    &&& state.query_spec()->0.capacity() == max_switchover(state.operands())
                    &&& forall|j: int|
                        0 <= j < multilinears@.len() ==> {
                            &&& (#[trigger] state.operands()[j]) is Transparent
                            &&& state.operands()[j]->small_field_multilin == multilinears@[j]
                            &&& call_ensures(
                                switchover_fn,
                                (multilinears@[j].extension_degree_spec(),),
                                state.operands()[j]->switchover,
                            )
                        }
                },
            },
            arities_match(multilinears@, n_rounds as nat) && (forall|d: usize, s: usize|
                call_ensures(switchover_fn, (d,), s) ==> fits_usize(s as nat)) ==> r is Ok,
    {
        let k = multilinears.len();
        let mut switchovers: Vec<usize> = Vec::new();
        let mut max_query_vars: usize = 1;
        let mut j: usize = 0;
        while j < k
            invariant
                j <= k,
                k == multilinears@.len(),
                switchovers@.len() == j,
                max_query_vars >= 1,
                forall|d: usize| call_requires(switchover_fn, (d,)),
                forall|t: int| 0 <= t < multilinears@.len() ==> (#[trigger] multilinears@[t]).wf(),
                forall|t: int|
                    0 <= t < j ==> {
                        &&& (#[trigger] multilinears@[t]).n_vars_spec() == n_rounds
                        &&& multilinears@[t].evals().len() == pow2(n_rounds as nat)
                    },
                forall|t: int|
                    0 <= t < j ==> {
                        &&& (#[trigger] switchovers@[t]) <= max_query_vars
                        &&& call_ensures(
                            switchover_fn,
                            (multilinears@[t].extension_degree_spec(),),
                            switchovers@[t],
                        )
                    },
                max_query_vars == 1 || exists|t: int|
                    0 <= t < j && (#[trigger] switchovers@[t]) == max_query_vars,
            decreases k - j,
        {
            let ghost chosen = switchovers@;
            let actual = multilinears[j].n_vars();
            if actual != n_rounds {
                proof {
                    assert(first_arity_mismatch(multilinears@, n_rounds as nat, j as int));
                }
                return Err(Error::IncorrectNumberOfVariables { expected: n_rounds, actual });
            }
            let switchover = switchover_fn(multilinears[j].extension_degree());
            if switchover > max_query_vars {
                max_query_vars = switchover;
            }
            switchovers.push(switchover);
            proof {
                assert(forall|t: int| 0 <= t < j ==> switchovers@[t] == chosen[t]);
                assert(switchovers@[j as int] == switchover);
            }
            j += 1;
        }

        // The operands are taken from the back, and put in order again below.
        let ghost given = multilinears@;
        let mut rest = multilinears;
        let mut reversed: Vec<SumcheckMultilinear<F, M>> = Vec::new();
        while rest.len() > 0
            invariant
                rest@.len() + reversed@.len() == k,
                k == given.len(),
                switchovers@.len() == k,
                rest@ == given.subrange(0, rest@.len() as int),
                forall|t: int|
                    0 <= t < reversed@.len() ==> {
                        &&& (#[trigger] reversed@[t]) is Transparent
                        &&& reversed@[t]->small_field_multilin == given[k - 1 - t]
                        &&& reversed@[t]->switchover == switchovers@[k - 1 - t]
                    },
            decreases rest@.len(),
        {
            let ghost before = reversed@;
            let ghost at = rest@.len() - 1;
            let small_field_multilin = rest.pop().unwrap();
            assert(small_field_multilin == given[at]);
            let switchover = switchovers[rest.len()];
            reversed.push(SumcheckMultilinear::Transparent { switchover, small_field_multilin });
            proof {
                assert(forall|t: int| 0 <= t < before.len() ==> reversed@[t] == before[t]);
            }
        }
        let mut operands: Vec<SumcheckMultilinear<F, M>> = Vec::new();
        while reversed.len() > 0
            invariant
                operands@.len() + reversed@.len() == k,
                k == given.len(),
                switchovers@.len() == k,
                forall|t: int|
                    0 <= t < reversed@.len() ==> {
                        &&& (#[trigger] reversed@[t]) is Transparent
                        &&& reversed@[t]->small_field_multilin == given[k - 1 - t]
                        &&& reversed@[t]->switchover == switchovers@[k - 1 - t]
                    },
                forall|t: int|
                    0 <= t < operands@.len() ==> {
                        &&& (#[trigger] operands@[t]) is Transparent
                        &&& operands@[t]->small_field_multilin == given[t]
                        &&& operands@[t]->switchover == switchovers@[t]
                    },
            decreases reversed@.len(),
        {
            let ghost before = operands@;
            let ghost behind = reversed@;
            let op = reversed.pop().unwrap();
            operands.push(op);
            proof {
                assert(forall|t: int| 0 <= t < before.len() ==> operands@[t] == before[t]);
                assert(forall|t: int| 0 <= t < reversed@.len() ==> reversed@[t] == behind[t]);
                assert(operands@[before.len() as int] == behind[behind.len() - 1]);
            }
        }
        proof {
            assert forall|t: int|
                0 <= t < operands@.len() && (
                #[trigger] operands@[t]) is Transparent implies operands@[t]->switchover
                <= max_query_vars by {
                assert(switchovers@[t] <= max_query_vars);
            }
            if max_query_vars != 1 {
                let t = choose|t: int|
                    0 <= t < k && (#[trigger] switchovers@[t]) == max_query_vars;
                assert(operands@[t]->switchover == max_query_vars);
            }
        }
        proof {
            lemma_max_switchover_is(operands@, max_query_vars as nat);
        }
        match MultilinearQuery::new(max_query_vars) {
            Err(e) => {
                proof {
                    if max_query_vars != 1 {
                        let t = choose|t: int|
                            0 <= t < k && (#[trigger] switchovers@[t]) == max_query_vars;
                        assert(call_ensures(
                            switchover_fn,
                            (given[t].extension_degree_spec(),),
                            max_query_vars,
                        ) && !fits_usize(max_query_vars as nat));
                    } else {
                        lemma2_to64();
                    }
                }
                Err(Error::PolynomialFailure(e))
            },
            Ok(query) => {
                let state = ProverState {
                    multilinears: operands,
                    query: Some(query),
                    round: 0,
                    n_rounds,
                };
                proof {
                    assert forall|t: int| 0 <= t < k implies {
                        &&& (#[trigger] state.operands()[t]) is Transparent
                        &&& state.operands()[t]->small_field_multilin == given[t]
                        &&& call_ensures(
                            switchover_fn,
                            (given[t].extension_degree_spec(),),
                            state.operands()[t]->switchover,
                        )
                    } by {
                        assert(operands@[t]->switchover == switchovers@[t]);
                    }
                }
                Ok(state)
            },
        }
    }

    /// The state is what `before` becomes when the challenge `c` is folded in.
    ///
    /// Every operand's values are those of before with the first remaining
    /// variable fixed to `c`. A transparent operand whose switchover lies
    /// beyond the new round is left as it was; every other operand is folded.
    /// A query that is kept holds the challenges of before and then `c`.
    pub open spec fn is_fold_of(&self, before: &Self, c: F) -> bool {
        &&& self.operands().len() == before.operands().len()
        &&& forall|j: int|
            #![trigger self.values()[j]]
            #![trigger self.operands()[j]]
            0 <= j < self.operands().len() ==> {
                &&& self.values()[j] == fold_step(before.values()[j], c)
                &&& match before.operands()[j] {
                    SumcheckMultilinear::Transparent { switchover, .. } => if switchover
                        > self.round_spec() {
                        self.operands()[j] == before.operands()[j]
                    } else {
                        self.operands()[j] is Folded
                    },
                    SumcheckMultilinear::Folded { .. } => self.operands()[j] is Folded,
                }
            }
        &&& self.query_spec() is Some ==> {
            &&& before.query_spec() is Some
            &&& self.query_spec()->0@ == before.query_spec()->0@.push(c)
            &&& self.query_spec()->0.capacity() == before.query_spec()->0.capacity()
        }
    }

    /// The state is what is left of `before` when folding in `c` failed at
    /// operand `i`, which had reached its switchover and could not be
    /// materialized: the query has taken in `c`, the operands before `i` have
    /// been brought up to the new round, and operand `i` and those after it are
    /// as they were.
    pub open spec fn failed_at(&self, before: &Self, c: F, i: int) -> bool {
        &&& 0 <= i < before.operands().len()
        &&& self.operands().len() == before.operands().len()
        &&& before.operands()[i] is Transparent
        &&& before.operands()[i]->switchover <= before.round_spec() + 1
        &&& before.query_spec() is Some
        &&& self.query_spec() is Some
        &&& self.query_spec()->0@ == before.query_spec()->0@.push(c)
        &&& forall|j: int|
            i <= j < self.operands().len() ==> self.operands()[j] == before.operands()[j]
        &&& forall|j: int|
            0 <= j < i ==> {
                &&& (#[trigger] self.operands()[j]).values(self.weights()) == fold_step(
                    before.values()[j],
                    c,
                )
                &&& match before.operands()[j] {
                    SumcheckMultilinear::Transparent { switchover, .. } => if switchover
                        > self.round_spec() {
                        self.operands()[j] == before.operands()[j]
                    } else {
                        self.operands()[j] is Folded
                    },
                    SumcheckMultilinear::Folded { .. } => self.operands()[j] is Folded,
                }
            }
    }

    /// Folds the challenge of the round that has just been summed into every
    /// operand.
    ///
    /// The round advances by one, and the query, while there is one, takes in
    /// the challenge first. Then every operand is brought up to the new
    /// round: a transparent one that has reached its switchover is
    /// materialized against the query, another transparent one is left alone,
    /// and a folded one is halved. When no operand is transparent any more the
    /// query is dropped.
    ///
    /// Only materializing an operand can fail, and only for an operand of a
    /// kind that does not rule it out. The failure is passed on, and the state
    /// must then not be used again: the operands before the one that failed
    /// have been brought up to the new round, the others have not.
    pub fn fold(&mut self, prev_rd_challenge: F) -> (r: Result<(), Error>)
        requires
            old(self).wf(),
            old(self).round_spec() < old(self).n_rounds_spec(),
        ensures
            final(self).n_rounds_spec() == old(self).n_rounds_spec(),
            final(self).round_spec() == old(self).round_spec() + 1,
            final(self).operands().len() == old(self).operands().len(),
            old(self).switchover_succeeds() ==> r is Ok,
            r is Err ==> r->Err_0 is PolynomialFailure && exists|i: int|
                final(self).failed_at(old(self), prev_rd_challenge, i),
            r is Ok ==> final(self).wf() && final(self).is_fold_of(old(self), prev_rd_challenge),
    {
        let ghost before = *old(self);
        let ghost old_ops = before.operands();
        let ghost old_w = before.weights();
        let ghost c = prev_rd_challenge;
        let ghost n = self.n_rounds as nat;
        let ghost r0 = self.round as nat;
        proof {
            lemma_pow2_monotonic(n, n);
        }
        self.round += 1;
        let round = self.round;

        let mut challenge: Vec<F> = Vec::new();
        challenge.push(prev_rd_challenge);
        assert(challenge@ =~= seq![c]);

        // The query takes in the challenge before any operand is materialized
        // against it.
        match self.query.take() {
            Some(prev_query) => {
                match prev_query.update(challenge.as_slice()) {
                    Ok(expanded_query) => {
                        assert(prev_query@ + seq![c] =~= prev_query@.push(c));
                        self.query = Some(expanded_query);
                    },
                    Err(e) => {
                        return Err(Error::PolynomialFailure(e));
                    },
                }
            },
            None => {},
        }

        // The query that halves a folded operand.
        proof {
            lemma2_to64();
        }
        let partial_query = match MultilinearQuery::with_full_query(challenge.as_slice()) {
            Ok(q) => q,
            Err(e) => {
                return Err(Error::PolynomialFailure(e));
            },
        };
        let ghost new_w = self.weights();

        let mut any_transparent_left = false;
        let k = self.multilinears.len();
        let mut i: usize = 0;
        while i < k
            invariant
                i <= k,
                k == old_ops.len(),
                self.multilinears@.len() == k,
                before.wf(),
                before == *old(self),
                old_ops == before.operands(),
                old_w == before.weights(),
                c == prev_rd_challenge,
                n == before.n_rounds_spec(),
                r0 == before.round_spec(),
                r0 < n,
                self.n_rounds == n,
                self.round == r0 + 1,
                round == r0 + 1,
                new_w == self.weights(),
                partial_query.wf(),
                partial_query@ == seq![c],
                before.query_spec() is Some <==> self.query is Some,
                self.query is Some ==> {
                    &&& self.query->0.wf()
                    &&& self.query->0@ == before.query_spec()->0@.push(c)
                    &&& self.query->0.capacity() == before.query_spec()->0.capacity()
                },
                forall|j: int| i <= j < k ==> self.multilinears@[j] == old_ops[j],
                forall|j: int|
                    0 <= j < i ==> {
                        &&& (#[trigger] self.multilinears@[j]).values(new_w) == fold_step(
                            old_ops[j].values(old_w),
                            c,
                        )
                        &&& self.operand_wf(self.multilinears@[j])
                        &&& match old_ops[j] {
                            SumcheckMultilinear::Transparent { switchover, .. } => if switchover
                                > round {
                                self.multilinears@[j] == old_ops[j]
                            } else {
                                self.multilinears@[j] is Folded
                            },
                            SumcheckMultilinear::Folded { .. } => self.multilinears@[j] is Folded,
                        }
                    },
                any_transparent_left <==> exists|j: int|
                    0 <= j < i && (#[trigger] self.multilinears@[j]) is Transparent,
            decreases k - i,
        {
            let ghost ops_before = self.multilinears@;
            assert(before.operand_wf(old_ops[i as int]));
            assert(self.multilinears@[i as int] == old_ops[i as int]);
            let replacement: Option<SumcheckMultilinear<F, M>> = match &self.multilinears[i] {
                SumcheckMultilinear::Transparent { switchover, small_field_multilin } => {
                    proof {
                        lemma_transparent_step(
                            small_field_multilin.evals(),
                            before.query_spec()->0@,
                            c,
                            n,
                        );
                    }
                    if *switchover <= round {
                        // At switchover the contraction is computed once and stored.
                        let query_ref = self.query.as_ref().unwrap();
                        let partial = small_field_multilin.evaluate_partial_low(query_ref);
                        match switchover_outcome::<F, M>(partial) {
                            Ok(folded) => Some(folded),
                            Err(e) => {
                                proof {
                                    let failed = old_ops[i as int];
                                    assert(failed->switchover <= before.round_spec() + 1);
                                    assert(!failed->small_field_multilin.materializes());
                                    assert forall|j: int| 0 <= j < i implies (
                                    #[trigger] self.operands()[j]).values(self.weights())
                                        == fold_step(before.values()[j], c) by {
                                        assert(self.multilinears@[j].values(new_w) == fold_step(
                                            old_ops[j].values(old_w),
                                            c,
                                        ));
                                    }
                                    assert(self.failed_at(&before, c, i as int));
                                }
                                return Err(e);
                            },
                        }
                    } else {
                        any_transparent_left = true;
                        None
                    }
                },
                SumcheckMultilinear::Folded { large_field_folded_multilin } => {
                    // After switchover the stored operand is halved.
                    proof {
                        large_field_folded_multilin.lemma_shape();
                    }
                    match large_field_folded_multilin.evaluate_partial_low(&partial_query) {
                        Ok(halved) => Some(
                            SumcheckMultilinear::Folded { large_field_folded_multilin: halved },
                        ),
                        Err(e) => {
                            return Err(Error::PolynomialFailure(e));
                        },
                    }
                },
            };
            match replacement {
                Some(op) => {
                    self.multilinears.set(i, op);
                },
                None => {},
            }
            proof {
                assert(forall|j: int|
                    0 <= j < k && j != i ==> self.multilinears@[j] == ops_before[j]);
                assert(self.operand_wf(self.multilinears@[i as int]));
                if any_transparent_left {
                    if self.multilinears@[i as int] is Transparent {
                    } else {
                        let j = choose|j: int|
                            0 <= j < i && (#[trigger] ops_before[j]) is Transparent;
                        assert(self.multilinears@[j] is Transparent);
                    }
                }
            }
            i += 1;
        }

        // With every operand folded the tensor is needed no more.
        if !any_transparent_left {
            self.query = None;
        }
        proof {
            assert forall|j: int| 0 <= j < k implies (#[trigger] self.values()[j]) == fold_step(
                before.values()[j],
                c,
            ) by {
                assert(self.multilinears@[j].values(new_w) == fold_step(
                    old_ops[j].values(old_w),
                    c,
                ));
                if !any_transparent_left {
                    assert(!(self.multilinears@[j] is Transparent));
                }
            }
            assert forall|j: int| 0 <= j < k implies self.operand_wf(
                #[trigger] self.operands()[j],
            ) by {
                assert(self.multilinears@[j].values(new_w) == fold_step(
                    old_ops[j].values(old_w),
                    c,
                ));
                if !any_transparent_left {
                    assert(!(self.multilinears@[j] is Transparent));
                }
            }
            if any_transparent_left {
                let j = choose|j: int|
                    0 <= j < k && (#[trigger] self.multilinears@[j]) is Transparent;
                assert(self.operand_wf(self.operands()[j]));
            }
        }
        Ok(())
    }

    /// The evaluations of the round polynomial: the sum of the evaluator's
    /// shares over the vertices of the remaining hypercube, halved.
    ///
    /// At vertex `i` the evaluator sees every operand's value at the vertices
    /// `2i` and `2i + 1`, that is, with the round's variable at 0 and at 1. The
    /// vertices are summed in parallel; the result does not depend on how they
    /// are divided among the workers. When no variable remains the sum is
    /// empty and the result is all zeros.
    pub fn sum_round_evals<E: SumcheckEvaluator<F> + Sync>(&self, evaluator: E) -> (round_evals:
        Vec<F>) where F: Send + Sync, M: Sync
        requires
            self.wf(),
        ensures
            round_evals@ == round_sum(&evaluator, self.values(), self.n_vertices()),
    {
        // The cases are told apart once, so that the loop over the vertices
        // does not have to.
        let k = self.multilinears.len();
        let mut any_transparent = false;
        let mut any_folded = false;
        let mut j: usize = 0;
        while j < k
            invariant
                j <= k,
                k == self.multilinears@.len(),
                any_transparent <==> exists|t: int|
                    0 <= t < j && (#[trigger] self.multilinears@[t]) is Transparent,
                any_folded <==> exists|t: int|
                    0 <= t < j && (#[trigger] self.multilinears@[t]) is Folded,
            decreases k - j,
        {
            match &self.multilinears[j] {
                SumcheckMultilinear::Transparent { .. } => {
                    any_transparent = true;
                },
                SumcheckMultilinear::Folded { .. } => {
                    any_folded = true;
                },
            }
            j += 1;
        }
        let kernel = if any_transparent && !any_folded {
            if self.round == 0 {
                SamplingKernel::TransparentDirect
            } else {
                SamplingKernel::TransparentSubcube
            }
        } else if any_folded && !any_transparent {
            SamplingKernel::FoldedDirect
        } else {
            SamplingKernel::Mixed
        };
        proof {
            if !any_folded {
                assert forall|t: int| 0 <= t < k implies !((
                #[trigger] self.multilinears@[t]) is Folded) by {}
            }
            if !any_transparent {
                assert forall|t: int| 0 <= t < k implies !((
                #[trigger] self.multilinears@[t]) is Transparent) by {}
            }
        }
        self.sum_round_evals_helper(kernel, evaluator)
    }

    /// Whether `kernel` can sample every operand in the current round.
    pub open spec fn kernel_fits(&self, kernel: SamplingKernel) -> bool {
        match kernel {
            SamplingKernel::TransparentDirect => self.round_spec() == 0 && forall|j: int|
                0 <= j < self.operands().len() ==> (#[trigger] self.operands()[j]) is Transparent,
            SamplingKernel::TransparentSubcube => forall|j: int|
                0 <= j < self.operands().len() ==> (#[trigger] self.operands()[j]) is Transparent,
            SamplingKernel::FoldedDirect => forall|j: int|
                0 <= j < self.operands().len() ==> (#[trigger] self.operands()[j]) is Folded,
            SamplingKernel::Mixed => true,
        }
    }

    /// The round sum, with the operands sampled as `kernel` says.
    ///
    /// Of the `round` variables that have been fixed and the `n_rounds - round`
    /// that remain, the first remaining one is the round's own; the sum ranges
    /// over the values of the others.
    pub fn sum_round_evals_helper<E: SumcheckEvaluator<F> + Sync>(
        &self,
        kernel: SamplingKernel,
        evaluator: E,
    ) -> (round_evals: Vec<F>) where F: Send + Sync, M: Sync
        requires
            self.wf(),
            self.kernel_fits(kernel),
        ensures
            round_evals@ == round_sum(&evaluator, self.values(), self.n_vertices()),
    {
        if self.round >= self.n_rounds {
            return zero_vec(evaluator.n_round_evals());
        }
        let rd_vars = self.n_rounds - self.round;
        proof {
            lemma_pow2_monotonic((rd_vars - 1) as nat, self.n_rounds as nat);
            lemma_pow2_unfold(rd_vars as nat);
        }
        let n_vertices = pow2_usize(rd_vars - 1);
        let n_multilinears = self.multilinears.len();
        let query = self.query.as_ref();

        // The operands are unpacked once, outside the loop over the vertices.
        let mut precomps: Vec<Sampler<'_, F, M>> = Vec::new();
        let mut j: usize = 0;
        while j < n_multilinears
            invariant
                j <= n_multilinears,
                n_multilinears == self.multilinears@.len(),
                self.wf(),
                self.kernel_fits(kernel),
                self.round < self.n_rounds,
                rd_vars == self.n_rounds - self.round,
                n_vertices == pow2((rd_vars - 1) as nat),
                pow2(rd_vars as nat) == 2 * n_vertices,
                precomps@.len() == j,
                query is Some <==> self.query is Some,
                query is Some ==> *query->0 == self.query->0,
                forall|t: int|
                    0 <= t < j ==> {
                        &&& (#[trigger] precomps@[t]).wf(query, n_vertices as nat)
                        &&& precomps@[t].values(self.weights()) == self.values()[t]
                    },
            decreases n_multilinears - j,
        {
            let operand = &self.multilinears[j];
            assert(self.operand_wf(self.operands()[j as int]));
            let sampler = match kernel {
                SamplingKernel::TransparentDirect => {
                    proof {
                        assert(self.query->0@ =~= Seq::<F>::empty());
                        lemma_contraction_empty(operand->small_field_multilin.evals());
                    }
                    Sampler::Direct(Self::only_transparent(operand))
                },
                SamplingKernel::TransparentSubcube => Sampler::Subcube(
                    Self::only_transparent(operand),
                ),
                SamplingKernel::FoldedDirect => {
                    proof {
                        operand->large_field_folded_multilin.lemma_shape();
                    }
                    Sampler::Folded(Self::only_folded(operand))
                },
                SamplingKernel::Mixed => match operand {
                    SumcheckMultilinear::Transparent { small_field_multilin, .. } => {
                        Sampler::Subcube(small_field_multilin)
                    },
                    SumcheckMultilinear::Folded { large_field_folded_multilin } => {
                        proof {
                            large_field_folded_multilin.lemma_shape();
                        }
                        Sampler::Folded(large_field_folded_multilin)
                    },
                },
            };
            precomps.push(sampler);
            j += 1;
        }
        proof {
            assert(query_weights(query) == self.weights());
            assert(sampled_values(precomps@, self.weights()) =~= self.values());
        }
        sum_over_vertices(&precomps, query, &evaluator, n_vertices)
    }

    /// The caller's polynomial of an operand that is transparent.
    pub fn only_transparent(sc_multilin: &SumcheckMultilinear<F, M>) -> (m: &M)
        requires
            sc_multilin is Transparent,
        ensures
            *m == sc_multilin->small_field_multilin,
    {
        match sc_multilin {
            SumcheckMultilinear::Transparent { small_field_multilin, .. } => small_field_multilin,
            SumcheckMultilinear::Folded { .. } => vstd::pervasive::unreached(),
        }
    }

    /// The stored polynomial of an operand that is folded.
    pub fn only_folded(sc_multilin: &SumcheckMultilinear<F, M>) -> (d: &MultilinearExtension<F>)
        requires
            sc_multilin is Folded,
        ensures
            *d == sc_multilin->large_field_folded_multilin,
    {
        match sc_multilin {
            SumcheckMultilinear::Folded { large_field_folded_multilin } => {
                large_field_folded_multilin
            },
            SumcheckMultilinear::Transparent { .. } => vstd::pervasive::unreached(),
        }
    }

    /// The number of challenges folded in so far.
    pub fn round(&self) -> (r: usize)
        ensures
            r == self.round_spec(),
    {
        self.round
    }

    /// The number of rounds of the protocol.
    pub fn n_rounds(&self) -> (n: usize)
        ensures
            n == self.n_rounds_spec(),
    {
        self.n_rounds
    }

    /// The number of operands.
    pub fn n_multilinears(&self) -> (k: usize)
        ensures
            k == self.operands().len(),
    {
        self.multilinears.len()
    }

    /// Whether there is a tensor query.
    pub fn has_query(&self) -> (b: bool)
        ensures
            b == (self.query_spec() is Some),
    {
        self.query.is_some()
    }

    /// The stored polynomial of operand `j`, if that operand is folded.
    pub fn folded_multilinear(&self, j: usize) -> (d: Option<&MultilinearExtension<F>>)
        requires
            j < self.operands().len(),
        ensures
            d is Some <==> self.operands()[j as int] is Folded,
            d is Some ==> *d->0 == self.operands()[j as int]->large_field_folded_multilin,
    {
        match &self.multilinears[j] {
            SumcheckMultilinear::Transparent { .. } => None,
            SumcheckMultilinear::Folded { large_field_folded_multilin } => Some(
                large_field_folded_multilin,
            ),
        }
    }

    /// Whether operand `j` is still transparent.
    pub fn is_transparent(&self, j: usize) -> (b: bool)
        requires
            j < self.operands().len(),
        ensures
            b == (self.operands()[j as int] is Transparent),
    {
        match &self.multilinears[j] {
            SumcheckMultilinear::Transparent { .. } => true,
            SumcheckMultilinear::Folded { .. } => false,
        }
    }
}

/// A bound that is 1 or reached, and that no switchover round exceeds, is
/// `max_switchover`.
proof fn lemma_max_switchover_is<F: Field, M: MultilinearPoly<F>>(
    operands: Seq<SumcheckMultilinear<F, M>>,
    bound: nat,
)
    requires
        bound >= 1,
        forall|t: int|
            0 <= t < operands.len() && (#[trigger] operands[t]) is Transparent
                ==> operands[t]->switchover <= bound,
        bound == 1 || exists|t: int|
            0 <= t < operands.len() && (#[trigger] operands[t]) is Transparent
                && operands[t]->switchover == bound,
    ensures
        max_switchover(operands) == bound,
    decreases operands.len(),
{
    lemma_max_switchover_le(operands, bound);
    if bound > 1 {
        let t = choose|t: int|
            0 <= t < operands.len() && (#[trigger] operands[t]) is Transparent
                && operands[t]->switchover == bound;
        lemma_max_switchover_bounds(operands, t);
    } else {
        lemma_max_switchover_at_least_one(operands);
    }
}

/// A bound that no switchover round exceeds is not exceeded by `max_switchover`.
proof fn lemma_max_switchover_le<F: Field, M: MultilinearPoly<F>>(
    operands: Seq<SumcheckMultilinear<F, M>>,
    bound: nat,
)
    requires
        bound >= 1,
        forall|t: int|
            0 <= t < operands.len() && (#[trigger] operands[t]) is Transparent
                ==> operands[t]->switchover <= bound,
    ensures
        max_switchover(operands) <= bound,
    decreases operands.len(),
{
    if operands.len() > 0 {
        let rest = operands.drop_last();
        assert forall|t: int|
            0 <= t < rest.len() && (#[trigger] rest[t]) is Transparent implies rest[t]->switchover
            <= bound by {
            assert(rest[t] == operands[t]);
        }
        lemma_max_switchover_le(rest, bound);
        assert(operands.last() == operands[operands.len() - 1]);
    }
}

/// What a switchover leaves in place of the transparent operand: the
/// materialized operand, or the failure to materialize it.
pub fn switchover_outcome<F: Field, M: MultilinearPoly<F>>(
    partial: Result<MultilinearExtension<F>, PolynomialError>,
) -> (r: Result<SumcheckMultilinear<F, M>, Error>)
    ensures
        match partial {
            Ok(folded) => r == Ok::<SumcheckMultilinear<F, M>, Error>(
                SumcheckMultilinear::Folded { large_field_folded_multilin: folded },
            ),
            Err(e) => r == Err::<SumcheckMultilinear<F, M>, Error>(Error::PolynomialFailure(e)),
        },
{
    match partial {
        Ok(large_field_folded_multilin) => Ok(
            SumcheckMultilinear::Folded { large_field_folded_multilin },
        ),
        Err(e) => Err(Error::PolynomialFailure(e)),
    }
}

/// Contracting `2^n` values against the tensor of fewer than `n` challenges
/// and one more is contracting against the tensor of the challenges and then
/// fixing one more variable.
pub proof fn lemma_transparent_step<F: Field>(evals: Seq<F>, challenges: Seq<F>, c: F, n: nat)
    requires
        evals.len() == pow2(n),
        challenges.len() < n,
    ensures
        partial_low_spec(evals, tensor(challenges.push(c))) == fold_step(
            partial_low_spec(evals, tensor(challenges)),
            c,
        ),
{
    let r = challenges.len();
    let t = tensor(challenges);
    let m = pow2((n - r - 1) as nat);
    lemma_tensor_len(challenges);
    lemma_pow2_pos(r);
    lemma_pow2_unfold(r + 1);
    lemma_pow2_adds((n - r - 1) as nat, r + 1);
    assert(evals.len() == m * (2 * t.len())) by (nonlinear_arith)
        requires
            evals.len() == m * pow2(r + 1),
            pow2(r + 1) == 2 * pow2(r),
            t.len() == pow2(r),
    ;
    lemma_contraction_step(evals, t, c, m);
    assert(challenges.push(c).drop_last() =~= challenges);
    assert(challenges.push(c).last() == c);
}

impl<F: Field, M: MultilinearPoly<F>> ProverState<F, M> {
    /// In a consistent state every operand, transparent or folded, has values
    /// on the hypercube of exactly the `n_rounds - round` variables that remain.
    pub proof fn lemma_effective_arity(&self, j: int)
        requires
            self.wf(),
            0 <= j < self.operands().len(),
        ensures
            self.values()[j].len() == pow2((self.n_rounds_spec() - self.round_spec()) as nat),
    {
        assert(self.operand_wf(self.operands()[j]));
        match self.operands()[j] {
            SumcheckMultilinear::Transparent { small_field_multilin, .. } => {
                lemma_contraction_len(
                    small_field_multilin.evals(),
                    self.weights(),
                    self.n_rounds_spec(),
                    self.query_spec()->0@,
                );
            },
            SumcheckMultilinear::Folded { large_field_folded_multilin } => {
                large_field_folded_multilin.lemma_shape();
            },
        }
    }

    /// Before the first fold every operand is transparent, and its values are
    /// those of the polynomial it was made from, whatever its switchover round.
    pub proof fn lemma_initial_values(&self, j: int)
        requires
            self.wf(),
            self.round_spec() == 0,
            0 <= j < self.operands().len(),
        ensures
            self.operands()[j] is Transparent,
            self.values()[j] == self.operands()[j]->small_field_multilin.evals(),
    {
        assert(self.operand_wf(self.operands()[j]));
        assert(self.query_spec()->0@ =~= Seq::<F>::empty());
        lemma_contraction_empty(self.operands()[j]->small_field_multilin.evals());
    }

    /// A fold never turns a folded operand back into a transparent one.
    pub proof fn lemma_folded_stays_folded(&self, before: &Self, c: F, j: int)
        requires
            self.is_fold_of(before, c),
            0 <= j < before.operands().len(),
            before.operands()[j] is Folded,
        ensures
            self.operands()[j] is Folded,
    {
        assert(self.values()[j] == fold_step(before.values()[j], c));
    }

    /// Once a challenge has been folded in, or where there is an operand at
    /// all, the tensor query is present exactly while some operand is
    /// transparent.
    pub proof fn lemma_tensor_lifecycle(&self)
        requires
            self.wf(),
            self.round_spec() > 0 || self.operands().len() > 0,
        ensures
            self.query_spec() is Some <==> self.any_transparent(),
    {
        if self.round_spec() == 0 {
            assert(self.operand_wf(self.operands()[0]));
            assert(self.operands()[0] is Transparent);
        }
    }

    /// After a fold with the challenge `c`, the value of every operand at
    /// vertex `i` is `c` times its value before at vertex `2i + 1`, plus
    /// `1 - c` times its value before at vertex `2i`.
    pub proof fn lemma_fold_consistency(&self, before: &Self, c: F, j: int, i: int)
        requires
            before.wf(),
            before.round_spec() < before.n_rounds_spec(),
            self.is_fold_of(before, c),
            0 <= j < before.operands().len(),
            0 <= i < pow2((before.n_rounds_spec() - before.round_spec() - 1) as nat),
        ensures
            self.values()[j][i] == c.mul_spec(before.values()[j][2 * i + 1]).add_spec(
                F::one_spec().sub_spec(c).mul_spec(before.values()[j][2 * i]),
            ),
    {
        before.lemma_effective_arity(j);
        lemma_pow2_unfold((before.n_rounds_spec() - before.round_spec()) as nat);
        assert(self.values()[j] == fold_step(before.values()[j], c));
        lemma_fold_step_value(before.values()[j], c, i);
    }

    /// Two provers whose operands have the same values, folded with the same
    /// challenge, have operands with the same values again: when an operand
    /// switches over does not show in its values.
    pub proof fn lemma_switchover_equivalence(
        &self,
        before: &Self,
        other: &Self,
        other_before: &Self,
        c: F,
    )
        requires
            self.is_fold_of(before, c),
            other.is_fold_of(other_before, c),
            before.values() == other_before.values(),
        ensures
            self.values() == other.values(),
    {
        assert(before.values().len() == before.operands().len());
        assert(other_before.values().len() == other_before.operands().len());
        assert forall|j: int| 0 <= j < self.operands().len() implies self.values()[j]
            == other.values()[j] by {
            assert(self.values()[j] == fold_step(before.values()[j], c));
            assert(other.values()[j] == fold_step(other_before.values()[j], c));
        }
        assert(self.values() =~= other.values());
    }

    /// Two provers whose operands have the same values and that have as many
    /// rounds to go give the same round evaluations to the same evaluator.
    pub proof fn lemma_same_values_same_round_evals<E: SumcheckEvaluator<F>>(
        &self,
        other: &Self,
        evaluator: &E,
    )
        requires
            self.values() == other.values(),
            self.n_vertices() == other.n_vertices(),
        ensures
            round_sum(evaluator, self.values(), self.n_vertices()) == round_sum(
                evaluator,
                other.values(),
                other.n_vertices(),
            ),
    {
    }
}

/// Fixing the first variables of a polynomial to challenges one after the
/// other, halving its values each time, gives the same values as contracting it
/// once against the tensor of all the challenges.
pub proof fn lemma_fold_all_is_contraction<F: Field>(evals: Seq<F>, challenges: Seq<F>, n: nat)
    requires
        evals.len() == pow2(n),
        challenges.len() <= n,
    ensures
        fold_all(evals, challenges) == partial_low_spec(evals, tensor(challenges)),
    decreases challenges.len(),
{
    if challenges.len() == 0 {
        assert(challenges =~= Seq::<F>::empty());
        lemma_contraction_empty(evals);
    } else {
        let rest = challenges.drop_last();
        lemma_fold_all_is_contraction(evals, rest, n);
        lemma_transparent_step(evals, rest, challenges.last(), n);
        assert(rest.push(challenges.last()) =~= challenges);
    }
}

} // verus!
