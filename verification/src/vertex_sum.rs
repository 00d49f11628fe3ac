//! Summing an evaluator's shares over the vertices of a hypercube.
//!
//! The vertices are handed out to workers in consecutive runs. Every worker
//! accumulates into a state of its own, and the partial sums are added up at
//! the end. Whatever the runs are, the total is the same: that is proved here.
use crate::contraction::partial_low_spec;
use crate::evaluator::SumcheckEvaluator;
use crate::field::{add_into, add_seqs, zero_vec, zeros, Field};
use crate::multilinear::{MultilinearExtension, MultilinearPoly};
use crate::query::MultilinearQuery;
use rayon::iter::{IntoParallelIterator, ParallelIterator};
use vstd::arithmetic::power2::pow2;
use vstd::prelude::*;

verus! {

/// How the values of one operand are obtained at a vertex.
pub enum Sampler<'a, F: Field, M: MultilinearPoly<F>> {
    /// Read the operand's own hypercube values.
    Direct(&'a M),
    /// Contract the operand's low variables against the tensor query.
    Subcube(&'a M),
    /// Read the values of an operand that has been materialized.
    Folded(&'a MultilinearExtension<F>),
}

/// The weights that samplers contract against: the expansion of the query, if
/// there is one.
pub open spec fn query_weights<F: Field>(query: Option<&MultilinearQuery<F>>) -> Seq<F> {
    match query {
        Some(q) => q.expansion_spec(),
        None => Seq::empty(),
    }
}

impl<'a, F: Field, M: MultilinearPoly<F>> Sampler<'a, F, M> {
    /// The values, on the hypercube of the remaining variables, that the
    /// sampler reads from.
    pub open spec fn values(&self, weights: Seq<F>) -> Seq<F> {
        match self {
            Sampler::Direct(m) => m.evals(),
            Sampler::Subcube(m) => partial_low_spec(m.evals(), weights),
            Sampler::Folded(d) => d@,
        }
    }

    /// The sampler can be read at every index below `2 * n_vertices`.
    pub open spec fn wf(&self, query: Option<&MultilinearQuery<F>>, n_vertices: nat) -> bool {
        match self {
            Sampler::Direct(m) => m.wf() && m.evals().len() == 2 * n_vertices,
            Sampler::Subcube(m) => {
                &&& m.wf()
                &&& query is Some
                &&& query->0.wf()
                &&& query->0@.len() <= m.n_vars_spec()
                &&& pow2((m.n_vars_spec() - query->0@.len()) as nat) == 2 * n_vertices
            },
            Sampler::Folded(d) => d.inv() && d@.len() == 2 * n_vertices,
        }
    }
}

/// The values all samplers read from, one sequence per operand.
pub open spec fn sampled_values<F: Field, M: MultilinearPoly<F>>(
    samplers: Seq<Sampler<'_, F, M>>,
    weights: Seq<F>,
) -> Seq<Seq<F>> {
    Seq::new(samplers.len(), |j: int| samplers[j].values(weights))
}

/// All samplers can be read at every index below `2 * n_vertices`.
pub open spec fn samplers_wf<F: Field, M: MultilinearPoly<F>>(
    samplers: Seq<Sampler<'_, F, M>>,
    query: Option<&MultilinearQuery<F>>,
    n_vertices: nat,
) -> bool {
    forall|j: int| 0 <= j < samplers.len() ==> (#[trigger] samplers[j]).wf(query, n_vertices)
}

/// The values of all operands at index `index`.
pub open spec fn column<F: Field>(values: Seq<Seq<F>>, index: int) -> Seq<F> {
    Seq::new(values.len(), |j: int| values[j][index])
}

/// The share of vertex `i` in the round's evaluations.
pub open spec fn vertex_share<F: Field, E: SumcheckEvaluator<F>>(
    evaluator: &E,
    values: Seq<Seq<F>>,
    i: int,
) -> Seq<F> {
    evaluator.vertex_evals(i as nat, column(values, 2 * i), column(values, 2 * i + 1))
}

/// The sum of the shares of the vertices `lo .. hi`, a vector of `width` entries.
pub open spec fn range_sum<F: Field, E: SumcheckEvaluator<F>>(
    evaluator: &E,
    values: Seq<Seq<F>>,
    width: nat,
    lo: int,
    hi: int,
) -> Seq<F>
    decreases hi - lo,
{
    if hi <= lo {
        zeros(width)
    } else {
        add_seqs(
            range_sum(evaluator, values, width, lo, hi - 1),
            vertex_share(evaluator, values, hi - 1),
        )
    }
}

/// The sum of the shares of all of `n_vertices` vertices.
pub open spec fn round_sum<F: Field, E: SumcheckEvaluator<F>>(
    evaluator: &E,
    values: Seq<Seq<F>>,
    n_vertices: nat,
) -> Seq<F> {
    range_sum(evaluator, values, evaluator.n_round_evals_spec(), 0, n_vertices as int)
}

/// A worker's state: scratch space for the operands' values at a vertex, and
/// the sums accumulated so far.
pub struct ParFoldState<F: Field> {
    /// The operands' values with the round's variable at 0.
    pub evals_0: Vec<F>,
    /// The operands' values with the round's variable at 1.
    pub evals_1: Vec<F>,
    /// Scratch space for the operands' values at a further point.
    pub evals_z: Vec<F>,
    /// The sums of the shares of the vertices seen so far.
    pub round_evals: Vec<F>,
}

impl<F: Field> ParFoldState<F> {
    /// The state has room for `n_multilinears` operands and `n_round_evals` sums.
    pub open spec fn wf(&self, n_multilinears: nat, n_round_evals: nat) -> bool {
        &&& self.evals_0@.len() == n_multilinears
        &&& self.evals_1@.len() == n_multilinears
        &&& self.evals_z@.len() == n_multilinears
        &&& self.round_evals@.len() == n_round_evals
    }

    /// A state with all sums at zero.
    pub fn new(n_multilinears: usize, n_round_evals: usize) -> (s: Self)
        ensures
            s.wf(n_multilinears as nat, n_round_evals as nat),
            s.round_evals@ == zeros::<F>(n_round_evals as nat),
    {
        ParFoldState {
            evals_0: zero_vec(n_multilinears),
            evals_1: zero_vec(n_multilinears),
            evals_z: zero_vec(n_multilinears),
            round_evals: zero_vec(n_round_evals),
        }
    }
}

/// The values of `multilin` at the hypercube vertices `2i` and `2i + 1`.
pub fn direct_sample<F: Field, MD: MultilinearPoly<F>>(multilin: &MD, i: usize) -> (r: (F, F))
    requires
        multilin.wf(),
        2 * i + 1 < multilin.evals().len(),
    ensures
        r.0 == multilin.evals()[2 * i],
        r.1 == multilin.evals()[2 * i + 1],
{
    let n = multilin.n_vars();
    let eval0 = multilin.evaluate_on_hypercube(2 * i).unwrap();
    let eval1 = multilin.evaluate_on_hypercube(2 * i + 1).unwrap();
    (eval0, eval1)
}

/// The values, at the vertices `2i` and `2i + 1` of the remaining variables, of
/// `multilin` with its low variables contracted against `query`.
pub fn subcube_inner_product<F: Field, M: MultilinearPoly<F>>(
    multilin: &M,
    query: &MultilinearQuery<F>,
    i: usize,
) -> (r: (F, F))
    requires
        multilin.wf(),
        query.wf(),
        query@.len() <= multilin.n_vars_spec(),
        2 * i + 1 < pow2((multilin.n_vars_spec() - query@.len()) as nat),
    ensures
        r.0 == partial_low_spec(multilin.evals(), query.expansion_spec())[2 * i],
        r.1 == partial_low_spec(multilin.evals(), query.expansion_spec())[2 * i + 1],
{
    let n = multilin.n_vars();
    proof {
        lemma_contraction_len(
            multilin.evals(),
            query.expansion_spec(),
            multilin.n_vars_spec(),
            query@,
        );
        crate::query::lemma_pow2_monotonic(
            (multilin.n_vars_spec() - query@.len()) as nat,
            multilin.n_vars_spec(),
        );
    }
    let eval0 = multilin.evaluate_subcube(2 * i, query).unwrap();
    let eval1 = multilin.evaluate_subcube(2 * i + 1, query).unwrap();
    (eval0, eval1)
}

/// Contracting `2^n` values against the tensor of `r <= n` challenges leaves
/// `2^(n - r)` values.
pub proof fn lemma_contraction_len<F: Field>(
    evals: Seq<F>,
    weights: Seq<F>,
    n: nat,
    challenges: Seq<F>,
)
    requires
        evals.len() == pow2(n),
        weights == crate::contraction::tensor(challenges),
        challenges.len() <= n,
    ensures
        partial_low_spec(evals, weights).len() == pow2((n - challenges.len()) as nat),
        forall|i: int|
            0 <= i < pow2((n - challenges.len()) as nat) ==> #[trigger] partial_low_spec(
                evals,
                weights,
            )[i] == crate::contraction::inner_product_at(evals, weights, i),
{
    crate::query::lemma_tensor_len(challenges);
    vstd::arithmetic::power2::lemma_pow2_pos(challenges.len());
    vstd::arithmetic::power2::lemma_pow2_adds((n - challenges.len()) as nat, challenges.len());
    crate::multilinear::lemma_div_exact(
        pow2((n - challenges.len()) as nat) as int,
        weights.len() as int,
        evals.len() as int,
    );
}

/// The sums of a range of vertices have `width` entries.
pub proof fn lemma_range_sum_len<F: Field, E: SumcheckEvaluator<F>>(
    evaluator: &E,
    values: Seq<Seq<F>>,
    width: nat,
    lo: int,
    hi: int,
)
    ensures
        range_sum(evaluator, values, width, lo, hi).len() == width,
    decreases hi - lo,
{
    if hi > lo {
        lemma_range_sum_len(evaluator, values, width, lo, hi - 1);
    }
}

/// Adding up two vectors and then a third is adding the first to the sum of
/// the other two.
pub proof fn lemma_add_seqs_assoc<F: Field>(a: Seq<F>, b: Seq<F>, c: Seq<F>)
    requires
        a.len() == b.len(),
    ensures
        add_seqs(add_seqs(a, b), c) == add_seqs(a, add_seqs(b, c)),
{
    assert forall|k: int| 0 <= k < a.len() implies add_seqs(add_seqs(a, b), c)[k] == add_seqs(
        a,
        add_seqs(b, c),
    )[k] by {
        F::lemma_ring_laws(a[k], b[k], c[k]);
    }
    assert(add_seqs(add_seqs(a, b), c) =~= add_seqs(a, add_seqs(b, c)));
}

/// Adding zeros changes nothing.
pub proof fn lemma_add_seqs_zeros<F: Field>(a: Seq<F>)
    ensures
        add_seqs(a, zeros::<F>(a.len())) == a,
        add_seqs(zeros::<F>(a.len()), a) == a,
{
    assert forall|k: int| 0 <= k < a.len() implies add_seqs(a, zeros::<F>(a.len()))[k] == a[k]
        && add_seqs(zeros::<F>(a.len()), a)[k] == a[k] by {
        F::lemma_ring_laws(a[k], a[k], a[k]);
        crate::contraction::lemma_zero_add(a[k]);
    }
    assert(add_seqs(a, zeros::<F>(a.len())) =~= a);
    assert(add_seqs(zeros::<F>(a.len()), a) =~= a);
}

/// The sum over a range is the sum over its first part plus the sum over the
/// rest, wherever the range is cut.
pub proof fn lemma_range_sum_split<F: Field, E: SumcheckEvaluator<F>>(
    evaluator: &E,
    values: Seq<Seq<F>>,
    width: nat,
    lo: int,
    mid: int,
    hi: int,
)
    requires
        lo <= mid <= hi,
    ensures
        range_sum(evaluator, values, width, lo, hi) == add_seqs(
            range_sum(evaluator, values, width, lo, mid),
            range_sum(evaluator, values, width, mid, hi),
        ),
    decreases hi - mid,
{
    let left = range_sum(evaluator, values, width, lo, mid);
    lemma_range_sum_len(evaluator, values, width, lo, mid);
    if hi == mid {
        lemma_add_seqs_zeros(left);
    } else {
        lemma_range_sum_split(evaluator, values, width, lo, mid, hi - 1);
        lemma_range_sum_len(evaluator, values, width, mid, hi - 1);
        lemma_add_seqs_assoc(
            left,
            range_sum(evaluator, values, width, mid, hi - 1),
            vertex_share(evaluator, values, hi - 1),
        );
    }
}

/// `cuts` divides the vertices `0 .. n_vertices` into `n_chunks` consecutive
/// runs, run `k` being `cuts[k] .. cuts[k + 1]`; a run may be empty.
pub open spec fn is_chunking(cuts: Seq<int>, n_chunks: nat, n_vertices: nat) -> bool {
    &&& cuts.len() == n_chunks + 1
    &&& cuts[0] == 0
    &&& cuts[n_chunks as int] == n_vertices
    &&& forall|k: int| 0 <= k < n_chunks ==> cuts[k] <= #[trigger] cuts[k + 1]
}

/// Each of `partials` is the sum of the shares of one run of `cuts`.
pub open spec fn are_chunk_sums<F: Field, E: SumcheckEvaluator<F>>(
    partials: Seq<Vec<F>>,
    cuts: Seq<int>,
    evaluator: &E,
    values: Seq<Seq<F>>,
) -> bool {
    forall|k: int|
        0 <= k < partials.len() ==> (#[trigger] partials[k])@ == range_sum(
            evaluator,
            values,
            evaluator.n_round_evals_spec(),
            cuts[k],
            cuts[k + 1],
        )
}

/// The element-wise sum of the first `k` of `partials`, a vector of `width` entries.
pub open spec fn sum_of_partials<F: Field>(partials: Seq<Vec<F>>, width: nat, k: nat) -> Seq<F>
    decreases k,
{
    if k == 0 {
        zeros(width)
    } else {
        add_seqs(sum_of_partials(partials, width, (k - 1) as nat), partials[k - 1]@)
    }
}

/// However the vertices are divided into consecutive runs, the sums of the runs
/// add up to the sum over all vertices.
pub proof fn lemma_chunk_sums_add_up<F: Field, E: SumcheckEvaluator<F>>(
    partials: Seq<Vec<F>>,
    cuts: Seq<int>,
    evaluator: &E,
    values: Seq<Seq<F>>,
    n_vertices: nat,
    k: nat,
)
    requires
        is_chunking(cuts, partials.len(), n_vertices),
        are_chunk_sums(partials, cuts, evaluator, values),
        k <= partials.len(),
    ensures
        0 <= cuts[k as int],
        sum_of_partials(partials, evaluator.n_round_evals_spec(), k) == range_sum(
            evaluator,
            values,
            evaluator.n_round_evals_spec(),
            0,
            cuts[k as int],
        ),
        k == partials.len() ==> sum_of_partials(partials, evaluator.n_round_evals_spec(), k)
            == round_sum(evaluator, values, n_vertices),
    decreases k,
{
    if k > 0 {
        let km = (k - 1) as nat;
        lemma_chunk_sums_add_up(partials, cuts, evaluator, values, n_vertices, km);
        assert(cuts[km as int] <= cuts[km + 1 as int]);
        assert(partials[km as int]@ == range_sum(
            evaluator,
            values,
            evaluator.n_round_evals_spec(),
            cuts[km as int],
            cuts[km + 1 as int],
        ));
        lemma_range_sum_split(
            evaluator,
            values,
            evaluator.n_round_evals_spec(),
            0,
            cuts[km as int],
            cuts[k as int],
        );
    }
}

/// Puts the operands' values at vertex `i` of `n_vertices` into the state's scratch space and
/// has the evaluator add the vertex's share to the state's sums.
pub fn accumulate_vertex<F: Field, M: MultilinearPoly<F>, E: SumcheckEvaluator<F>>(
    samplers: &Vec<Sampler<'_, F, M>>,
    query: Option<&MultilinearQuery<F>>,
    evaluator: &E,
    state: ParFoldState<F>,
    i: usize,
    n_vertices: usize,
) -> (r: ParFoldState<F>)
    requires
        samplers_wf(samplers@, query, n_vertices as nat),
        state.wf(samplers@.len(), evaluator.n_round_evals_spec()),
        i < n_vertices,
    ensures
        r.wf(samplers@.len(), evaluator.n_round_evals_spec()),
        r.round_evals@ == add_seqs(
            state.round_evals@,
            vertex_share(evaluator, sampled_values(samplers@, query_weights(query)), i as int),
        ),
{
    let ghost sums = state.round_evals@;
    let mut state = state;
    let ghost values = sampled_values(samplers@, query_weights(query));
    let n = samplers.len();
    let mut j: usize = 0;
    while j < n
        invariant
            j <= n,
            n == samplers@.len(),
            samplers_wf(samplers@, query, n_vertices as nat),
            i < n_vertices,
            values == sampled_values(samplers@, query_weights(query)),
            state.wf(n as nat, evaluator.n_round_evals_spec()),
            state.round_evals@ == sums,
            forall|t: int| 0 <= t < j ==> state.evals_0@[t] == values[t][2 * i],
            forall|t: int| 0 <= t < j ==> state.evals_1@[t] == values[t][2 * i + 1],
        decreases n - j,
    {
        assert(samplers@[j as int].wf(query, n_vertices as nat));
        let (eval0, eval1) = sample(&samplers[j], query, i, n_vertices);
        state.evals_0.set(j, eval0);
        state.evals_1.set(j, eval1);
        j += 1;
    }
    assert(state.evals_0@ =~= column(values, 2 * i));
    assert(state.evals_1@ =~= column(values, 2 * i + 1));
    evaluator.process_vertex(
        i,
        state.evals_0.as_slice(),
        state.evals_1.as_slice(),
        &mut state.evals_z,
        &mut state.round_evals,
    );
    state
}

/// The values of one operand at the vertices `2i` and `2i + 1`, for `i` below
/// `n_vertices`.
pub fn sample<F: Field, M: MultilinearPoly<F>>(
    sampler: &Sampler<'_, F, M>,
    query: Option<&MultilinearQuery<F>>,
    i: usize,
    n_vertices: usize,
) -> (r: (F, F))
    requires
        sampler.wf(query, n_vertices as nat),
        i < n_vertices,
    ensures
        r.0 == sampler.values(query_weights(query))[2 * i],
        r.1 == sampler.values(query_weights(query))[2 * i + 1],
{
    match sampler {
        Sampler::Direct(m) => direct_sample(*m, i),
        Sampler::Subcube(m) => subcube_inner_product(*m, query.unwrap(), i),
        Sampler::Folded(d) => {
            proof {
                d.lemma_shape();
            }
            direct_sample(*d, i)
        },
    }
}

/// Folds the vertices `0 .. n_vertices` in parallel and returns the sums that
/// the workers accumulated, in the order of their vertices.
///
/// This is rayon's `fold` over a range, followed by `map` and `collect`. The
/// range is divided into consecutive runs, in a way that depends on the worker
/// pool; each run is folded on its own, in order, starting from
/// `ParFoldState::new`, with `accumulate_vertex` as the step; and the results
/// are collected in the order of the runs. So the contract claims: there is a
/// division of the range into as many consecutive runs as sums were returned,
/// and each sum is the sum of the shares of its run.
#[verifier::external_body]
fn par_fold_vertices<F, M, E>(
    samplers: &Vec<Sampler<'_, F, M>>,
    query: Option<&MultilinearQuery<F>>,
    evaluator: &E,
    n_round_evals: usize,
    n_vertices: usize,
) -> (partials: Vec<Vec<F>>) where
    F: Field + Send + Sync,
    M: MultilinearPoly<F> + Sync,
    E: SumcheckEvaluator<F> + Sync,

    requires
        samplers_wf(samplers@, query, n_vertices as nat),
        n_round_evals == evaluator.n_round_evals_spec(),
    ensures
        exists|cuts: Seq<int>|
            is_chunking(cuts, partials@.len(), n_vertices as nat) && are_chunk_sums(
                partials@,
                cuts,
                evaluator,
                sampled_values(samplers@, query_weights(query)),
            ),
{
    (0..n_vertices)
        .into_par_iter()
        .fold(
            || ParFoldState::new(samplers.len(), n_round_evals),
            |state, i| accumulate_vertex(samplers, query, evaluator, state, i, n_vertices),
        )
        .map(|state| state.round_evals)
        .collect()
}

/// Adds up the sums that the workers accumulated.
pub fn calculate_round_evals_from_fold_result<F: Field>(
    degree: usize,
    fold_result: Vec<Vec<F>>,
) -> (round_evals: Vec<F>)
    requires
        forall|k: int|
            0 <= k < fold_result@.len() ==> (#[trigger] fold_result@[k])@.len() == degree,
    ensures
        round_evals@ == sum_of_partials(fold_result@, degree as nat, fold_result@.len()),
{
    let mut overall_round_evals: Vec<F> = zero_vec(degree);
    let n = fold_result.len();
    let mut k: usize = 0;
    while k < n
        invariant
            k <= n,
            n == fold_result@.len(),
            forall|t: int|
                0 <= t < fold_result@.len() ==> (#[trigger] fold_result@[t])@.len() == degree,
            overall_round_evals@ == sum_of_partials(fold_result@, degree as nat, k as nat),
            overall_round_evals@.len() == degree,
        decreases n - k,
    {
        assert(fold_result@[k as int]@.len() == degree);
        add_into(&mut overall_round_evals, &fold_result[k]);
        k += 1;
    }
    overall_round_evals
}

/// The sum, over the vertices `0 .. n_vertices`, of the evaluator's shares,
/// computed in parallel.
pub fn sum_over_vertices<F, M, E>(
    samplers: &Vec<Sampler<'_, F, M>>,
    query: Option<&MultilinearQuery<F>>,
    evaluator: &E,
    n_vertices: usize,
) -> (round_evals: Vec<F>) where
    F: Field + Send + Sync,
    M: MultilinearPoly<F> + Sync,
    E: SumcheckEvaluator<F> + Sync,

    requires
        samplers_wf(samplers@, query, n_vertices as nat),
    ensures
        round_evals@ == round_sum(
            evaluator,
            sampled_values(samplers@, query_weights(query)),
            n_vertices as nat,
        ),
{
    let n_round_evals = evaluator.n_round_evals();
    let partials = par_fold_vertices(samplers, query, evaluator, n_round_evals, n_vertices);
    proof {
        let values = sampled_values(samplers@, query_weights(query));
        let cuts = choose|cuts: Seq<int>|
            is_chunking(cuts, partials@.len(), n_vertices as nat) && are_chunk_sums(
                partials@,
                cuts,
                evaluator,
                values,
            );
        assert forall|k: int| 0 <= k < partials@.len() implies (#[trigger] partials@[k])@.len()
            == n_round_evals by {
            lemma_range_sum_len(evaluator, values, n_round_evals as nat, cuts[k], cuts[k + 1]);
        }
        lemma_chunk_sums_add_up(
            partials@,
            cuts,
            evaluator,
            values,
            n_vertices as nat,
            partials@.len(),
        );
    }
    calculate_round_evals_from_fold_result(n_round_evals, partials)
}

} // verus!
