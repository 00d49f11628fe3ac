//! The mathematics of partial evaluation.
//!
//! A multilinear polynomial in `n` variables is given by its `2^n` values on the
//! hypercube, vertex `x` standing at index `sum_k x_k * 2^k`. Fixing its first
//! `r` variables to challenges `c_0 .. c_{r-1}` contracts each block of `2^r`
//! consecutive values against the tensor product of the pairs `(1 - c_k, c_k)`.
use crate::field::Field;
use vstd::prelude::*;

verus! {

/// `sum_{j < k} evals[base + j] * weights[start + j]`.
pub open spec fn dot<F: Field>(evals: Seq<F>, base: int, weights: Seq<F>, start: int, k: nat) -> F
    decreases k,
{
    if k == 0 {
        F::zero_spec()
    } else {
        dot(evals, base, weights, start, (k - 1) as nat).add_spec(
            evals[base + k - 1].mul_spec(weights[start + k - 1]),
        )
    }
}

/// The contraction of block `index` of `evals` against `weights`.
pub open spec fn inner_product_at<F: Field>(evals: Seq<F>, weights: Seq<F>, index: int) -> F {
    dot(evals, index * weights.len(), weights, 0, weights.len())
}

/// The values of the polynomial that is left when the low variables of `evals`
/// are contracted against `weights`.
pub open spec fn partial_low_spec<F: Field>(evals: Seq<F>, weights: Seq<F>) -> Seq<F> {
    Seq::new((evals.len() / weights.len()) as nat, |i: int| inner_product_at(evals, weights, i))
}

/// The tensor `t` extended by one challenge: `t * (1 - c)` followed by `t * c`.
pub open spec fn tensor_expand<F: Field>(t: Seq<F>, c: F) -> Seq<F> {
    Seq::new(
        2 * t.len(),
        |j: int|
            if j < t.len() {
                t[j].mul_spec(F::one_spec().sub_spec(c))
            } else {
                t[j - t.len()].mul_spec(c)
            },
    )
}

/// The tensor product of the pairs `(1 - c, c)` over all `c` of `challenges`.
pub open spec fn tensor<F: Field>(challenges: Seq<F>) -> Seq<F>
    decreases challenges.len(),
{
    if challenges.len() == 0 {
        seq![F::one_spec()]
    } else {
        tensor_expand(tensor(challenges.drop_last()), challenges.last())
    }
}

/// The weights that fix one variable to `c`.
pub open spec fn single_query<F: Field>(c: F) -> Seq<F> {
    tensor(seq![c])
}

/// The values that are left of `values` when its first variable is fixed to `c`.
pub open spec fn fold_step<F: Field>(values: Seq<F>, c: F) -> Seq<F> {
    partial_low_spec(values, single_query(c))
}

/// The values that are left of `values` when its first variables are fixed to
/// `challenges`, one after the other.
pub open spec fn fold_all<F: Field>(values: Seq<F>, challenges: Seq<F>) -> Seq<F>
    decreases challenges.len(),
{
    if challenges.len() == 0 {
        values
    } else {
        fold_step(fold_all(values, challenges.drop_last()), challenges.last())
    }
}

/// `0 + a == a`.
pub proof fn lemma_zero_add<F: Field>(a: F)
    ensures
        F::zero_spec().add_spec(a) == a,
{
    F::lemma_ring_laws(a, F::zero_spec(), a);
    F::lemma_ring_laws(F::zero_spec(), a, a);
}

/// `1 * a == a`.
pub proof fn lemma_one_mul<F: Field>(a: F)
    ensures
        F::one_spec().mul_spec(a) == a,
{
    F::lemma_ring_laws(a, F::one_spec(), a);
    F::lemma_ring_laws(F::one_spec(), a, a);
}

/// `(a + b) * c == a * c + b * c`.
pub proof fn lemma_mul_distributes_right<F: Field>(a: F, b: F, c: F)
    ensures
        a.add_spec(b).mul_spec(c) == a.mul_spec(c).add_spec(b.mul_spec(c)),
{
    F::lemma_ring_laws(a.add_spec(b), c, c);
    F::lemma_ring_laws(c, a, b);
    F::lemma_ring_laws(c, a, a);
    F::lemma_ring_laws(c, b, b);
}

/// `0 * c == 0`.
pub proof fn lemma_zero_mul<F: Field>(c: F)
    ensures
        F::zero_spec().mul_spec(c) == F::zero_spec(),
{
    let z = F::zero_spec();
    let p = z.mul_spec(c);
    let n = z.sub_spec(p);
    // p + p == (0 + 0) * c == p
    lemma_mul_distributes_right(z, z, c);
    F::lemma_ring_laws(z, z, z);
    assert(p.add_spec(p) == p);
    // n + p == 0, hence 0 == n + (p + p) == (n + p) + p == 0 + p == p
    F::lemma_ring_laws(z, p, p);
    F::lemma_ring_laws(n, p, p);
    lemma_zero_add(p);
}

/// Weight `from + j` of `scaled` is weight `s + j` of `w`, times `x`.
pub open spec fn scaled_at<F: Field>(
    w: Seq<F>,
    s: int,
    scaled: Seq<F>,
    from: int,
    x: F,
    j: int,
) -> bool {
    scaled[from + j] == w[s + j].mul_spec(x)
}

/// A sum of products over `k1 + k2` terms is the sum over the first `k1` plus
/// the sum over the remaining `k2`.
pub proof fn lemma_dot_split<F: Field>(e: Seq<F>, b: int, w: Seq<F>, s: int, k1: nat, k2: nat)
    ensures
        dot(e, b, w, s, k1 + k2) == dot(e, b, w, s, k1).add_spec(dot(e, b + k1, w, s + k1, k2)),
    decreases k2,
{
    if k2 == 0 {
        F::lemma_ring_laws(dot(e, b, w, s, k1), F::zero_spec(), F::zero_spec());
    } else {
        let k2m = (k2 - 1) as nat;
        lemma_dot_split(e, b, w, s, k1, k2m);
        let last = e[b + k1 + k2 - 1].mul_spec(w[s + k1 + k2 - 1]);
        assert(dot(e, b, w, s, k1 + k2) == dot(e, b, w, s, k1 + k2m).add_spec(last));
        assert(dot(e, b + k1, w, s + k1, k2) == dot(e, b + k1, w, s + k1, k2m).add_spec(last));
        F::lemma_ring_laws(dot(e, b, w, s, k1), dot(e, b + k1, w, s + k1, k2m), last);
    }
}

/// Scaling every weight by `x` scales the sum of products by `x`.
pub proof fn lemma_dot_scale<F: Field>(
    e: Seq<F>,
    b: int,
    w: Seq<F>,
    s: int,
    scaled: Seq<F>,
    from: int,
    k: nat,
    x: F,
)
    requires
        forall|j: int| 0 <= j < k ==> #[trigger] scaled_at(w, s, scaled, from, x, j),
    ensures
        dot(e, b, scaled, from, k) == dot(e, b, w, s, k).mul_spec(x),
    decreases k,
{
    if k == 0 {
        lemma_zero_mul(x);
    } else {
        let km = (k - 1) as nat;
        lemma_dot_scale(e, b, w, s, scaled, from, km, x);
        let ev = e[b + k - 1];
        let wv = w[s + k - 1];
        assert(scaled_at(w, s, scaled, from, x, k - 1));
        // ev * (wv * x) == (ev * wv) * x
        F::lemma_ring_laws(ev, wv, x);
        lemma_mul_distributes_right(dot(e, b, w, s, km), ev.mul_spec(wv), x);
    }
}

/// What fixing one variable computes: at each vertex `i` of what is left, the
/// value `c * values[2i + 1] + (1 - c) * values[2i]`.
pub proof fn lemma_fold_step_value<F: Field>(values: Seq<F>, c: F, i: int)
    requires
        0 <= i < values.len() / 2,
    ensures
        fold_step(values, c).len() == values.len() / 2,
        fold_step(values, c)[i] == c.mul_spec(values[2 * i + 1]).add_spec(
            F::one_spec().sub_spec(c).mul_spec(values[2 * i]),
        ),
{
    let one = F::one_spec();
    let q = single_query(c);
    lemma_single_query(c);
    let lo = values[2 * i].mul_spec(q[0]);
    let hi = values[2 * i + 1].mul_spec(q[1]);
    assert(fold_step(values, c)[i] == inner_product_at(values, q, i));
    assert(i * 2 == 2 * i);
    reveal_with_fuel(dot, 3);
    assert(dot(values, 2 * i, q, 0, 2) == F::zero_spec().add_spec(lo).add_spec(hi));
    lemma_zero_add(lo);
    F::lemma_ring_laws(lo, hi, hi);
    F::lemma_ring_laws(values[2 * i], one.sub_spec(c), c);
    F::lemma_ring_laws(values[2 * i + 1], c, c);
}

/// The weights that fix one variable to `c` are `[1 - c, c]`.
pub proof fn lemma_single_query<F: Field>(c: F)
    ensures
        single_query(c) =~= seq![F::one_spec().sub_spec(c), c],
{
    let one = F::one_spec();
    let s = seq![c];
    assert(s.drop_last() =~= Seq::<F>::empty());
    assert(s.last() == c);
    assert(tensor(s.drop_last()) =~= seq![one]);
    assert(tensor(s) == tensor_expand(tensor(s.drop_last()), s.last()));
    lemma_one_mul(one.sub_spec(c));
    lemma_one_mul(c);
}

/// Extending the tensor by a challenge and contracting is the same as
/// contracting first and then fixing one more variable to that challenge.
pub proof fn lemma_contraction_step<F: Field>(evals: Seq<F>, t: Seq<F>, c: F, m: nat)
    requires
        t.len() > 0,
        evals.len() == m * (2 * t.len()),
    ensures
        partial_low_spec(evals, tensor_expand(t, c)) == fold_step(partial_low_spec(evals, t), c),
        partial_low_spec(evals, tensor_expand(t, c)).len() == m,
        partial_low_spec(evals, t).len() == 2 * m,
{
    let tl = t.len() as int;
    let t2 = tensor_expand(t, c);
    let inner = partial_low_spec(evals, t);
    let q = single_query(c);
    let one = F::one_spec();
    lemma_single_query(c);
    assert(evals.len() / t2.len() == m) by (nonlinear_arith)
        requires
            evals.len() == m * (2 * tl),
            t2.len() == 2 * tl,
            tl > 0,
    ;
    assert(evals.len() / t.len() == 2 * m) by (nonlinear_arith)
        requires
            evals.len() == m * (2 * tl),
            t.len() == tl,
            tl > 0,
    ;
    assert(q.len() == 2);
    assert(inner.len() == 2 * m);
    assert(inner.len() / q.len() == m);
    let lhs = partial_low_spec(evals, t2);
    let rhs = fold_step(inner, c);
    assert forall|i: int| 0 <= i < m implies lhs[i] == rhs[i] by {
        let base = i * (2 * tl);
        assert(i * t2.len() == base);
        assert((2 * i) * tl == base && (2 * i + 1) * tl == base + tl) by (nonlinear_arith)
            requires
                base == i * (2 * tl),
        ;
        lemma_dot_split(evals, base, t2, 0, tl as nat, tl as nat);
        assert forall|j: int| 0 <= j < tl implies #[trigger] scaled_at(
            t,
            0,
            t2,
            0,
            one.sub_spec(c),
            j,
        ) by {}
        assert forall|j: int| 0 <= j < tl implies #[trigger] scaled_at(t, 0, t2, tl, c, j) by {}
        lemma_dot_scale(evals, base, t, 0, t2, 0, tl as nat, one.sub_spec(c));
        lemma_dot_scale(evals, base + tl, t, 0, t2, tl, tl as nat, c);
        lemma_fold_step_value(inner, c, i);
        let a = inner[2 * i];
        let b = inner[2 * i + 1];
        assert(a == dot(evals, base, t, 0, tl as nat));
        assert(b == dot(evals, base + tl, t, 0, tl as nat));
        assert(lhs[i] == a.mul_spec(one.sub_spec(c)).add_spec(b.mul_spec(c)));
        F::lemma_ring_laws(a, one.sub_spec(c), c);
        F::lemma_ring_laws(b, c, c);
        F::lemma_ring_laws(a.mul_spec(one.sub_spec(c)), b.mul_spec(c), c);
    }
    assert(lhs =~= rhs);
}

/// Contracting against the tensor of no challenges changes nothing.
pub proof fn lemma_contraction_empty<F: Field>(evals: Seq<F>)
    ensures
        partial_low_spec(evals, tensor(Seq::<F>::empty())) == evals,
{
    let t = tensor(Seq::<F>::empty());
    assert(t =~= seq![F::one_spec()]);
    let r = partial_low_spec(evals, t);
    assert(evals.len() / t.len() == evals.len()) by (nonlinear_arith)
        requires
            t.len() == 1,
    ;
    assert forall|i: int| 0 <= i < evals.len() implies r[i] == evals[i] by {
        reveal_with_fuel(dot, 2);
        assert(i * 1 == i);
        assert(r[i] == dot(evals, i, t, 0, 1));
        assert(dot(evals, i, t, 0, 1) == F::zero_spec().add_spec(evals[i].mul_spec(t[0])));
        F::lemma_ring_laws(evals[i], evals[i], evals[i]);
        lemma_zero_add(evals[i].mul_spec(F::one_spec()));
    }
    assert(r =~= evals);
}

} // verus!
