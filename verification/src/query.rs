//! The tensor query: the challenges received so far, expanded.
use crate::contraction::{tensor, tensor_expand};
use crate::error::PolynomialError;
use crate::field::Field;
use vstd::arithmetic::power2::{lemma2_to64, lemma_pow2_strictly_increases, lemma_pow2_unfold, pow2};
use vstd::prelude::*;

verus! {

/// The tensor of a sequence of challenges has `2^len` entries.
pub proof fn lemma_tensor_len<F: Field>(challenges: Seq<F>)
    ensures
        tensor(challenges).len() == pow2(challenges.len()),
    decreases challenges.len(),
{
    lemma2_to64();
    if challenges.len() > 0 {
        lemma_tensor_len(challenges.drop_last());
        lemma_pow2_unfold(challenges.len());
    }
}

/// `2^a <= 2^b` for `a <= b`.
pub proof fn lemma_pow2_monotonic(a: nat, b: nat)
    requires
        a <= b,
    ensures
        pow2(a) <= pow2(b),
{
    if a < b {
        lemma_pow2_strictly_increases(a, b);
    }
}

/// Whether a hypercube of `n` variables can be indexed by a `usize`.
pub open spec fn fits_usize(n: nat) -> bool {
    pow2(n) <= usize::MAX
}

/// Tests whether a hypercube of `n` variables can be indexed by a `usize`.
pub fn check_fits_usize(n: usize) -> (r: bool)
    ensures
        r == fits_usize(n as nat),
{
    proof {
        lemma2_to64();
        if n >= 32 {
            lemma_pow2_monotonic(32, n as nat);
        }
        if n >= 64 {
            lemma_pow2_monotonic(64, n as nat);
        }
        if n < 32 {
            lemma_pow2_strictly_increases(n as nat, 32);
        }
        if n < 64 {
            lemma_pow2_strictly_increases(n as nat, 64);
        }
    }
    n < usize::BITS as usize
}

/// A sequence of challenges together with its tensor expansion.
///
/// The expansion of challenges `c_0 .. c_{r-1}` has `2^r` entries; entry `j` is
/// the product over `k` of `c_k` where bit `k` of `j` is set and of `1 - c_k`
/// where it is not. A query is made for a largest number of challenges and
/// refuses to grow beyond it.
#[derive(Clone, Debug)]
pub struct MultilinearQuery<F: Field> {
    expanded_query: Vec<F>,
    challenges: Vec<F>,
    max_query_vars: usize,
}

impl<F: Field> View for MultilinearQuery<F> {
    type V = Seq<F>;

    /// The challenges, in the order received.
    closed spec fn view(&self) -> Seq<F> {
        self.challenges@
    }
}

impl<F: Field> MultilinearQuery<F> {
    /// The expanded tensor.
    pub closed spec fn expansion_spec(&self) -> Seq<F> {
        self.expanded_query@
    }

    /// The largest number of challenges the query takes.
    pub closed spec fn capacity(&self) -> nat {
        self.max_query_vars as nat
    }

    /// The expansion is the tensor of the challenges, and the query is within
    /// its capacity, which in turn is within what the machine can index.
    pub open spec fn wf(&self) -> bool {
        &&& self.expansion_spec() == tensor(self@)
        &&& self@.len() <= self.capacity()
        &&& fits_usize(self.capacity())
    }

    /// An empty query that can take up to `max_query_vars` challenges.
    ///
    /// Fails with `QuerySizeUnsupported` exactly when a tensor over that many
    /// variables could not be indexed.
    pub fn new(max_query_vars: usize) -> (r: Result<Self, PolynomialError>)
        ensures
            r is Ok <==> fits_usize(max_query_vars as nat),
            r is Err ==> r == Err::<Self, PolynomialError>(PolynomialError::QuerySizeUnsupported),
            r is Ok ==> r->Ok_0.wf() && r->Ok_0@ == Seq::<F>::empty() && r->Ok_0.capacity()
                == max_query_vars,
    {
        if !check_fits_usize(max_query_vars) {
            return Err(PolynomialError::QuerySizeUnsupported);
        }
        let mut expanded_query: Vec<F> = Vec::new();
        expanded_query.push(F::one());
        let q = MultilinearQuery { expanded_query, challenges: Vec::new(), max_query_vars };
        assert(q.expanded_query@ =~= tensor(q.challenges@));
        Ok(q)
    }

    /// The query of exactly the challenges `query`, with no room for more.
    ///
    /// Fails with `QuerySizeUnsupported` exactly when a tensor over that many
    /// variables could not be indexed.
    pub fn with_full_query(query: &[F]) -> (r: Result<Self, PolynomialError>)
        ensures
            r is Ok <==> fits_usize(query@.len()),
            r is Err ==> r == Err::<Self, PolynomialError>(PolynomialError::QuerySizeUnsupported),
            r is Ok ==> r->Ok_0.wf() && r->Ok_0@ == query@ && r->Ok_0.capacity() == query@.len(),
    {
        match Self::new(query.len()) {
            Err(e) => Err(e),
            Ok(empty) => {
                let r = empty.update(query);
                assert(Seq::<F>::empty() + query@ =~= query@);
                r
            },
        }
    }

    /// The query extended by the challenges `extra`.
    ///
    /// Fails with `QueryCapacityExceeded` exactly when the query would exceed
    /// its capacity.
    pub fn update(self, extra: &[F]) -> (r: Result<Self, PolynomialError>)
        requires
            self.wf(),
        ensures
            r is Ok <==> self@.len() + extra@.len() <= self.capacity(),
            r is Err ==> r == Err::<Self, PolynomialError>(PolynomialError::QueryCapacityExceeded),
            r is Ok ==> r->Ok_0.wf() && r->Ok_0@ == self@ + extra@ && r->Ok_0.capacity()
                == self.capacity(),
    {
        if extra.len() > self.max_query_vars - self.challenges.len() {
            return Err(PolynomialError::QueryCapacityExceeded);
        }
        let mut q = self;
        let n = extra.len();
        let mut k: usize = 0;
        while k < n
            invariant
                k <= n,
                n == extra@.len(),
                q.wf(),
                q.max_query_vars == self.max_query_vars,
                q@ == self@ + extra@.subrange(0, k as int),
                self@.len() + n <= self.max_query_vars,
            decreases n - k,
        {
            let c = extra[k];
            proof {
                lemma_tensor_len(q@);
                lemma_tensor_len(q@.push(c));
                lemma_pow2_monotonic(q@.len() + 1, q.capacity());
                assert(q@.push(c).drop_last() =~= q@);
            }
            q.expanded_query = expand(&q.expanded_query, c);
            q.challenges.push(c);
            k += 1;
            assert(q@ =~= self@ + extra@.subrange(0, k as int));
        }
        assert(extra@.subrange(0, n as int) =~= extra@);
        Ok(q)
    }

    /// The number of challenges in the query.
    pub fn n_vars(&self) -> (n: usize)
        ensures
            n == self@.len(),
    {
        self.challenges.len()
    }

    /// The largest number of challenges the query takes.
    pub fn max_query_vars(&self) -> (n: usize)
        ensures
            n == self.capacity(),
    {
        self.max_query_vars
    }

    /// The expanded tensor.
    pub fn expansion(&self) -> (t: &[F])
        ensures
            t@ == self.expansion_spec(),
    {
        self.expanded_query.as_slice()
    }
}

/// The tensor `t` extended by the challenge `c`.
pub fn expand<F: Field>(t: &Vec<F>, c: F) -> (r: Vec<F>)
    requires
        2 * t.len() <= usize::MAX,
    ensures
        r@ == tensor_expand(t@, c),
{
    let n = t.len();
    let one_minus_c = F::one().sub(c);
    let mut r: Vec<F> = Vec::new();
    let mut j: usize = 0;
    while j < n
        invariant
            j <= n,
            n == t.len(),
            one_minus_c == F::one_spec().sub_spec(c),
            r.len() == j,
            forall|i: int| 0 <= i < j ==> r@[i] == tensor_expand(t@, c)[i],
        decreases n - j,
    {
        r.push(t[j].mul(one_minus_c));
        j += 1;
    }
    let mut j: usize = 0;
    while j < n
        invariant
            j <= n,
            n == t.len(),
            2 * n <= usize::MAX,
            r.len() == n + j,
            forall|i: int| 0 <= i < n + j ==> r@[i] == tensor_expand(t@, c)[i],
        decreases n - j,
    {
        r.push(t[j].mul(c));
        j += 1;
    }
    assert(r@ =~= tensor_expand(t@, c));
    r
}

} // verus!
