//! Multilinear polynomials, as the prover consumes them.
use crate::contraction::{dot, inner_product_at, partial_low_spec};
use crate::error::PolynomialError;
use crate::field::Field;
use crate::query::{fits_usize, lemma_tensor_len, MultilinearQuery};
use vstd::arithmetic::power2::{
    lemma2_to64, lemma_pow2_adds, lemma_pow2_pos, lemma_pow2_unfold, pow2,
};
use vstd::prelude::*;

verus! {

/// A multilinear polynomial whose values lie in, or embed into, the field `F`.
///
/// An operand may store its values in a smaller field than the one the prover
/// works in; the prover only ever sees them through these methods, as elements
/// of `F`.
pub trait MultilinearPoly<F: Field> {
    /// The number of variables.
    open spec fn n_vars_spec(&self) -> nat {
        arbitrary()
    }

    /// The values on the hypercube, as elements of `F`: vertex `x` stands at
    /// index `sum_k x_k * 2^k`.
    open spec fn evals(&self) -> Seq<F> {
        arbitrary()
    }

    /// The polynomial is consistent: it has `2^n_vars` values, and a machine
    /// index reaches every one of them.
    open spec fn wf(&self) -> bool {
        arbitrary()
    }

    /// The number of variables.
    fn n_vars(&self) -> (n: usize)
        requires
            self.wf(),
        ensures
            n == self.n_vars_spec(),
            self.evals().len() == pow2(n as nat),
            fits_usize(n as nat),
    ;

    /// How many elements of the field the values are stored in make up one
    /// element of `F`.
    open spec fn extension_degree_spec(&self) -> usize {
        arbitrary()
    }

    /// How many elements of the field the values are stored in make up one
    /// element of `F`.
    fn extension_degree(&self) -> (d: usize)
        requires
            self.wf(),
        ensures
            d == self.extension_degree_spec(),
    ;

    /// The value at hypercube vertex `index`; fails exactly when `index` is not
    /// below `2^n_vars`.
    fn evaluate_on_hypercube(&self, index: usize) -> (r: Result<F, PolynomialError>)
        requires
            self.wf(),
        ensures
            r is Ok <==> index < self.evals().len(),
            r is Ok ==> r->Ok_0 == self.evals()[index as int],
    ;

    /// The value, at vertex `index` of the remaining variables, of the
    /// polynomial with its low variables contracted against `query`; fails
    /// exactly when the query covers more variables than there are or `index`
    /// is not a vertex of what remains.
    fn evaluate_subcube(&self, index: usize, query: &MultilinearQuery<F>) -> (r: Result<
        F,
        PolynomialError,
    >)
        requires
            self.wf(),
            query.wf(),
        ensures
            r is Ok <==> query@.len() <= self.n_vars_spec() && index < pow2(
                (self.n_vars_spec() - query@.len()) as nat,
            ),
            r is Ok ==> r->Ok_0 == inner_product_at(
                self.evals(),
                query.expansion_spec(),
                index as int,
            ),
    ;

    /// Whether materializing the polynomial succeeds whenever the query does
    /// not cover more variables than there are. An implementation that can
    /// fail for other reasons leaves this at `false`.
    open spec fn materializes(&self) -> bool {
        false
    }

    /// The polynomial with its low variables contracted against `query`,
    /// materialized over `F`. It may fail, and does when the query covers more
    /// variables than there are.
    fn evaluate_partial_low(&self, query: &MultilinearQuery<F>) -> (r: Result<
        MultilinearExtension<F>,
        PolynomialError,
    >)
        requires
            self.wf(),
            query.wf(),
        ensures
            query@.len() > self.n_vars_spec() ==> r is Err,
            self.materializes() && query@.len() <= self.n_vars_spec() ==> r is Ok,
            r is Ok ==> {
                &&& r->Ok_0.inv()
                &&& r->Ok_0.arity() == self.n_vars_spec() - query@.len()
                &&& r->Ok_0@ == partial_low_spec(self.evals(), query.expansion_spec())
            },
    ;
}

/// A multilinear polynomial over `F` given by all its values on the hypercube.
#[derive(Clone, Debug)]
pub struct MultilinearExtension<F: Field> {
    values: Vec<F>,
    n_vars: usize,
}

/// `sum_j evals[base + j] * weights[j]` over all of `weights`.
pub fn dot_product<F: Field>(evals: &[F], base: usize, weights: &[F]) -> (r: F)
    requires
        base + weights@.len() <= evals@.len(),
    ensures
        r == dot(evals@, base as int, weights@, 0, weights@.len()),
{
    let n = weights.len();
    let len = evals.len();
    let mut acc = F::zero();
    let mut j: usize = 0;
    while j < n
        invariant
            j <= n,
            n == weights@.len(),
            base + n <= evals@.len(),
            evals@.len() == len,
            acc == dot(evals@, base as int, weights@, 0, j as nat),
        decreases n - j,
    {
        acc = acc.add(evals[base + j].mul(weights[j]));
        j += 1;
    }
    acc
}

/// Block `index` of `count` blocks of `width` entries lies within `count * width` entries.
pub proof fn lemma_block_bounds(index: int, count: int, width: int)
    requires
        0 <= index < count,
        0 <= width,
    ensures
        0 <= index * width,
        index * width + width <= count * width,
{
    assert(index * width + width == (index + 1) * width) by (nonlinear_arith);
    assert((index + 1) * width <= count * width) by (nonlinear_arith)
        requires
            index + 1 <= count,
            0 <= width,
    ;
    assert(0 <= index * width) by (nonlinear_arith)
        requires
            0 <= index,
            0 <= width,
    ;
}

impl<F: Field> View for MultilinearExtension<F> {
    type V = Seq<F>;

    /// The values on the hypercube.
    closed spec fn view(&self) -> Seq<F> {
        self.values@
    }
}

impl<F: Field> MultilinearExtension<F> {
    /// The number of variables.
    pub closed spec fn arity(&self) -> nat {
        self.n_vars as nat
    }

    /// There are `2^arity` values.
    pub closed spec fn inv(&self) -> bool {
        self.values@.len() == pow2(self.n_vars as nat) && self.values@.len() <= usize::MAX
    }

    /// The polynomial with the hypercube values `values`.
    ///
    /// Fails with `LengthNotPowerOfTwo` exactly when the number of values is
    /// not a power of two.
    pub fn from_values(values: Vec<F>) -> (r: Result<Self, PolynomialError>)
        ensures
            r is Ok <==> exists|n: nat| values@.len() == pow2(n),
            r is Err ==> r == Err::<Self, PolynomialError>(PolynomialError::LengthNotPowerOfTwo),
            r is Ok ==> r->Ok_0.inv() && r->Ok_0@ == values@,
            r is Ok ==> forall|n: nat| values@.len() == pow2(n) ==> r->Ok_0.arity() == n,
    {
        let len = values.len();
        let mut size: usize = 1;
        let mut n_vars: usize = 0;
        proof {
            lemma2_to64();
        }
        while size < len && size <= usize::MAX / 2
            invariant
                size == pow2(n_vars as nat),
                size >= 1,
                n_vars < 64,
                len == values@.len(),
                forall|m: nat| m < n_vars ==> pow2(m) < len,
            decreases usize::MAX - size,
        {
            proof {
                lemma_pow2_unfold((n_vars + 1) as nat);
                lemma_two_pow_bound(n_vars as nat);
            }
            size = size * 2;
            n_vars = n_vars + 1;
        }
        if size == len {
            proof {
                assert forall|n: nat| values@.len() == pow2(n) implies n == n_vars by {
                    if n < n_vars {
                        vstd::arithmetic::power2::lemma_pow2_strictly_increases(n, n_vars as nat);
                    } else if n > n_vars {
                        vstd::arithmetic::power2::lemma_pow2_strictly_increases(n_vars as nat, n);
                    }
                }
            }
            Ok(MultilinearExtension { values, n_vars })
        } else {
            proof {
                assert forall|n: nat| values@.len() != pow2(n) by {
                    if n < n_vars {
                    } else if n == n_vars {
                    } else {
                        vstd::arithmetic::power2::lemma_pow2_strictly_increases(n_vars as nat, n);
                        lemma_pow2_unfold((n_vars + 1) as nat);
                        if n > n_vars + 1 {
                            vstd::arithmetic::power2::lemma_pow2_strictly_increases(
                                (n_vars + 1) as nat,
                                n,
                            );
                        }
                    }
                }
            }
            Err(PolynomialError::LengthNotPowerOfTwo)
        }
    }

    /// The values on the hypercube.
    pub fn values(&self) -> (v: &[F])
        ensures
            v@ == self@,
    {
        self.values.as_slice()
    }

    /// The polynomial has `2^n_vars` values.
    pub proof fn lemma_shape(&self)
        requires
            self.inv(),
        ensures
            self@.len() == pow2(self.arity()),
            fits_usize(self.arity()),
    {
    }
}

/// While `2^n` is below a machine word's largest value halved, `n` is below 63.
proof fn lemma_two_pow_bound(n: nat)
    requires
        pow2(n) <= usize::MAX / 2,
    ensures
        n < 63,
{
    lemma2_to64();
    vstd::arithmetic::power2::lemma2_to64_rest();
    if n >= 63 {
        if n > 63 {
            vstd::arithmetic::power2::lemma_pow2_strictly_increases(63, n);
        }
    }
}

impl<F: Field> MultilinearPoly<F> for MultilinearExtension<F> {
    open spec fn n_vars_spec(&self) -> nat {
        self.arity()
    }

    open spec fn evals(&self) -> Seq<F> {
        self@
    }

    open spec fn wf(&self) -> bool {
        self.inv()
    }

    open spec fn materializes(&self) -> bool {
        true
    }

    fn n_vars(&self) -> (n: usize) {
        self.n_vars
    }

    /// Always 1: the values are stored as elements of `F` itself.
    open spec fn extension_degree_spec(&self) -> usize {
        1
    }

    fn extension_degree(&self) -> (d: usize) {
        1
    }

    fn evaluate_on_hypercube(&self, index: usize) -> (r: Result<F, PolynomialError>)
        ensures
            r is Err ==> r == Err::<F, PolynomialError>(PolynomialError::HypercubeIndexOutOfRange),
    {
        if index < self.values.len() {
            Ok(self.values[index])
        } else {
            Err(PolynomialError::HypercubeIndexOutOfRange)
        }
    }

    fn evaluate_subcube(&self, index: usize, query: &MultilinearQuery<F>) -> (r: Result<
        F,
        PolynomialError,
    >)
        ensures
            r is Err ==> r == Err::<F, PolynomialError>(
                if query@.len() > self.n_vars_spec() {
                    PolynomialError::QueryTooLarge
                } else {
                    PolynomialError::HypercubeIndexOutOfRange
                },
            ),
    {
        if query.n_vars() > self.n_vars {
            return Err(PolynomialError::QueryTooLarge);
        }
        let weights = query.expansion();
        let width = weights.len();
        proof {
            lemma_tensor_len(query@);
            lemma_pow2_pos(query@.len());
            lemma_pow2_adds((self.n_vars - query@.len()) as nat, query@.len());
            lemma_div_exact(
                pow2((self.n_vars - query@.len()) as nat) as int,
                width as int,
                self.values@.len() as int,
            );
        }
        let count = self.values.len() / width;
        if index >= count {
            return Err(PolynomialError::HypercubeIndexOutOfRange);
        }
        proof {
            lemma_block_bounds(index as int, count as int, width as int);
        }
        Ok(dot_product(self.values.as_slice(), index * width, weights))
    }

    fn evaluate_partial_low(&self, query: &MultilinearQuery<F>) -> (r: Result<
        MultilinearExtension<F>,
        PolynomialError,
    >)
        ensures
            r is Ok <==> query@.len() <= self.n_vars_spec(),
            r is Err ==> r == Err::<MultilinearExtension<F>, PolynomialError>(
                PolynomialError::QueryTooLarge,
            ),
    {
        if query.n_vars() > self.n_vars {
            return Err(PolynomialError::QueryTooLarge);
        }
        let weights = query.expansion();
        let width = weights.len();
        proof {
            lemma_tensor_len(query@);
            lemma_pow2_pos(query@.len());
            lemma_pow2_adds((self.n_vars - query@.len()) as nat, query@.len());
            lemma_div_exact(
                pow2((self.n_vars - query@.len()) as nat) as int,
                width as int,
                self.values@.len() as int,
            );
        }
        let count = self.values.len() / width;
        let mut values: Vec<F> = Vec::new();
        let mut i: usize = 0;
        while i < count
            invariant
                i <= count,
                width == weights@.len(),
                count * width == self.values@.len(),
                self.values@.len() <= usize::MAX,
                values.len() == i,
                forall|k: int|
                    0 <= k < i ==> values@[k] == inner_product_at(self.values@, weights@, k),
            decreases count - i,
        {
            proof {
                lemma_block_bounds(i as int, count as int, width as int);
            }
            values.push(dot_product(self.values.as_slice(), i * width, weights));
            i += 1;
        }
        assert(values@ =~= partial_low_spec(self.values@, weights@));
        Ok(MultilinearExtension { values, n_vars: self.n_vars - query.n_vars() })
    }
}

/// If `total == count * width` with `width` positive, then `total / width == count`.
pub proof fn lemma_div_exact(count: int, width: int, total: int)
    requires
        width > 0,
        count >= 0,
        total == count * width,
    ensures
        total / width == count,
{
    assert(total / width == count) by (nonlinear_arith)
        requires
            width > 0,
            count >= 0,
            total == count * width,
    ;
}

} // verus!
