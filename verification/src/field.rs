//! The arithmetic the prover computes with.
//!
//! The prover only ever adds, subtracts and multiplies, so what it needs of its
//! scalars is stated once, in [`Field`], together with the algebraic laws that
//! every proof about folding and summing rests on.
use vstd::prelude::*;

verus! {

/// A field, seen through the operations the prover performs.
///
/// Each executable operation is tied to a specification function, and an
/// implementation has to prove that these obey the laws of a commutative ring
/// with identity.
pub trait Field: Copy + Sized {
    /// The additive identity.
    open spec fn zero_spec() -> Self {
        arbitrary()
    }

    /// The multiplicative identity.
    open spec fn one_spec() -> Self {
        arbitrary()
    }

    /// The sum of two elements.
    open spec fn add_spec(self, rhs: Self) -> Self {
        arbitrary()
    }

    /// The difference of two elements.
    open spec fn sub_spec(self, rhs: Self) -> Self {
        arbitrary()
    }

    /// The product of two elements.
    open spec fn mul_spec(self, rhs: Self) -> Self {
        arbitrary()
    }

    /// The ring laws, for three arbitrary elements.
    proof fn lemma_ring_laws(a: Self, b: Self, c: Self)
        ensures
            a.add_spec(b) == b.add_spec(a),
            a.add_spec(b).add_spec(c) == a.add_spec(b.add_spec(c)),
            a.add_spec(Self::zero_spec()) == a,
            a.sub_spec(b).add_spec(b) == a,
            a.mul_spec(b) == b.mul_spec(a),
            a.mul_spec(b).mul_spec(c) == a.mul_spec(b.mul_spec(c)),
            a.mul_spec(Self::one_spec()) == a,
            a.mul_spec(b.add_spec(c)) == a.mul_spec(b).add_spec(a.mul_spec(c)),
    ;

    fn zero() -> (r: Self)
        ensures
            r == Self::zero_spec(),
    ;

    fn one() -> (r: Self)
        ensures
            r == Self::one_spec(),
    ;

    fn add(self, rhs: Self) -> (r: Self)
        ensures
            r == self.add_spec(rhs),
    ;

    fn sub(self, rhs: Self) -> (r: Self)
        ensures
            r == self.sub_spec(rhs),
    ;

    fn mul(self, rhs: Self) -> (r: Self)
        ensures
            r == self.mul_spec(rhs),
    ;
}

/// `x0 + (x1 - x0) * z`: the value at `z` of the line through `(0, x0)` and `(1, x1)`.
pub open spec fn extrapolate_line_spec<F: Field>(x0: F, x1: F, z: F) -> F {
    x0.add_spec(x1.sub_spec(x0).mul_spec(z))
}

/// Evaluates at `z` the line that takes the value `x0` at 0 and `x1` at 1.
pub fn extrapolate_line<F: Field>(x0: F, x1: F, z: F) -> (r: F)
    ensures
        r == extrapolate_line_spec(x0, x1, z),
{
    x0.add(x1.sub(x0).mul(z))
}

/// The element-wise sum of two vectors of field elements; it has the length of
/// the first.
pub open spec fn add_seqs<F: Field>(a: Seq<F>, b: Seq<F>) -> Seq<F> {
    Seq::new(a.len(), |k: int| a[k].add_spec(b[k]))
}

/// The vector of `n` zeros.
pub open spec fn zeros<F: Field>(n: nat) -> Seq<F> {
    Seq::new(n, |k: int| F::zero_spec())
}

/// A vector of `n` zeros.
pub fn zero_vec<F: Field>(n: usize) -> (v: Vec<F>)
    ensures
        v@ == zeros::<F>(n as nat),
{
    let mut v: Vec<F> = Vec::new();
    let mut k: usize = 0;
    while k < n
        invariant
            k <= n,
            v@ == zeros::<F>(k as nat),
        decreases n - k,
    {
        v.push(F::zero());
        k += 1;
        assert(v@ =~= zeros::<F>(k as nat));
    }
    v
}

/// Adds `b` to `a` element by element.
pub fn add_into<F: Field>(a: &mut Vec<F>, b: &Vec<F>)
    requires
        old(a).len() == b.len(),
    ensures
        final(a)@ == add_seqs(old(a)@, b@),
{
    let n = a.len();
    let mut k: usize = 0;
    while k < n
        invariant
            k <= n,
            n == b.len(),
            a.len() == n,
            forall|i: int| 0 <= i < k ==> a@[i] == old(a)@[i].add_spec(b@[i]),
            forall|i: int| k <= i < n ==> a@[i] == old(a)@[i],
        decreases n - k,
    {
        let s = a[k].add(b[k]);
        a.set(k, s);
        k += 1;
    }
    assert(a@ =~= add_seqs(old(a)@, b@));
}

} // verus!
