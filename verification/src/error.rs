//! Error values.
use vstd::prelude::*;

verus! {

/// Why an operation on a multilinear polynomial or on a tensor query failed.
#[derive(Clone, Copy, Debug, PartialEq, Eq, Structural)]
pub enum PolynomialError {
    /// A hypercube vertex index was not below `2^n_vars`.
    HypercubeIndexOutOfRange,
    /// A query covers more variables than the polynomial it is applied to has.
    QueryTooLarge,
    /// A tensor query was extended beyond the number of variables it was made for.
    QueryCapacityExceeded,
    /// A tensor of the requested number of variables cannot be indexed on this machine.
    QuerySizeUnsupported,
    /// A sequence of hypercube evaluations whose length is not a power of two.
    LengthNotPowerOfTwo,
    /// A composition was evaluated at a point that does not have one
    /// coordinate per variable.
    IncorrectQuerySize,
    /// A failure inside an operand's own implementation.
    OperandFailure,
}

/// Why the prover failed.
#[derive(Clone, Copy, Debug, PartialEq, Eq, Structural)]
pub enum Error {
    /// An operand does not have as many variables as the protocol has rounds.
    IncorrectNumberOfVariables { expected: usize, actual: usize },
    /// An operation on an operand or on the tensor query failed.
    PolynomialFailure(PolynomialError),
}

} // verus!
