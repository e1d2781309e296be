use vstd::prelude::*;

verus! {

/// Why an invocation could not produce a result.
#[derive(Clone, Copy, Debug, PartialEq, Eq, Structural)]
pub enum CalcError {
    /// The arguments do not form `LHS <operator> RHS`, or the operator is unknown.
    UsageError,
    /// An operand is not a decimal or hexadecimal number that fits in a `usize`.
    LiteralParseError,
    /// A division or a remainder by zero.
    ZeroDivisor,
}

impl CalcError {
    /// The diagnostic line shown for this error.
    pub fn message(&self) -> (r: &'static str)
        ensures
            *self == CalcError::UsageError ==> r@ == "Expected exactly 3 arguments: LHS <operator> RHS!"@,
            *self == CalcError::LiteralParseError ==> r@ == "Failed to parse one of the inputs!"@,
            *self == CalcError::ZeroDivisor ==> r@ == "Division by zero!"@,
    {
        match self {
            CalcError::UsageError => "Expected exactly 3 arguments: LHS <operator> RHS!",
            CalcError::LiteralParseError => "Failed to parse one of the inputs!",
            CalcError::ZeroDivisor => "Division by zero!",
        }
    }
}

} // verus!
