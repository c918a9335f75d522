use vstd::prelude::*;

verus! {

/// The ways an input string can fail to parse. All three conditions are
/// fatal for the expression at hand: no partial tree is ever returned.
#[derive(Debug, Clone, Copy, PartialEq, Eq, Structural)]
pub enum ParseError {
    /// A whitespace-delimited piece of the input matches none of
    /// {operator, integer, `(`, `)`}.
    UnrecognizedToken,
    /// A closing parenthesis appeared with no open group to close.
    MismatchedParentheses,
    /// The operand stack could not supply the operands an operator needs,
    /// or held no final result.
    IncompleteExpression,
}

} // verus!
