//! The failure taxonomy of the pipeline. Every stage reports its
//! failures as data: the kind of fault together with the source line
//! and column where it was detected, when a position is available.

use vstd::prelude::*;

verus! {

/// A failure of the pipeline, with the source position at which it was
/// detected. Lines and columns are counted from 1; the column is a
/// running character count that a newline does not reset.
#[derive(Debug, Clone, Copy, PartialEq, Eq, Structural)]
pub enum Error {
    /// A second `.` inside one number literal.
    UnexpectedDot { line: usize, column: usize },
    /// A character outside the grammar.
    UnexpectedCharacter { line: usize, column: usize },
    /// A closing parenthesis without a matching opening one, or an
    /// opening parenthesis still unclosed at end of input.
    UnmatchedParenthesis { line: usize, column: usize },
    /// An operator other than `+` or `-` in a position where only a
    /// prefix operator would be valid.
    InvalidInfixOperator { line: usize, column: usize },
    /// An empty Reverse Polish queue: no expression at all.
    EmptyExpression,
    /// An operator node with the wrong number of operands, or a call
    /// with no arguments.
    WrongArity { line: usize, column: usize },
    /// A call to a name with no built-in definition.
    UnknownFunction { line: usize, column: usize },
    /// A runtime arithmetic fault: division by zero, or a value that
    /// exceeds the range of exact decimals.
    ArithmeticFault { line: usize, column: usize },
}

/// The mathematical value of an `Error`: positions as unbounded
/// naturals.
pub enum ErrorV {
    UnexpectedDot { line: nat, column: nat },
    UnexpectedCharacter { line: nat, column: nat },
    UnmatchedParenthesis { line: nat, column: nat },
    InvalidInfixOperator { line: nat, column: nat },
    EmptyExpression,
    WrongArity { line: nat, column: nat },
    UnknownFunction { line: nat, column: nat },
    ArithmeticFault { line: nat, column: nat },
}

impl View for Error {
    type V = ErrorV;

    open spec fn view(&self) -> ErrorV {
        match self {
            Error::UnexpectedDot { line, column } => ErrorV::UnexpectedDot {
                line: *line as nat,
                column: *column as nat,
            },
            Error::UnexpectedCharacter { line, column } => ErrorV::UnexpectedCharacter {
                line: *line as nat,
                column: *column as nat,
            },
            Error::UnmatchedParenthesis { line, column } => ErrorV::UnmatchedParenthesis {
                line: *line as nat,
                column: *column as nat,
            },
            Error::InvalidInfixOperator { line, column } => ErrorV::InvalidInfixOperator {
                line: *line as nat,
                column: *column as nat,
            },
            Error::EmptyExpression => ErrorV::EmptyExpression,
            Error::WrongArity { line, column } => ErrorV::WrongArity {
                line: *line as nat,
                column: *column as nat,
            },
            Error::UnknownFunction { line, column } => ErrorV::UnknownFunction {
                line: *line as nat,
                column: *column as nat,
            },
            Error::ArithmeticFault { line, column } => ErrorV::ArithmeticFault {
                line: *line as nat,
                column: *column as nat,
            },
        }
    }
}

} // verus!
