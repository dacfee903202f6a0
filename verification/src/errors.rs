//! Error taxonomy of the language front end and evaluator.
//!
//! Parse-time failures carry a source location; evaluation failures carry
//! enough detail to say which operation was attempted on which value types.
use vstd::prelude::*;

use crate::ast::ArithOp;
use crate::ast::CmpOp;
use crate::ast::LogicOp;

verus! {

/// The dynamic type of a runtime value, used in error reports.
#[derive(Clone, Copy, Debug, PartialEq, Eq, Structural)]
pub enum ValueType {
    Void,
    Boolean,
    Integer,
    Float,
    Char,
    Text,
}

/// The operation that an `UnsupportedOperation` error speaks of.
#[derive(Clone, Copy, Debug, PartialEq, Eq, Structural)]
pub enum OpKind {
    Arith(ArithOp),
    Cmp(CmpOp),
    Logic(LogicOp),
    Not,
    Minus,
    Print,
}

/// A parse-time failure: the input did not match the requested rule.
/// `location` is the character position where matching gave up.
#[derive(Clone, Debug, PartialEq)]
pub struct SyntaxError {
    pub location: usize,
}

/// An evaluation-time failure. Every evaluator operation reports one of
/// these instead of terminating the process.
#[derive(Clone, Debug, PartialEq)]
pub enum EvalError {
    /// Internal consistency violation in the tree builder; should not reach users.
    BuilderError,
    /// A name was read before any binding gave it a value.
    UndefinedIdentifier(String),
    /// The destination of an assignment was not an identifier.
    InvalidAssignmentTarget,
    /// The operator is not defined for the given operand types.
    UnsupportedOperation(OpKind, ValueType, ValueType),
    /// Integer division or modulo with a zero divisor.
    DivisionByZero,
    /// The callee is not a builtin of the given name and arity.
    UnknownFunction(String, usize),
    /// A cast whose conversion is defined but failed on the given text.
    CastFailed,
    /// A cast between types that the conversion table does not cover.
    UnsupportedCast,
    /// `assert` was called on the boolean `false`.
    AssertionFailed,
    /// A construct that is recognized syntactically but carries no semantics.
    NotImplemented,
}

/// Mathematical mirror of `EvalError`: text payloads become character
/// sequences, so that contracts can speak of errors by value.
pub enum AbsEvalError {
    BuilderError,
    UndefinedIdentifier(Seq<char>),
    InvalidAssignmentTarget,
    UnsupportedOperation(OpKind, ValueType, ValueType),
    DivisionByZero,
    UnknownFunction(Seq<char>, nat),
    CastFailed,
    UnsupportedCast,
    AssertionFailed,
    NotImplemented,
}

impl View for EvalError {
    type V = AbsEvalError;

    open spec fn view(&self) -> AbsEvalError {
        match *self {
            EvalError::BuilderError => AbsEvalError::BuilderError,
            EvalError::UndefinedIdentifier(ref n) => AbsEvalError::UndefinedIdentifier(n@),
            EvalError::InvalidAssignmentTarget => AbsEvalError::InvalidAssignmentTarget,
            EvalError::UnsupportedOperation(op, l, r) => AbsEvalError::UnsupportedOperation(
                op,
                l,
                r,
            ),
            EvalError::DivisionByZero => AbsEvalError::DivisionByZero,
            EvalError::UnknownFunction(ref n, a) => AbsEvalError::UnknownFunction(n@, a as nat),
            EvalError::CastFailed => AbsEvalError::CastFailed,
            EvalError::UnsupportedCast => AbsEvalError::UnsupportedCast,
            EvalError::AssertionFailed => AbsEvalError::AssertionFailed,
            EvalError::NotImplemented => AbsEvalError::NotImplemented,
        }
    }
}

/// Any failure of a whole run: either the text did not parse, or the
/// evaluator stopped on a typed error.
#[derive(Clone, Debug, PartialEq)]
pub enum CacauError {
    Syntax(SyntaxError),
    Eval(EvalError),
}

impl EvalError {
    /// A short description, suitable for a host program's error report.
    pub fn describe(&self) -> (r: &'static str) {
        match *self {
            EvalError::BuilderError => "internal tree builder error",
            EvalError::UndefinedIdentifier(_) => "undefined identifier",
            EvalError::InvalidAssignmentTarget => "invalid assignment target",
            EvalError::UnsupportedOperation(_, _, _) => "unsupported operation",
            EvalError::DivisionByZero => "division by zero",
            EvalError::UnknownFunction(_, _) => "unknown function or wrong argument count",
            EvalError::CastFailed => "cast failed",
            EvalError::UnsupportedCast => "unsupported cast",
            EvalError::AssertionFailed => "assertion failed",
            EvalError::NotImplemented => "not implemented",
        }
    }
}

} // verus!
