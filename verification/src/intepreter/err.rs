//! The errors that end a run.

use vstd::prelude::*;

verus! {

/// Why a run stopped.
#[derive(Debug, PartialEq, Eq)]
pub enum RuntimeError {
    FunctionNotDefined(String),
    // Tape Errors
    TapeIndexOutOfBounds(usize, usize),
    TapeIndexCannotBeNegative,
    // Stack Errors
    StackIndexCannotBeNegative,
    StackIndexOutOfBounds(usize, usize),
    // Arithmetic
    DivisionByZero,
    // Limits
    FuelExhausted,
    Generic,
}

/// A [`RuntimeError`] with its text as a sequence of characters.
pub ghost enum RuntimeErrorView {
    FunctionNotDefined(Seq<char>),
    TapeIndexOutOfBounds(usize, usize),
    TapeIndexCannotBeNegative,
    StackIndexCannotBeNegative,
    StackIndexOutOfBounds(usize, usize),
    DivisionByZero,
    FuelExhausted,
    Generic,
}

impl View for RuntimeError {
    type V = RuntimeErrorView;

    open spec fn view(&self) -> RuntimeErrorView {
        match self {
            RuntimeError::FunctionNotDefined(name) => RuntimeErrorView::FunctionNotDefined(name@),
            RuntimeError::TapeIndexOutOfBounds(index, len) =>
                RuntimeErrorView::TapeIndexOutOfBounds(*index, *len),
            RuntimeError::TapeIndexCannotBeNegative => RuntimeErrorView::TapeIndexCannotBeNegative,
            RuntimeError::StackIndexCannotBeNegative =>
                RuntimeErrorView::StackIndexCannotBeNegative,
            RuntimeError::StackIndexOutOfBounds(index, len) =>
                RuntimeErrorView::StackIndexOutOfBounds(*index, *len),
            RuntimeError::DivisionByZero => RuntimeErrorView::DivisionByZero,
            RuntimeError::FuelExhausted => RuntimeErrorView::FuelExhausted,
            RuntimeError::Generic => RuntimeErrorView::Generic,
        }
    }
}

} // verus!
