use vstd::prelude::*;
use crate::fmt::{digits, push_str, push_u64};

verus! {

/// Every way an operation of this crate can fail.
#[derive(Debug, PartialEq, Eq)]
pub enum Error {
    /// An integer division or remainder by zero.
    DivideByZero,
    /// A signed division whose quotient does not fit (`MIN / -1`).
    IntegerOverflow,
    /// Two values (or a value and a declared type) have different types.
    TypeMismatch,
    /// A value was taken from an empty stack.
    StackUnderflow,
    /// A position past the end of a list.
    IndexOutOfBounds(usize),
    /// A name that was never declared.
    KeyNotFound(String),
    /// A name declared a second time.
    KeyExists(String),
    /// An `end` or `else` with no structured instruction to close.
    UnexpectedEndOfBlock,
    /// A structured instruction that is not closed by `end`.
    ExpectedEnd,
    /// A block or function left more values than its results.
    TooManyReturns,
    /// The call stack has no frame to work on.
    NoFunctionInStack,
    /// A frame has no block to work on.
    NoBlockInStack,
    /// Calls nested deeper than the engine allows.
    StackOverflow,
    /// A branch to a label no enclosing block has.
    BranchLeak,
    /// A `return` outside any function.
    ReturnOutsideFunc,
    /// A structured instruction whose body was never grouped.
    MissingBody,
    /// The run exceeded the number of steps the engine allows.
    ExecutionLimit,
    /// A function that is exported.
    UnsupportedExport,
    /// A function that is imported rather than defined in place.
    UnsupportedFunctionKind,
    /// A function type given by a reference to a type definition.
    UnsupportedTypeIndex,
    /// A value type other than `i32`, `i64`, `f32` and `f64`.
    UnsupportedValueType,
    /// An instruction the engine does not run.
    UnsupportedInstruction,
}


/// The text that tells a user what went wrong.
pub open spec fn error_text(e: Error) -> Seq<char> {
    match e {
        Error::DivideByZero => "Divide by zero"@,
        Error::IntegerOverflow => "Integer Overflow"@,
        Error::TypeMismatch => "Type mismatch"@,
        Error::StackUnderflow => "Stack underflow"@,
        Error::UnexpectedEndOfBlock => "Unexpected end of block"@,
        Error::ExpectedEnd => "Expected End"@,
        Error::TooManyReturns => "Too many returns"@,
        Error::NoFunctionInStack => "No function in stack"@,
        Error::NoBlockInStack => "No block in stack"@,
        Error::StackOverflow => "Stack overflow"@,
        Error::BranchLeak => "br leaking out"@,
        Error::ReturnOutsideFunc => "return is allowed only in func"@,
        Error::MissingBody => "Missing body"@,
        Error::ExecutionLimit => "Execution limit reached"@,
        Error::UnsupportedExport => "Unsupported export"@,
        Error::UnsupportedFunctionKind => "Unsupported function kind"@,
        Error::UnsupportedTypeIndex => "Unsupported type index"@,
        Error::UnsupportedValueType => "Unsupported value type"@,
        Error::UnsupportedInstruction => "Unsupported instruction"@,
        Error::IndexOutOfBounds(i) => "Index out of bounds: "@ + digits(i as nat),
        Error::KeyNotFound(k) => "Key not found: "@ + k@,
        Error::KeyExists(k) => "Key already exists: "@ + k@,
    }
}

impl Error {
    /// The text that tells a user what went wrong (see `error_text`).
    pub fn text(&self) -> (s: String)
        ensures
            s@ == error_text(*self),
    {
        match self {
            Error::DivideByZero => String::from_str("Divide by zero"),
            Error::IntegerOverflow => String::from_str("Integer Overflow"),
            Error::TypeMismatch => String::from_str("Type mismatch"),
            Error::StackUnderflow => String::from_str("Stack underflow"),
            Error::UnexpectedEndOfBlock => String::from_str("Unexpected end of block"),
            Error::ExpectedEnd => String::from_str("Expected End"),
            Error::TooManyReturns => String::from_str("Too many returns"),
            Error::NoFunctionInStack => String::from_str("No function in stack"),
            Error::NoBlockInStack => String::from_str("No block in stack"),
            Error::StackOverflow => String::from_str("Stack overflow"),
            Error::BranchLeak => String::from_str("br leaking out"),
            Error::ReturnOutsideFunc => String::from_str("return is allowed only in func"),
            Error::MissingBody => String::from_str("Missing body"),
            Error::ExecutionLimit => String::from_str("Execution limit reached"),
            Error::UnsupportedExport => String::from_str("Unsupported export"),
            Error::UnsupportedFunctionKind => String::from_str("Unsupported function kind"),
            Error::UnsupportedTypeIndex => String::from_str("Unsupported type index"),
            Error::UnsupportedValueType => String::from_str("Unsupported value type"),
            Error::UnsupportedInstruction => String::from_str("Unsupported instruction"),
            Error::IndexOutOfBounds(i) => {
                let mut s = String::from_str("Index out of bounds: ");
                push_u64(&mut s, *i as u64);
                s
            },
            Error::KeyNotFound(k) => {
                let mut s = String::from_str("Key not found: ");
                push_str(&mut s, k);
                s
            },
            Error::KeyExists(k) => {
                let mut s = String::from_str("Key already exists: ");
                push_str(&mut s, k);
                s
            },
        }
    }
}

} // verus!
