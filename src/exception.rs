//! Errors of the call bridge, and the option type handed across the host boundary.
use crate::value::ValueType;
use vstd::prelude::*;

verus! {

/// Failure of an import or call-bridge operation.
#[derive(Debug, PartialEq, Eq)]
pub enum Error {
    /// A failure described by a message.
    Message(String),
    /// A value type tag outside `1..=4`.
    UnknownValueType(i32),
    /// A page count that does not fit in an unsigned 32-bit integer.
    PageCountOutOfRange(i32),
    /// A value whose type differs from the one declared at its position.
    TypeMismatch { position: usize, expected: ValueType, found: ValueType },
    /// A number of values that differs from the number declared.
    ArityMismatch { declared: usize, actual: usize },
}

/// Creates an error from a message.
pub fn runtime_error(message: String) -> (r: Error)
    ensures
        r == Error::Message(message),
{
    Error::Message(message)
}

/// An optional result handed back across the host boundary.
#[derive(Debug, PartialEq, Eq)]
pub enum JOption<T> {
    Present(T),
    Absent,
}

impl<T> JOption<T> {
    /// The held value, or `default` where there is none.
    pub fn unwrap_or(self, default: T) -> (r: T)
        ensures
            self matches JOption::Present(v) ==> r == v,
            self is Absent ==> r == default,
    {
        match self {
            JOption::Present(result) => result,
            JOption::Absent => default,
        }
    }
}

} // verus!
