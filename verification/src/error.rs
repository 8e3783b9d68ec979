//! Construction-time failures.
use vstd::prelude::*;

verus! {

/// Why a graph-construction call was refused. Every failure is detected
/// while tracing, before any device work.
#[derive(Clone, Copy, PartialEq, Eq, Structural, Debug)]
pub enum Error {
    /// The operand types do not fit the operation.
    TypeMismatch,
    /// A component index is not below the arity of the receiver.
    IndexOutOfRange,
    /// A handle names a node that the current builder does not hold.
    UnknownNode,
    /// A type descriptor is malformed, or names a type that is not interned.
    InvalidType,
    /// The type is already registered under this key.
    DuplicateRegistration,
    /// Dispatch over a key under which nothing is registered.
    EmptyDispatch,
    /// The body of a dynamic callable does not handle an argument type.
    UnhandledArgument,
}

/// The text that describes a failure.
pub open spec fn message_of(e: Error) -> Seq<char> {
    match e {
        Error::TypeMismatch => "operand types do not fit the operation"@,
        Error::IndexOutOfRange => "component index is not below the arity"@,
        Error::UnknownNode => "node does not belong to the current builder"@,
        Error::InvalidType => "malformed type descriptor"@,
        Error::DuplicateRegistration => "type already registered under this key"@,
        Error::EmptyDispatch => "nothing registered under this key"@,
        Error::UnhandledArgument => "callable body does not handle this argument type"@,
    }
}

impl Error {
    /// A short description of the failure.
    pub fn message(&self) -> (text: &'static str)
        ensures
            text@ == message_of(*self),
    {
        match self {
            Error::TypeMismatch => "operand types do not fit the operation",
            Error::IndexOutOfRange => "component index is not below the arity",
            Error::UnknownNode => "node does not belong to the current builder",
            Error::InvalidType => "malformed type descriptor",
            Error::DuplicateRegistration => "type already registered under this key",
            Error::EmptyDispatch => "nothing registered under this key",
            Error::UnhandledArgument => "callable body does not handle this argument type",
        }
    }
}

} // verus!
