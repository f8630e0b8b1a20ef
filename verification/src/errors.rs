use vstd::prelude::*;

verus! {

/// Typed, terminal failures of a resolution call.
#[derive(Clone, PartialEq, Eq, Debug)]
pub enum ResolveError {
    /// The first selection of the operation is not a plain field.
    InvalidOperation,
    /// The path is empty, a segment names no key of the current object,
    /// or a segment was required but none was left.
    InvalidPath,
    /// The first path segment matches no top-level argument name.
    InvalidValue,
    /// Converting the chosen argument's raw value failed; carries the
    /// converter's message.
    InvalidValueConversion(String),
}

} // verus!
