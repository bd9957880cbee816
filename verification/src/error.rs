use vstd::prelude::*;

verus! {

/// Why a declaration or a parse was rejected.
///
/// Every error ends the call that met it: nothing is retried, and no partial
/// result is handed out.
#[derive(Clone, Copy, Debug, PartialEq, Eq, Hash, Structural)]
pub enum ArgError {
    /// An option name is empty, starts with `-`, or holds `=`.
    InvalidName,
    /// A schema declares a type other than `"usize"` or `"string"`.
    UnrecognizedType,
    /// A token names an option that the schema does not hold.
    UnknownOption,
    /// A raw value cannot be read as a value of the declared type.
    TypeCoercion,
    /// A token is a bare `=`, or holds more than one `=`.
    MalformedEmbeddedArgument,
    /// A token is empty.
    InvalidToken,
}

} // verus!
