//! Errors of the attribute grammars.
use vstd::prelude::*;

verus! {

/// Where an error was found: at a token, or at the end of a group's contents,
/// or at the end of the whole input.
#[derive(Clone, Copy, Debug, PartialEq, Eq, Structural)]
pub enum Place {
    Token(usize),
    EndOfGroup(usize),
    EndOfInput,
}

/// What was expected where an error was found.
#[derive(Clone, Copy, Debug, PartialEq, Eq, Structural)]
pub enum ErrorKind {
    /// A string literal was expected.
    ExpectedStrLit,
    /// A comma was expected.
    ExpectedComma,
    /// A group in curly braces was expected.
    ExpectedBraces,
    /// A group in parentheses was expected.
    ExpectedParens,
    /// A token was left over that nothing reads.
    UnexpectedToken,
}

/// An error of an attribute grammar.
#[derive(Clone, Copy, Debug, PartialEq, Eq, Structural)]
pub struct ParseError {
    pub kind: ErrorKind,
    pub place: Place,
}

} // verus!
