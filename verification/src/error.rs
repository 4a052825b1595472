//! Error values reported by the lexer, the directive parser and the scene
//! builder. Any error aborts the whole load: no partial scene is ever
//! returned.
use vstd::prelude::*;

verus! {

/// Every way a load can fail.
///
/// `EndOfFile` is special: it is the sentinel by which the scene builder
/// detects that one file's token stream is exhausted, so for every file but
/// the outermost it is caught and turned into "resume the outer file".
#[derive(Debug, Clone, Copy, PartialEq, Eq, Structural)]
pub enum Error {
    /// No more tokens in the current buffer.
    EndOfFile,
    /// A directive required one more token, but the stream ended.
    NoToken,
    /// A token failed the well-formedness checks.
    InvalidToken,
    /// A token could not be read as a decimal floating-point number.
    ParseFloat,
    /// A token could not be read as a decimal integer.
    ParseInt,
    /// A token could not be read as a boolean literal.
    ParseBool,
    /// The leading keyword of a directive is not in the vocabulary.
    UnknownDirective,
    /// A quoted string was required and the token is not one.
    InvalidString,
    /// A bracketed value list was malformed.
    InvalidOptionValue,
    /// A token appeared where another kind of token was required.
    UnexpectedToken,
    /// A named coordinate system was referenced but never recorded.
    UnknownCoordinateSystem,
    /// A parameter header did not hold both a type keyword and a name.
    InvalidParamName,
    /// A parameter type keyword is not in the fixed vocabulary.
    InvalidParamType,
    /// Two parameters in one directive's list share a name.
    DuplicatedParamName,
    /// A scope end had no matching scope begin.
    TooManyEndAttributes,
    /// The directive is recognized but outside this loader's scope
    /// (Import, compressed files, animated transforms, object instancing).
    Unsupported,
}

} // verus!
