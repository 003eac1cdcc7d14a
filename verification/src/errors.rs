//! Error taxonomy: parsing, token encoding, and configuration compilation.

use vstd::prelude::*;

verus! {

/// Error from parsing an argument-list source string.
#[derive(Clone, Copy, Debug, PartialEq, Eq, Structural)]
pub enum ParseError {
    /// The source opened a double-quoted segment and never closed it.
    UnterminatedQuote,
}

/// Error from appending a token that the textual argument syntax cannot
/// carry.
#[derive(Clone, Copy, Debug, PartialEq, Eq, Structural)]
pub enum EncodingError {
    /// The token contains the double-quote character itself; the syntax has
    /// no escape sequences, so such a token cannot be represented.
    EmbeddedQuote,
}

/// Error raised while compiling a configuration type into an argument list.
#[derive(Clone, Copy, Debug, PartialEq, Eq, Structural)]
pub enum ConfigurationError {
    /// The selected input band is zero or negative; bands are 1-indexed.
    InvalidBand,
    /// The selected algorithm is not legal under the active feature matrix.
    UnsupportedAlgorithm,
    /// A configuration field's text cannot be carried by the argument
    /// syntax.
    Encoding(EncodingError),
}

} // verus!
