//! Error types for guess construction and parsing.

use vstd::prelude::*;

verus! {

/// Returned when the provided integer lies outside the range 0 to 100.
/// Usually returned by `Guess::new` when an invalid input is provided.
#[derive(Debug, Clone)]
pub struct GuessRangeError;

impl GuessRangeError {
    /// A human-readable description of the failure.
    pub fn message(&self) -> (r: String)
        ensures
            r@ == "The guess value was out of 0-100 range"@,
    {
        "The guess value was out of 0-100 range".to_owned()
    }
}

/// Returned by `Guess::parse`. The two failure sources stay distinguishable:
/// a string that is not an integer literal at all is a `Lexical` error, while
/// an integer outside the range 0 to 100 wraps the underlying range error.
#[derive(Debug, Clone)]
pub enum GuessParseError {
    /// The input did not parse as a machine integer.
    Lexical,
    /// The input parsed as an integer, but the integer was out of range.
    Range(GuessRangeError),
}

impl GuessParseError {
    /// A human-readable description of the failure.
    pub fn message(&self) -> (r: String)
        ensures
            self is Lexical ==> r@ == "The input could not be parsed as an integer"@,
            self is Range ==> r@ == "The guess value was out of 0-100 range"@,
    {
        match self {
            GuessParseError::Lexical => "The input could not be parsed as an integer".to_owned(),
            GuessParseError::Range(e) => e.message(),
        }
    }
}

} // verus!
