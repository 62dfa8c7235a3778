//! Compiles a readable, S-expression description of a regular expression,
//! such as `(seq bol (1+ digit) eol)`, into the syntax of a regex dialect.

pub mod expr;
pub mod output;
pub mod parser;

use crate::output::{Output, OutputError, output_error_text};
use crate::parser::{parse, spec_parse};
use vstd::prelude::*;

verus! {

/// Why a conversion failed.
#[derive(Debug, Clone, Copy, PartialEq, Eq)]
pub enum Error {
    /// The input is not a description that the grammar accepts.
    ParseFailed,
    /// The format cannot express a construct of the expression.
    Output(OutputError),
}

/// The text that describes an error.
pub open spec fn error_text(e: Error) -> Seq<char> {
    match e {
        Error::ParseFailed => "Failed to parse input"@,
        Error::Output(x) => output_error_text(x),
    }
}

impl Error {
    /// The text that describes the error.
    pub fn message(&self) -> (r: String)
        ensures
            r@ == error_text(*self),
    {
        match self {
            Error::ParseFailed => String::from_str("Failed to parse input"),
            Error::Output(x) => x.message(),
        }
    }
}

/// A conversion result with the text taken as its character sequence.
pub open spec fn converted(r: Result<String, Error>) -> Result<Seq<char>, Error> {
    match r {
        Ok(s) => Ok(s@),
        Err(e) => Err(e),
    }
}

/// What converting a description with a format yields: the parse failure,
/// or the format's rendering of the parsed expression.
pub open spec fn spec_convert<O: Output>(input: Seq<char>, output: &O) -> Result<Seq<char>, Error> {
    match spec_parse(input) {
        None => Err(Error::ParseFailed),
        Some(e) => match output.rendering(e) {
            Ok(t) => Ok(t),
            Err(x) => Err(Error::Output(x)),
        },
    }
}

/// Parses a description and renders it with the given format.
pub fn convert<O: Output>(input: &str, output: &O) -> (r: Result<String, Error>)
    ensures
        converted(r) == spec_convert(input@, output),
{
    match parse(input) {
        Ok(expr) => match output.output(&expr) {
            Ok(t) => Ok(t),
            Err(x) => Err(Error::Output(x)),
        },
        Err(_) => Err(Error::ParseFailed),
    }
}

} // verus!
