use crate::expr::{Expr, SpecExpr};
use vstd::prelude::*;

pub mod debug;
pub mod javascript;
pub mod pcre;
pub mod pcre2;
pub mod regex;

verus! {

/// A target format: turns an expression into text, or refuses a construct
/// that the format cannot express.
pub trait Output {
    /// What [`Output::output`] yields for an expression with this value.
    spec fn rendering(&self, e: SpecExpr) -> Result<Seq<char>, OutputError>;

    fn output(&self, expr: &Expr) -> (r: Result<String, OutputError>)
        ensures
            text_of(r) == self.rendering(expr@),
    ;
}

/// Why a format could not render an expression.
#[derive(Debug, Clone, Copy, PartialEq, Eq)]
pub enum OutputError {
    /// The format has no way to express this feature, named here.
    FeatureNotSupported(&'static str),
}

/// The text that describes a rendering error.
pub open spec fn output_error_text(e: OutputError) -> Seq<char> {
    match e {
        OutputError::FeatureNotSupported(feature) => "feature is not supported by output format: "@
            + feature@,
    }
}

impl OutputError {
    /// The text that describes the error.
    pub fn message(&self) -> (r: String)
        ensures
            r@ == output_error_text(*self),
    {
        match self {
            OutputError::FeatureNotSupported(feature) => {
                let mut s = String::from_str("feature is not supported by output format: ");
                s.append(feature);
                s
            },
        }
    }
}

/// A rendering result with the text taken as its character sequence.
pub open spec fn text_of(r: Result<String, OutputError>) -> Result<Seq<char>, OutputError> {
    match r {
        Ok(s) => Ok(s@),
        Err(e) => Err(e),
    }
}

/// Relies on String::push: the character is appended at the end.
#[verifier::external_body]
pub(crate) fn push_char(s: &mut String, c: char)
    ensures
        final(s)@ == old(s)@.push(c),
{
    s.push(c);
}

/// Rendering holds no state: two renderings of one expression by one format
/// give the same text, or the same error.
pub proof fn law_render_repeatable<O: Output>(
    output: &O,
    expr: &Expr,
    first: Result<String, OutputError>,
    second: Result<String, OutputError>,
)
    requires
        text_of(first) == output.rendering(expr@),
        text_of(second) == output.rendering(expr@),
    ensures
        text_of(first) == text_of(second),
        first is Ok <==> second is Ok,
        first matches Ok(a) ==> second matches Ok(b) && a@ == b@,
{
}

} // verus!
