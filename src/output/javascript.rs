use crate::expr::{Expr, SpecExpr};
use crate::output::regex::{Dialect, render, render_expr};
use crate::output::{Output, OutputError};
use vstd::prelude::*;

verus! {

/// JavaScript regular expressions.
#[derive(Debug, Clone, Copy, Default)]
pub struct JavascriptOutput {}

impl Output for JavascriptOutput {
    open spec fn rendering(&self, e: SpecExpr) -> Result<Seq<char>, OutputError> {
        render(e, Dialect::JavaScript)
    }

    fn output(&self, expr: &Expr) -> (r: Result<String, OutputError>) {
        render_expr(expr, Dialect::JavaScript)
    }
}

/// The JavaScript format refuses every numbered group, and every
/// backreference whose text holds a character that is not a decimal digit:
/// it fails with `FeatureNotSupported` and gives no text.
pub proof fn law_javascript_rejects(n: u32, es: Seq<SpecExpr>, r: Seq<char>)
    ensures
        (JavascriptOutput {}).rendering(SpecExpr::GroupN(n, es)) == Err::<Seq<char>, OutputError>(
            OutputError::FeatureNotSupported("named capture groups"),
        ),
        (exists|i: int| 0 <= i < r.len() && !('0' <= #[trigger] r[i] <= '9')) ==> (JavascriptOutput {
        }).rendering(SpecExpr::BackRef(r)) == Err::<Seq<char>, OutputError>(
            OutputError::FeatureNotSupported("non-numerical backrefs"),
        ),
{
}

} // verus!
