use crate::expr::{Expr, SpecExpr};
use crate::output::regex::{Dialect, render, render_expr};
use crate::output::{Output, OutputError};
use vstd::prelude::*;

verus! {

/// Perl-compatible regular expressions, second version.
#[derive(Debug, Clone, Copy, Default)]
pub struct PCRE2Output {}

impl Output for PCRE2Output {
    open spec fn rendering(&self, e: SpecExpr) -> Result<Seq<char>, OutputError> {
        render(e, Dialect::Pcre2)
    }

    fn output(&self, expr: &Expr) -> (r: Result<String, OutputError>) {
        render_expr(expr, Dialect::Pcre2)
    }
}

} // verus!
