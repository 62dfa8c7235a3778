use vstd::prelude::*;

verus! {

/// A regular expression. The top-level type.
#[derive(Debug)]
pub enum Expr {
    /// Just this expression
    Atom(Atom),
    /// Zero-width assertion, e.g. line end
    Assertion(Assertion),
    /// All expressions in sequence
    Sequence(Vec<Expr>),
    /// Any single one of the expressions
    Or(Vec<Expr>),
    /// Zero or one
    ZeroOrOne(Vec<Expr>),
    /// 0+, greedy
    ZeroOrMore(Vec<Expr>),
    /// 0+, non-greedy
    ZeroOrMoreReluctant(Vec<Expr>),
    /// 1+, greedy
    OneOrMore(Vec<Expr>),
    /// 1+, non-greedy
    OneOrMoreReluctant(Vec<Expr>),
    /// Match exactly N times
    Exactly(u32, Vec<Expr>),
    /// Match at least N times
    AtLeast(u32, Vec<Expr>),
    /// Match between N and M times
    Between(u32, u32, Vec<Expr>),
    /// Not the atom
    Not(Atom),
    /// Any character from the sets
    Any(Vec<Atom>),
    /// A capture group
    Group(Vec<Expr>),
    /// A capture group numbered N
    GroupN(u32, Vec<Expr>),
    /// The text captured in group N
    BackRef(String),
}

/// A single static element
#[derive(Debug)]
pub enum Atom {
    /// A single character
    Char(char),
    /// A literal string, escapes kept as written
    String(String),
    /// A character class
    CharClass(CharClass),
}

/// Zero-width assertion, e.g. line end
#[derive(Debug, Clone, Copy, PartialEq, Eq, Structural)]
pub enum Assertion {
    /// Start of a line or input
    LineStart,
    /// End of a line or input
    LineEnd,
    /// Beginning or end of a word
    WordBoundary,
    /// Not the beginning or end of a word
    NotWordBoundary,
}

/// A character class
#[derive(Debug, Clone, Copy, PartialEq, Eq, Structural)]
pub enum CharClass {
    /// Any whitespace character
    Whitespace,
    /// Any alphabetic letter
    Alpha,
    /// Any decimal digit
    Digit,
    /// Any alphabetic letter or decimal digit
    AlphaNum,
    /// A hexadecimal digit, 0-9, a-f, A-F
    Hex,
    /// A lowercase alphabetic letter
    LowerCase,
    /// A uppercase alphabetic letter
    UpperCase,
    /// A "word" character
    Word,
}

/// The mathematical value of an [`Atom`].
pub enum SpecAtom {
    Char(char),
    Str(Seq<char>),
    Class(CharClass),
}

/// The mathematical value of an [`Expr`]: the same tree, with sequences in
/// place of vectors and of strings.
pub enum SpecExpr {
    Atom(SpecAtom),
    Assertion(Assertion),
    Sequence(Seq<SpecExpr>),
    Or(Seq<SpecExpr>),
    ZeroOrOne(Seq<SpecExpr>),
    ZeroOrMore(Seq<SpecExpr>),
    ZeroOrMoreReluctant(Seq<SpecExpr>),
    OneOrMore(Seq<SpecExpr>),
    OneOrMoreReluctant(Seq<SpecExpr>),
    Exactly(u32, Seq<SpecExpr>),
    AtLeast(u32, Seq<SpecExpr>),
    Between(u32, u32, Seq<SpecExpr>),
    Not(SpecAtom),
    Any(Seq<SpecAtom>),
    Group(Seq<SpecExpr>),
    GroupN(u32, Seq<SpecExpr>),
    BackRef(Seq<char>),
}

impl View for Atom {
    type V = SpecAtom;

    open spec fn view(&self) -> SpecAtom {
        match self {
            Atom::Char(c) => SpecAtom::Char(*c),
            Atom::String(s) => SpecAtom::Str(s@),
            Atom::CharClass(c) => SpecAtom::Class(*c),
        }
    }
}

/// The values of a vector of atoms.
pub open spec fn atoms_view(v: Seq<Atom>) -> Seq<SpecAtom> {
    Seq::new(v.len(), |i: int| v[i]@)
}

impl View for Expr {
    type V = SpecExpr;

    open spec fn view(&self) -> SpecExpr
        decreases self,
    {
        match self {
            Expr::Atom(a) => SpecExpr::Atom(a@),
            Expr::Assertion(a) => SpecExpr::Assertion(*a),
            Expr::Sequence(v) => SpecExpr::Sequence(exprs_view(v)),
            Expr::Or(v) => SpecExpr::Or(exprs_view(v)),
            Expr::ZeroOrOne(v) => SpecExpr::ZeroOrOne(exprs_view(v)),
            Expr::ZeroOrMore(v) => SpecExpr::ZeroOrMore(exprs_view(v)),
            Expr::ZeroOrMoreReluctant(v) => SpecExpr::ZeroOrMoreReluctant(exprs_view(v)),
            Expr::OneOrMore(v) => SpecExpr::OneOrMore(exprs_view(v)),
            Expr::OneOrMoreReluctant(v) => SpecExpr::OneOrMoreReluctant(exprs_view(v)),
            Expr::Exactly(n, v) => SpecExpr::Exactly(*n, exprs_view(v)),
            Expr::AtLeast(n, v) => SpecExpr::AtLeast(*n, exprs_view(v)),
            Expr::Between(n, m, v) => SpecExpr::Between(*n, *m, exprs_view(v)),
            Expr::Not(a) => SpecExpr::Not(a@),
            Expr::Any(v) => SpecExpr::Any(atoms_view(v@)),
            Expr::Group(v) => SpecExpr::Group(exprs_view(v)),
            Expr::GroupN(n, v) => SpecExpr::GroupN(*n, exprs_view(v)),
            Expr::BackRef(r) => SpecExpr::BackRef(r@),
        }
    }
}

/// The values of a vector of expressions.
pub open spec fn exprs_view(v: &Vec<Expr>) -> Seq<SpecExpr>
    decreases v,
{
    Seq::new(
        v.len() as nat,
        |i: int|
            if 0 <= i < v.len() {
                v[i]@
            } else {
                SpecExpr::Sequence(Seq::empty())
            },
    )
}

} // verus!
