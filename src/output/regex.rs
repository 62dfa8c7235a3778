use crate::expr::{Assertion, Atom, CharClass, Expr, SpecAtom, SpecExpr, atoms_view, exprs_view};
use crate::output::{OutputError, push_char, text_of};
use vstd::prelude::*;

verus! {

/// The regular-expression dialects that share one syntax.
#[derive(Debug, Clone, Copy, PartialEq, Eq, Structural)]
pub enum Dialect {
    /// Perl-compatible: numbered and named groups, numeric and named backreferences.
    Pcre,
    /// Its second version, which renders everything as the first does.
    Pcre2,
    /// JavaScript: no named groups and no named backreferences.
    JavaScript,
}

/// The interior of a character class, as it stands inside brackets.
pub open spec fn class_text(c: CharClass) -> Seq<char> {
    match c {
        CharClass::Whitespace => "\\s"@,
        CharClass::Alpha => "a-zA-Z"@,
        CharClass::Digit => "\\d"@,
        CharClass::AlphaNum => "0-9a-zA-Z"@,
        CharClass::Hex => "0-9a-fA-F"@,
        CharClass::LowerCase => "a-z"@,
        CharClass::UpperCase => "A-Z"@,
        CharClass::Word => "\\w"@,
    }
}

pub open spec fn assertion_text(a: Assertion) -> Seq<char> {
    match a {
        Assertion::LineStart => "^"@,
        Assertion::LineEnd => "$"@,
        Assertion::WordBoundary => "\\b"@,
        Assertion::NotWordBoundary => "\\B"@,
    }
}

/// An atom standing on its own: a class gets its own brackets.
pub open spec fn atom_text(a: SpecAtom) -> Seq<char> {
    match a {
        SpecAtom::Char(c) => seq![c],
        SpecAtom::Str(s) => s,
        SpecAtom::Class(c) => "["@ + class_text(c) + "]"@,
    }
}

/// An atom inside a set: a class gives only its interior.
pub open spec fn member_text(a: SpecAtom) -> Seq<char> {
    match a {
        SpecAtom::Class(c) => class_text(c),
        _ => atom_text(a),
    }
}

/// The members of a set, one after the other.
pub open spec fn members_text(atoms: Seq<SpecAtom>) -> Seq<char>
    decreases atoms.len(),
{
    if atoms.len() == 0 {
        Seq::empty()
    } else {
        members_text(atoms.drop_last()) + member_text(atoms.last())
    }
}

pub open spec fn digit_char(d: nat) -> char {
    "0123456789"@[d as int]
}

/// The decimal digits of `n`, without leading zeros.
pub open spec fn decimal(n: nat) -> Seq<char>
    decreases n,
{
    if n < 10 {
        seq![digit_char(n)]
    } else {
        decimal(n / 10).push(digit_char(n % 10))
    }
}

/// Whether every character of `s` is a decimal digit.
pub open spec fn all_digits(s: Seq<char>) -> bool {
    forall|i: int| 0 <= i < s.len() ==> '0' <= #[trigger] s[i] <= '9'
}

/// Whether the expression is a single atom or assertion, which a suffix
/// can follow directly.
pub open spec fn is_unit(e: SpecExpr) -> bool {
    e is Atom || e is Assertion
}

/// The text of one operand of a sequence: a composite operand is put in a
/// non-capturing group, so that it cannot merge with its neighbours.
pub open spec fn unit_text(e: SpecExpr, t: Seq<char>) -> Seq<char> {
    if is_unit(e) {
        t
    } else {
        "(?:"@ + t + ")"@
    }
}

/// `pre`, the text, `post`; or the error.
pub open spec fn enclose(
    r: Result<Seq<char>, OutputError>,
    pre: Seq<char>,
    post: Seq<char>,
) -> Result<Seq<char>, OutputError> {
    match r {
        Ok(t) => Ok(pre + t + post),
        Err(x) => Err(x),
    }
}

/// A quantifier over operands whose concatenation renders as `body`: a
/// single atom or assertion takes the suffix as it is, anything else is
/// grouped first.
pub open spec fn quantified(
    es: Seq<SpecExpr>,
    body: Result<Seq<char>, OutputError>,
    suffix: Seq<char>,
) -> Result<Seq<char>, OutputError> {
    if es.len() == 1 && is_unit(es[0]) {
        enclose(body, Seq::empty(), suffix)
    } else {
        enclose(body, "(?:"@, ")"@ + suffix)
    }
}

/// The error that the JavaScript dialect gives for a numbered group.
pub open spec fn named_group_error() -> OutputError {
    OutputError::FeatureNotSupported("named capture groups")
}

/// The error that the JavaScript dialect gives for a named backreference.
pub open spec fn named_backref_error() -> OutputError {
    OutputError::FeatureNotSupported("non-numerical backrefs")
}

/// The text of an expression in a dialect, or the feature that the dialect
/// lacks (the first one met, left to right).
pub open spec fn render(e: SpecExpr, d: Dialect) -> Result<Seq<char>, OutputError>
    decreases e,
{
    match e {
        SpecExpr::Atom(a) => Ok(atom_text(a)),
        SpecExpr::Assertion(a) => Ok(assertion_text(a)),
        SpecExpr::Sequence(es) => units(es, d),
        SpecExpr::Or(es) => alternatives(es, d),
        SpecExpr::ZeroOrOne(es) => quantified(es, concat(es, d), "?"@),
        SpecExpr::ZeroOrMore(es) => quantified(es, concat(es, d), "*"@),
        SpecExpr::ZeroOrMoreReluctant(es) => quantified(es, concat(es, d), "*?"@),
        SpecExpr::OneOrMore(es) => quantified(es, concat(es, d), "+"@),
        SpecExpr::OneOrMoreReluctant(es) => quantified(es, concat(es, d), "+?"@),
        SpecExpr::Exactly(n, es) => enclose(
            concat(es, d),
            "(?:"@,
            "){"@ + decimal(n as nat) + "}"@,
        ),
        SpecExpr::AtLeast(n, es) => enclose(
            concat(es, d),
            "(?:"@,
            "){"@ + decimal(n as nat) + ",}"@,
        ),
        SpecExpr::Between(n, m, es) => enclose(
            concat(es, d),
            "(?:"@,
            "){"@ + decimal(n as nat) + ","@ + decimal(m as nat) + "}"@,
        ),
        SpecExpr::Not(a) => Ok("[^"@ + member_text(a) + "]"@),
        SpecExpr::Any(atoms) => Ok("["@ + members_text(atoms) + "]"@),
        SpecExpr::Group(es) => enclose(concat(es, d), "("@, ")"@),
        SpecExpr::GroupN(n, es) => if d is JavaScript {
            Err(named_group_error())
        } else {
            enclose(concat(es, d), "(?<n"@ + decimal(n as nat) + ">"@, ")"@)
        },
        SpecExpr::BackRef(r) => if all_digits(r) {
            Ok("\\"@ + r)
        } else if d is JavaScript {
            Err(named_backref_error())
        } else {
            Ok("\\k<"@ + r + ">"@)
        },
    }
}

/// The concatenation of the operands, each as [`unit_text`] gives it.
pub open spec fn units(es: Seq<SpecExpr>, d: Dialect) -> Result<Seq<char>, OutputError>
    decreases es,
{
    if es.len() == 0 {
        Ok(Seq::empty())
    } else {
        proof {
            broadcast use vstd::seq::axiom_seq_index_decreases, vstd::seq::axiom_seq_subrange_decreases;
        }
        let last = es.last();
        match units(es.drop_last(), d) {
            Err(x) => Err(x),
            Ok(t) => match render(last, d) {
                Err(x) => Err(x),
                Ok(u) => Ok(t + unit_text(last, u)),
            },
        }
    }
}

/// The renderings of the operands one after the other, with nothing added.
pub open spec fn concat(es: Seq<SpecExpr>, d: Dialect) -> Result<Seq<char>, OutputError>
    decreases es,
{
    if es.len() == 0 {
        Ok(Seq::empty())
    } else {
        proof {
            broadcast use vstd::seq::axiom_seq_index_decreases, vstd::seq::axiom_seq_subrange_decreases;
        }
        match concat(es.drop_last(), d) {
            Err(x) => Err(x),
            Ok(t) => match render(es.last(), d) {
                Err(x) => Err(x),
                Ok(u) => Ok(t + u),
            },
        }
    }
}

/// The operands joined by `|`.
pub open spec fn alternatives(es: Seq<SpecExpr>, d: Dialect) -> Result<Seq<char>, OutputError>
    decreases es,
{
    proof {
        broadcast use vstd::seq::axiom_seq_index_decreases, vstd::seq::axiom_seq_subrange_decreases;
    }
    if es.len() == 0 {
        Ok(Seq::empty())
    } else if es.len() == 1 {
        render(es[0], d)
    } else {
        match alternatives(es.drop_last(), d) {
            Err(x) => Err(x),
            Ok(t) => match render(es.last(), d) {
                Err(x) => Err(x),
                Ok(u) => Ok(t + "|"@ + u),
            },
        }
    }
}

/// The interior of a character class.
pub fn class_interior(c: CharClass) -> (r: &'static str)
    ensures
        r@ == class_text(c),
{
    match c {
        CharClass::Whitespace => "\\s",
        CharClass::Alpha => "a-zA-Z",
        CharClass::Digit => "\\d",
        CharClass::AlphaNum => "0-9a-zA-Z",
        CharClass::Hex => "0-9a-fA-F",
        CharClass::LowerCase => "a-z",
        CharClass::UpperCase => "A-Z",
        CharClass::Word => "\\w",
    }
}

/// The text of a zero-width assertion.
pub fn assertion_str(a: Assertion) -> (r: &'static str)
    ensures
        r@ == assertion_text(a),
{
    match a {
        Assertion::LineStart => "^",
        Assertion::LineEnd => "$",
        Assertion::WordBoundary => "\\b",
        Assertion::NotWordBoundary => "\\B",
    }
}

/// Appends an atom standing on its own.
pub fn write_atom(out: &mut String, a: &Atom)
    ensures
        final(out)@ == old(out)@ + atom_text(a@),
{
    match a {
        Atom::Char(c) => {
            push_char(out, *c);
            assert(final(out)@ =~= old(out)@ + atom_text(a@));
        },
        Atom::String(s) => out.append(s.as_str()),
        Atom::CharClass(c) => {
            out.append("[");
            out.append(class_interior(*c));
            out.append("]");
            assert(final(out)@ =~= old(out)@ + atom_text(a@));
        },
    }
}

/// Appends an atom as a member of a set.
pub fn write_member(out: &mut String, a: &Atom)
    ensures
        final(out)@ == old(out)@ + member_text(a@),
{
    match a {
        Atom::CharClass(c) => out.append(class_interior(*c)),
        _ => write_atom(out, a),
    }
}

/// Appends the members of a set.
pub fn write_members(out: &mut String, atoms: &Vec<Atom>)
    ensures
        final(out)@ == old(out)@ + members_text(atoms_view(atoms@)),
{
    let ghost start = out@;
    let ghost all = atoms_view(atoms@);
    let mut k: usize = 0;
    while k < atoms.len()
        invariant
            k <= atoms.len(),
            all == atoms_view(atoms@),
            out@ == start + members_text(all.take(k as int)),
        decreases atoms.len() - k,
    {
        assert(all.take(k + 1).drop_last() =~= all.take(k as int));
        write_member(out, &atoms[k]);
        k += 1;
        assert(out@ =~= start + members_text(all.take(k as int)));
    }
    assert(all.take(k as int) =~= all);
}

/// Appends the decimal digits of `n`.
pub fn write_decimal(out: &mut String, n: u32)
    ensures
        final(out)@ == old(out)@ + decimal(n as nat),
    decreases n,
{
    proof {
        reveal_strlit("0123456789");
    }
    if n >= 10 {
        write_decimal(out, n / 10);
    }
    push_char(out, "0123456789".get_char((n % 10) as usize));
    assert(final(out)@ =~= old(out)@ + decimal(n as nat));
}

/// Whether every character of `s` is a decimal digit.
pub fn is_all_digits(s: &str) -> (r: bool)
    ensures
        r == all_digits(s@),
{
    let n = s.unicode_len();
    let mut k: usize = 0;
    while k < n
        invariant
            n == s@.len(),
            k <= n,
            forall|i: int| 0 <= i < k ==> '0' <= #[trigger] s@[i] <= '9',
        decreases n - k,
    {
        let c = s.get_char(k);
        if !('0' <= c && c <= '9') {
            return false;
        }
        k += 1;
    }
    true
}

/// Appends `pre`, the text, `post`; or hands on the error.
pub fn enclose_text(body: Result<String, OutputError>, pre: &str, post: &str) -> (r: Result<
    String,
    OutputError,
>)
    ensures
        text_of(r) == enclose(text_of(body), pre@, post@),
{
    match body {
        Ok(t) => {
            let mut s = String::from_str(pre);
            s.append(t.as_str());
            s.append(post);
            Ok(s)
        },
        Err(x) => Err(x),
    }
}

/// Once a prefix of a sequence fails, the whole fails the same way.
proof fn lemma_units_err(es: Seq<SpecExpr>, k: int, d: Dialect)
    requires
        0 <= k <= es.len(),
        units(es.take(k), d) is Err,
    ensures
        units(es, d) == units(es.take(k), d),
    decreases es.len(),
{
    if k == es.len() {
        assert(es.take(k) =~= es);
    } else {
        assert(es.drop_last().take(k) =~= es.take(k));
        lemma_units_err(es.drop_last(), k, d);
    }
}

/// Once a prefix of the operands fails, their concatenation fails the same way.
proof fn lemma_concat_err(es: Seq<SpecExpr>, k: int, d: Dialect)
    requires
        0 <= k <= es.len(),
        concat(es.take(k), d) is Err,
    ensures
        concat(es, d) == concat(es.take(k), d),
    decreases es.len(),
{
    if k == es.len() {
        assert(es.take(k) =~= es);
    } else {
        assert(es.drop_last().take(k) =~= es.take(k));
        lemma_concat_err(es.drop_last(), k, d);
    }
}

/// Once a prefix of the alternatives fails, the whole fails the same way.
proof fn lemma_alternatives_err(es: Seq<SpecExpr>, k: int, d: Dialect)
    requires
        1 <= k <= es.len(),
        alternatives(es.take(k), d) is Err,
    ensures
        alternatives(es, d) == alternatives(es.take(k), d),
    decreases es.len(),
{
    if k == es.len() {
        assert(es.take(k) =~= es);
    } else {
        assert(es.drop_last().take(k) =~= es.take(k));
        lemma_alternatives_err(es.drop_last(), k, d);
    }
}

/// Renders an expression in a dialect.
pub fn render_expr(e: &Expr, d: Dialect) -> (r: Result<String, OutputError>)
    ensures
        text_of(r) == render(e@, d),
    decreases e, 0nat,
{
    match e {
        Expr::Atom(a) => {
            let mut s = String::new();
            write_atom(&mut s, a);
            assert(s@ =~= atom_text(a@));
            Ok(s)
        },
        Expr::Assertion(a) => Ok(String::from_str(assertion_str(*a))),
        Expr::Sequence(es) => render_units(es, d),
        Expr::Or(es) => render_alternatives(es, d),
        Expr::ZeroOrOne(es) => quantify(render_concat(es, d), es, "?"),
        Expr::ZeroOrMore(es) => quantify(render_concat(es, d), es, "*"),
        Expr::ZeroOrMoreReluctant(es) => quantify(render_concat(es, d), es, "*?"),
        Expr::OneOrMore(es) => quantify(render_concat(es, d), es, "+"),
        Expr::OneOrMoreReluctant(es) => quantify(render_concat(es, d), es, "+?"),
        Expr::Exactly(n, es) => {
            let mut post = String::from_str("){");
            write_decimal(&mut post, *n);
            post.append("}");
            assert(post@ =~= "){"@ + decimal(*n as nat) + "}"@);
            enclose_text(render_concat(es, d), "(?:", post.as_str())
        },
        Expr::AtLeast(n, es) => {
            let mut post = String::from_str("){");
            write_decimal(&mut post, *n);
            post.append(",}");
            assert(post@ =~= "){"@ + decimal(*n as nat) + ",}"@);
            enclose_text(render_concat(es, d), "(?:", post.as_str())
        },
        Expr::Between(n, m, es) => {
            let mut post = String::from_str("){");
            write_decimal(&mut post, *n);
            post.append(",");
            write_decimal(&mut post, *m);
            post.append("}");
            assert(post@ =~= "){"@ + decimal(*n as nat) + ","@ + decimal(*m as nat) + "}"@);
            enclose_text(render_concat(es, d), "(?:", post.as_str())
        },
        Expr::Not(a) => {
            let mut s = String::from_str("[^");
            write_member(&mut s, a);
            s.append("]");
            Ok(s)
        },
        Expr::Any(atoms) => {
            let mut s = String::from_str("[");
            write_members(&mut s, atoms);
            s.append("]");
            Ok(s)
        },
        Expr::Group(es) => enclose_text(render_concat(es, d), "(", ")"),
        Expr::GroupN(n, es) => {
            if d == Dialect::JavaScript {
                Err(OutputError::FeatureNotSupported("named capture groups"))
            } else {
                let mut pre = String::from_str("(?<n");
                write_decimal(&mut pre, *n);
                pre.append(">");
                assert(pre@ =~= "(?<n"@ + decimal(*n as nat) + ">"@);
                enclose_text(render_concat(es, d), pre.as_str(), ")")
            }
        },
        Expr::BackRef(r) => {
            if is_all_digits(r.as_str()) {
                let mut s = String::from_str("\\");
                s.append(r.as_str());
                Ok(s)
            } else if d == Dialect::JavaScript {
                Err(OutputError::FeatureNotSupported("non-numerical backrefs"))
            } else {
                let mut s = String::from_str("\\k<");
                s.append(r.as_str());
                s.append(">");
                Ok(s)
            }
        },
    }
}

/// Puts the quantifier's suffix after the rendered operands.
fn quantify(body: Result<String, OutputError>, es: &Vec<Expr>, suffix: &str) -> (r: Result<
    String,
    OutputError,
>)
    ensures
        text_of(r) == quantified(exprs_view(es), text_of(body), suffix@),
{
    let single = es.len() == 1 && match &es[0] {
        Expr::Atom(_) | Expr::Assertion(_) => true,
        _ => false,
    };
    assert(es.len() == 1 ==> exprs_view(es)[0] == es@[0]@);
    if single {
        proof {
            reveal_strlit("");
        }
        assert(""@ =~= Seq::<char>::empty());
        enclose_text(body, "", suffix)
    } else {
        let mut post = String::from_str(")");
        post.append(suffix);
        enclose_text(body, "(?:", post.as_str())
    }
}

/// Renders operands one after the other, grouping the composite ones.
pub fn render_units(es: &Vec<Expr>, d: Dialect) -> (r: Result<String, OutputError>)
    ensures
        text_of(r) == units(exprs_view(es), d),
    decreases es, 1nat,
{
    let ghost all = exprs_view(es);
    let mut acc = String::new();
    let mut k: usize = 0;
    while k < es.len()
        invariant
            k <= es.len(),
            all == exprs_view(es),
            units(all.take(k as int), d) == Ok::<Seq<char>, OutputError>(acc@),
        decreases es.len() - k,
    {
        let ghost next = all.take(k + 1);
        assert(next.drop_last() =~= all.take(k as int));
        assert(next.last() == es@[k as int]@);
        let e = &es[k];
        let ghost before = acc@;
        match render_expr(e, d) {
            Err(x) => {
                proof {
                    lemma_units_err(all, k + 1, d);
                }
                return Err(x);
            },
            Ok(t) => {
                match e {
                    Expr::Atom(_) | Expr::Assertion(_) => acc.append(t.as_str()),
                    _ => {
                        acc.append("(?:");
                        acc.append(t.as_str());
                        acc.append(")");
                    },
                }
                proof {
                    assert(acc@ =~= before + unit_text(e@, t@));
                }
            },
        }
        k += 1;
    }
    assert(all.take(k as int) =~= all);
    Ok(acc)
}

/// Renders operands one after the other, with nothing added.
pub fn render_concat(es: &Vec<Expr>, d: Dialect) -> (r: Result<String, OutputError>)
    ensures
        text_of(r) == concat(exprs_view(es), d),
    decreases es, 1nat,
{
    let ghost all = exprs_view(es);
    let mut acc = String::new();
    let mut k: usize = 0;
    while k < es.len()
        invariant
            k <= es.len(),
            all == exprs_view(es),
            concat(all.take(k as int), d) == Ok::<Seq<char>, OutputError>(acc@),
        decreases es.len() - k,
    {
        let ghost next = all.take(k + 1);
        assert(next.drop_last() =~= all.take(k as int));
        assert(next.last() == es@[k as int]@);
        match render_expr(&es[k], d) {
            Err(x) => {
                proof {
                    lemma_concat_err(all, k + 1, d);
                }
                return Err(x);
            },
            Ok(t) => acc.append(t.as_str()),
        }
        k += 1;
    }
    assert(all.take(k as int) =~= all);
    Ok(acc)
}

/// Renders the alternatives joined by `|`.
pub fn render_alternatives(es: &Vec<Expr>, d: Dialect) -> (r: Result<String, OutputError>)
    ensures
        text_of(r) == alternatives(exprs_view(es), d),
    decreases es, 1nat,
{
    let ghost all = exprs_view(es);
    if es.len() == 0 {
        return Ok(String::new());
    }
    let mut acc = match render_expr(&es[0], d) {
        Ok(t) => t,
        Err(x) => {
            proof {
                lemma_alternatives_err(all, 1, d);
            }
            return Err(x);
        },
    };
    assert(all.take(1).len() == 1);
    let mut k: usize = 1;
    while k < es.len()
        invariant
            1 <= k <= es.len(),
            all == exprs_view(es),
            alternatives(all.take(k as int), d) == Ok::<Seq<char>, OutputError>(acc@),
        decreases es.len() - k,
    {
        let ghost next = all.take(k + 1);
        assert(next.drop_last() =~= all.take(k as int));
        assert(next.last() == es@[k as int]@);
        let ghost before = acc@;
        match render_expr(&es[k], d) {
            Err(x) => {
                proof {
                    lemma_alternatives_err(all, k + 1, d);
                }
                return Err(x);
            },
            Ok(t) => {
                acc.append("|");
                acc.append(t.as_str());
                assert(acc@ =~= before + "|"@ + t@);
            },
        }
        k += 1;
    }
    assert(all.take(k as int) =~= all);
    Ok(acc)
}

/// An alternation of one operand renders as that operand alone, with no `|`;
/// a greedy or reluctant repetition of a single atom puts its suffix
/// directly after the atom, with no non-capturing group.
pub proof fn law_single_operand(x: SpecExpr, a: SpecAtom, d: Dialect)
    ensures
        render(SpecExpr::Or(seq![x]), d) == render(x, d),
        render(SpecExpr::ZeroOrOne(seq![SpecExpr::Atom(a)]), d) == Ok::<Seq<char>, OutputError>(
            atom_text(a) + "?"@,
        ),
        render(SpecExpr::ZeroOrMore(seq![SpecExpr::Atom(a)]), d) == Ok::<Seq<char>, OutputError>(
            atom_text(a) + "*"@,
        ),
        render(SpecExpr::ZeroOrMoreReluctant(seq![SpecExpr::Atom(a)]), d) == Ok::<
            Seq<char>,
            OutputError,
        >(atom_text(a) + "*?"@),
        render(SpecExpr::OneOrMore(seq![SpecExpr::Atom(a)]), d) == Ok::<Seq<char>, OutputError>(
            atom_text(a) + "+"@,
        ),
        render(SpecExpr::OneOrMoreReluctant(seq![SpecExpr::Atom(a)]), d) == Ok::<
            Seq<char>,
            OutputError,
        >(atom_text(a) + "+?"@),
{
    let one = seq![SpecExpr::Atom(a)];
    assert(one.drop_last() =~= Seq::<SpecExpr>::empty());
    assert(concat(one.drop_last(), d) == Ok::<Seq<char>, OutputError>(Seq::empty()));
    assert(one.last() == SpecExpr::Atom(a));
    assert(render(SpecExpr::Atom(a), d) == Ok::<Seq<char>, OutputError>(atom_text(a)));
    assert(one.len() == 1);
    assert(concat(one, d) == Ok::<Seq<char>, OutputError>(atom_text(a))) by {
        assert(Seq::<char>::empty() + atom_text(a) =~= atom_text(a));
    }
    assert(quantified(one, concat(one, d), "?"@) == enclose(concat(one, d), Seq::empty(), "?"@));
    assert(Seq::<char>::empty() + atom_text(a) + "?"@ =~= atom_text(a) + "?"@);
    assert(Seq::<char>::empty() + atom_text(a) + "*"@ =~= atom_text(a) + "*"@);
    assert(Seq::<char>::empty() + atom_text(a) + "*?"@ =~= atom_text(a) + "*?"@);
    assert(Seq::<char>::empty() + atom_text(a) + "+"@ =~= atom_text(a) + "+"@);
    assert(Seq::<char>::empty() + atom_text(a) + "+?"@ =~= atom_text(a) + "+?"@);
}

/// With more than one operand, every quantifier and counted repetition
/// wraps the plain concatenation of its operands in `(?:` and `)` before its
/// suffix.
pub proof fn law_multi_operand_grouped(es: Seq<SpecExpr>, n: u32, m: u32, d: Dialect)
    requires
        es.len() > 1,
    ensures
        render(SpecExpr::ZeroOrOne(es), d) == enclose(concat(es, d), "(?:"@, ")?"@),
        render(SpecExpr::ZeroOrMore(es), d) == enclose(concat(es, d), "(?:"@, ")*"@),
        render(SpecExpr::ZeroOrMoreReluctant(es), d) == enclose(concat(es, d), "(?:"@, ")*?"@),
        render(SpecExpr::OneOrMore(es), d) == enclose(concat(es, d), "(?:"@, ")+"@),
        render(SpecExpr::OneOrMoreReluctant(es), d) == enclose(concat(es, d), "(?:"@, ")+?"@),
        render(SpecExpr::Exactly(n, es), d) == enclose(
            concat(es, d),
            "(?:"@,
            ")"@ + "{"@ + decimal(n as nat) + "}"@,
        ),
        render(SpecExpr::AtLeast(n, es), d) == enclose(
            concat(es, d),
            "(?:"@,
            ")"@ + "{"@ + decimal(n as nat) + ",}"@,
        ),
        render(SpecExpr::Between(n, m, es), d) == enclose(
            concat(es, d),
            "(?:"@,
            ")"@ + "{"@ + decimal(n as nat) + ","@ + decimal(m as nat) + "}"@,
        ),
{
    reveal_strlit(")");
    reveal_strlit("{");
    reveal_strlit("){");
    reveal_strlit(")?");
    reveal_strlit("?");
    reveal_strlit(")*");
    reveal_strlit("*");
    reveal_strlit(")*?");
    reveal_strlit("*?");
    reveal_strlit(")+");
    reveal_strlit("+");
    reveal_strlit(")+?");
    reveal_strlit("+?");
    assert(")"@ + "?"@ =~= ")?"@);
    assert(")"@ + "*"@ =~= ")*"@);
    assert(")"@ + "*?"@ =~= ")*?"@);
    assert(")"@ + "+"@ =~= ")+"@);
    assert(")"@ + "+?"@ =~= ")+?"@);
    assert(")"@ + "{"@ =~= "){"@);
    assert(")"@ + "{"@ + decimal(n as nat) + "}"@ =~= "){"@ + decimal(n as nat) + "}"@);
    assert(")"@ + "{"@ + decimal(n as nat) + ",}"@ =~= "){"@ + decimal(n as nat) + ",}"@);
    assert(")"@ + "{"@ + decimal(n as nat) + ","@ + decimal(m as nat) + "}"@ =~= "){"@ + decimal(
        n as nat,
    ) + ","@ + decimal(m as nat) + "}"@);
}

} // verus!
