use crate::expr::{Assertion, Atom, CharClass, Expr, SpecAtom, SpecExpr, atoms_view, exprs_view};
use crate::output::regex::{decimal, write_decimal};
use crate::output::{Output, OutputError, push_char};
use vstd::prelude::*;

verus! {

/// A structural dump of the parsed expression, for inspection. The format
/// may change and is not meant to be read back.
#[derive(Debug, Clone, Copy, Default)]
pub struct DebugOutput {}

pub open spec fn class_name(c: CharClass) -> Seq<char> {
    match c {
        CharClass::Whitespace => "Whitespace"@,
        CharClass::Alpha => "Alpha"@,
        CharClass::Digit => "Digit"@,
        CharClass::AlphaNum => "AlphaNum"@,
        CharClass::Hex => "Hex"@,
        CharClass::LowerCase => "LowerCase"@,
        CharClass::UpperCase => "UpperCase"@,
        CharClass::Word => "Word"@,
    }
}

pub open spec fn assertion_name(a: Assertion) -> Seq<char> {
    match a {
        Assertion::LineStart => "LineStart"@,
        Assertion::LineEnd => "LineEnd"@,
        Assertion::WordBoundary => "WordBoundary"@,
        Assertion::NotWordBoundary => "NotWordBoundary"@,
    }
}

/// `name(args)`
pub open spec fn node(name: Seq<char>, args: Seq<char>) -> Seq<char> {
    name + "("@ + args + ")"@
}

pub open spec fn quoted(s: Seq<char>) -> Seq<char> {
    "\""@ + s + "\""@
}

pub open spec fn atom_dump(a: SpecAtom) -> Seq<char> {
    match a {
        SpecAtom::Char(c) => node("Char"@, "'"@ + seq![c] + "'"@),
        SpecAtom::Str(s) => node("String"@, quoted(s)),
        SpecAtom::Class(c) => node("CharClass"@, class_name(c)),
    }
}

/// The atoms separated by `, `.
pub open spec fn atoms_dump(atoms: Seq<SpecAtom>) -> Seq<char>
    decreases atoms.len(),
{
    if atoms.len() == 0 {
        Seq::empty()
    } else if atoms.len() == 1 {
        atom_dump(atoms[0])
    } else {
        atoms_dump(atoms.drop_last()) + ", "@ + atom_dump(atoms.last())
    }
}

/// The dump of an expression: each node as `Variant(fields)`, lists in brackets.
pub open spec fn dump(e: SpecExpr) -> Seq<char>
    decreases e,
{
    match e {
        SpecExpr::Atom(a) => node("Atom"@, atom_dump(a)),
        SpecExpr::Assertion(a) => node("Assertion"@, assertion_name(a)),
        SpecExpr::Sequence(es) => node("Sequence"@, dumps(es)),
        SpecExpr::Or(es) => node("Or"@, dumps(es)),
        SpecExpr::ZeroOrOne(es) => node("ZeroOrOne"@, dumps(es)),
        SpecExpr::ZeroOrMore(es) => node("ZeroOrMore"@, dumps(es)),
        SpecExpr::ZeroOrMoreReluctant(es) => node("ZeroOrMoreReluctant"@, dumps(es)),
        SpecExpr::OneOrMore(es) => node("OneOrMore"@, dumps(es)),
        SpecExpr::OneOrMoreReluctant(es) => node("OneOrMoreReluctant"@, dumps(es)),
        SpecExpr::Exactly(n, es) => node("Exactly"@, decimal(n as nat) + ", "@ + dumps(es)),
        SpecExpr::AtLeast(n, es) => node("AtLeast"@, decimal(n as nat) + ", "@ + dumps(es)),
        SpecExpr::Between(n, m, es) => node(
            "Between"@,
            decimal(n as nat) + ", "@ + decimal(m as nat) + ", "@ + dumps(es),
        ),
        SpecExpr::Not(a) => node("Not"@, atom_dump(a)),
        SpecExpr::Any(atoms) => node("Any"@, "["@ + atoms_dump(atoms) + "]"@),
        SpecExpr::Group(es) => node("Group"@, dumps(es)),
        SpecExpr::GroupN(n, es) => node("GroupN"@, decimal(n as nat) + ", "@ + dumps(es)),
        SpecExpr::BackRef(r) => node("BackRef"@, quoted(r)),
    }
}

/// A list of expressions: `[`, the dumps separated by `, `, `]`.
pub open spec fn dumps(es: Seq<SpecExpr>) -> Seq<char>
    decreases es, 1nat,
{
    "["@ + dumps_inner(es) + "]"@
}

pub open spec fn dumps_inner(es: Seq<SpecExpr>) -> Seq<char>
    decreases es, 0nat,
{
    proof {
        broadcast use vstd::seq::axiom_seq_index_decreases, vstd::seq::axiom_seq_subrange_decreases;
    }
    if es.len() == 0 {
        Seq::empty()
    } else if es.len() == 1 {
        dump(es[0])
    } else {
        dumps_inner(es.drop_last()) + ", "@ + dump(es.last())
    }
}

impl Output for DebugOutput {
    open spec fn rendering(&self, e: SpecExpr) -> Result<Seq<char>, OutputError> {
        Ok(dump(e))
    }

    fn output(&self, expr: &Expr) -> (r: Result<String, OutputError>) {
        let mut s = String::new();
        write_dump(&mut s, expr);
        assert(s@ =~= dump(expr@));
        Ok(s)
    }
}

fn class_name_str(c: CharClass) -> (r: &'static str)
    ensures
        r@ == class_name(c),
{
    match c {
        CharClass::Whitespace => "Whitespace",
        CharClass::Alpha => "Alpha",
        CharClass::Digit => "Digit",
        CharClass::AlphaNum => "AlphaNum",
        CharClass::Hex => "Hex",
        CharClass::LowerCase => "LowerCase",
        CharClass::UpperCase => "UpperCase",
        CharClass::Word => "Word",
    }
}

fn assertion_name_str(a: Assertion) -> (r: &'static str)
    ensures
        r@ == assertion_name(a),
{
    match a {
        Assertion::LineStart => "LineStart",
        Assertion::LineEnd => "LineEnd",
        Assertion::WordBoundary => "WordBoundary",
        Assertion::NotWordBoundary => "NotWordBoundary",
    }
}

fn write_atom_dump(out: &mut String, a: &Atom)
    ensures
        final(out)@ == old(out)@ + atom_dump(a@),
{
    let ghost start = out@;
    match a {
        Atom::Char(c) => {
            out.append("Char('");
            push_char(out, *c);
            out.append("')");
            assert("Char('"@ + seq![*c] + "')"@ =~= node("Char"@, "'"@ + seq![*c] + "'"@)) by {
                reveal_strlit("Char('");
                reveal_strlit("')");
                reveal_strlit("Char");
                reveal_strlit("(");
                reveal_strlit(")");
                reveal_strlit("'");
            }
        },
        Atom::String(s) => {
            out.append("String(\"");
            out.append(s.as_str());
            out.append("\")");
            assert("String(\""@ + s@ + "\")"@ =~= node("String"@, quoted(s@))) by {
                reveal_strlit("String(\"");
                reveal_strlit("\")");
                reveal_strlit("String");
                reveal_strlit("(");
                reveal_strlit(")");
                reveal_strlit("\"");
            }
        },
        Atom::CharClass(c) => {
            out.append("CharClass(");
            out.append(class_name_str(*c));
            out.append(")");
            assert("CharClass("@ =~= "CharClass"@ + "("@) by {
                reveal_strlit("CharClass(");
                reveal_strlit("CharClass");
                reveal_strlit("(");
            }
        },
    }
    assert(out@ =~= start + atom_dump(a@));
}

fn write_atoms_dump(out: &mut String, atoms: &Vec<Atom>)
    ensures
        final(out)@ == old(out)@ + atoms_dump(atoms_view(atoms@)),
{
    let ghost start = out@;
    let ghost all = atoms_view(atoms@);
    let mut k: usize = 0;
    while k < atoms.len()
        invariant
            k <= atoms.len(),
            all == atoms_view(atoms@),
            out@ == start + atoms_dump(all.take(k as int)),
        decreases atoms.len() - k,
    {
        assert(all.take(k + 1).drop_last() =~= all.take(k as int));
        if k > 0 {
            out.append(", ");
        }
        write_atom_dump(out, &atoms[k]);
        k += 1;
        assert(out@ =~= start + atoms_dump(all.take(k as int)));
    }
    assert(all.take(k as int) =~= all);
}

/// Appends `name(`.
fn open_node(out: &mut String, name: &str)
    ensures
        final(out)@ == old(out)@ + name@ + "("@,
{
    out.append(name);
    out.append("(");
}

/// Appends the dump of an expression.
#[verifier::rlimit(60)]
fn write_dump(out: &mut String, e: &Expr)
    ensures
        final(out)@ == old(out)@ + dump(e@),
    decreases e, 2nat,
{
    let ghost start = out@;
    match e {
        Expr::Atom(a) => {
            open_node(out, "Atom");
            write_atom_dump(out, a);
            out.append(")");
            assert(out@ =~= start + dump(e@));
        },
        Expr::Assertion(a) => {
            open_node(out, "Assertion");
            out.append(assertion_name_str(*a));
            out.append(")");
            assert(out@ =~= start + dump(e@));
        },
        Expr::Sequence(es) => write_list_node(out, "Sequence", es),
        Expr::Or(es) => write_list_node(out, "Or", es),
        Expr::ZeroOrOne(es) => write_list_node(out, "ZeroOrOne", es),
        Expr::ZeroOrMore(es) => write_list_node(out, "ZeroOrMore", es),
        Expr::ZeroOrMoreReluctant(es) => write_list_node(out, "ZeroOrMoreReluctant", es),
        Expr::OneOrMore(es) => write_list_node(out, "OneOrMore", es),
        Expr::OneOrMoreReluctant(es) => write_list_node(out, "OneOrMoreReluctant", es),
        Expr::Exactly(n, es) => {
            open_node(out, "Exactly");
            write_decimal(out, *n);
            out.append(", ");
            write_dumps(out, es);
            out.append(")");
            assert(out@ =~= start + dump(e@));
        },
        Expr::AtLeast(n, es) => {
            open_node(out, "AtLeast");
            write_decimal(out, *n);
            out.append(", ");
            write_dumps(out, es);
            out.append(")");
            assert(out@ =~= start + dump(e@));
        },
        Expr::Between(n, m, es) => {
            open_node(out, "Between");
            write_decimal(out, *n);
            out.append(", ");
            write_decimal(out, *m);
            out.append(", ");
            write_dumps(out, es);
            out.append(")");
            assert(out@ =~= start + dump(e@));
        },
        Expr::Not(a) => {
            open_node(out, "Not");
            write_atom_dump(out, a);
            out.append(")");
            assert(out@ =~= start + dump(e@));
        },
        Expr::Any(atoms) => {
            open_node(out, "Any");
            out.append("[");
            write_atoms_dump(out, atoms);
            out.append("]");
            out.append(")");
            assert(out@ =~= start + dump(e@));
        },
        Expr::Group(es) => write_list_node(out, "Group", es),
        Expr::GroupN(n, es) => {
            open_node(out, "GroupN");
            write_decimal(out, *n);
            out.append(", ");
            write_dumps(out, es);
            out.append(")");
            assert(out@ =~= start + dump(e@));
        },
        Expr::BackRef(r) => {
            open_node(out, "BackRef");
            out.append("\"");
            out.append(r.as_str());
            out.append("\"");
            out.append(")");
            assert(out@ =~= start + dump(e@));
        },
    }
}

/// Appends `name([...])` for a node that holds a list of expressions.
fn write_list_node(out: &mut String, name: &str, es: &Vec<Expr>)
    ensures
        final(out)@ == old(out)@ + node(name@, dumps(exprs_view(es))),
    decreases es, 2nat,
{
    let ghost start = out@;
    open_node(out, name);
    write_dumps(out, es);
    out.append(")");
    assert(out@ =~= start + node(name@, dumps(exprs_view(es))));
}

/// Appends a list of expressions in brackets.
fn write_dumps(out: &mut String, es: &Vec<Expr>)
    ensures
        final(out)@ == old(out)@ + dumps(exprs_view(es)),
    decreases es, 1nat,
{
    let ghost start = out@;
    let ghost all = exprs_view(es);
    out.append("[");
    let mut k: usize = 0;
    while k < es.len()
        invariant
            k <= es.len(),
            all == exprs_view(es),
            out@ == start + "["@ + dumps_inner(all.take(k as int)),
        decreases es.len() - k,
    {
        assert(all.take(k + 1).drop_last() =~= all.take(k as int));
        assert(all.take(k + 1).last() == es@[k as int]@);
        if k > 0 {
            out.append(", ");
        }
        write_dump(out, &es[k]);
        k += 1;
        assert(out@ =~= start + "["@ + dumps_inner(all.take(k as int)));
    }
    assert(all.take(k as int) =~= all);
    out.append("]");
    assert(out@ =~= start + dumps(all));
}

} // verus!
