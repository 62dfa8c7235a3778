use crate::expr::{
    Assertion, Atom, CharClass, Expr, SpecAtom, SpecExpr, atoms_view, exprs_view,
};
use crate::output::push_char;
use vstd::prelude::*;

verus! {

/// The input is not a description that the grammar accepts, or text
/// follows a complete one.
#[derive(Debug, Clone, Copy, PartialEq, Eq, Structural)]
pub struct ParseError {}

/// The forms of the description language. The grammar tries them in the
/// order of [`expr_at`].
#[derive(Debug, Clone, Copy, PartialEq, Eq, Structural)]
pub enum Form {
    Sequence,
    Or,
    ZeroOrOne,
    ZeroOrMore,
    ZeroOrMoreReluctant,
    OneOrMore,
    OneOrMoreReluctant,
    Exactly,
    AtLeast,
    Between,
    Not,
    Any,
    Assertion,
    Group,
    GroupN,
    BackRef,
    Atom,
}

/// A set of interchangeable spellings of one keyword.
#[derive(Debug, Clone, Copy, PartialEq, Eq, Structural)]
pub enum Keyword {
    Form(Form),
    Class(CharClass),
    Assertion(Assertion),
}

/// The spellings of a keyword, in the order in which they are tried.
pub open spec fn spellings(k: Keyword) -> Seq<Seq<char>> {
    match k {
        Keyword::Form(f) => match f {
            Form::Sequence => seq!["seq"@, ":"@, "sequence"@, "and"@],
            Form::Or => seq!["or"@, "|"@],
            Form::ZeroOrOne => seq!["zero-or-one"@, "opt"@, "optional"@],
            Form::ZeroOrMore => seq!["zero-or-more"@, "0+"@, "*"@],
            Form::ZeroOrMoreReluctant => seq!["*?"@],
            Form::OneOrMore => seq!["one-or-more"@, "1+"@, "+"@],
            Form::OneOrMoreReluctant => seq!["+?"@],
            Form::Exactly => seq!["="@],
            Form::AtLeast => seq![">="@],
            Form::Between => seq!["**"@],
            Form::Not => seq!["not"@],
            Form::Any => seq!["any"@, "in"@, "char"@],
            Form::Group => seq!["group"@, "submatch"@],
            Form::GroupN => seq!["group-n"@, "submatch-n"@],
            Form::BackRef => seq!["backref"@],
            Form::Assertion | Form::Atom => Seq::empty(),
        },
        Keyword::Class(c) => match c {
            CharClass::Whitespace => seq!["space"@, "whitespace"@, "white"@],
            CharClass::Alpha => seq!["alpha"@, "alphabetic"@, "letter"@],
            CharClass::Digit => seq!["digit"@, "numeric"@, "num"@],
            CharClass::AlphaNum => seq!["alnum"@, "alphanumeric"@],
            CharClass::Hex => seq!["xdigit"@, "hex-digit"@, "hex"@],
            CharClass::LowerCase => seq!["lower"@, "lower-case"@],
            CharClass::UpperCase => seq!["upper"@, "upper-case"@],
            CharClass::Word => seq!["word"@, "wordchar"@],
        },
        Keyword::Assertion(a) => match a {
            Assertion::LineStart => seq!["line-start"@, "bol"@],
            Assertion::LineEnd => seq!["line-end"@, "eol"@],
            Assertion::WordBoundary => seq!["word-boundary"@],
            Assertion::NotWordBoundary => seq!["not-word-boundary"@],
        },
    }
}

pub open spec fn is_space(c: char) -> bool {
    c == ' ' || c == '\t' || c == '\r' || c == '\n'
}

pub open spec fn is_digit(c: char) -> bool {
    '0' <= c <= '9'
}

/// The end of the run of whitespace that starts at `i`.
pub open spec fn space_end(s: Seq<char>, i: int) -> int
    decreases s.len() - i,
{
    if 0 <= i < s.len() && is_space(s[i]) {
        space_end(s, i + 1)
    } else {
        i
    }
}

/// The end of the run of decimal digits that starts at `i`.
pub open spec fn digit_end(s: Seq<char>, i: int) -> int
    decreases s.len() - i,
{
    if 0 <= i < s.len() && is_digit(s[i]) {
        digit_end(s, i + 1)
    } else {
        i
    }
}

/// At least one whitespace character at `i`: the end of the run.
pub open spec fn spaces1(s: Seq<char>, i: int) -> Option<int> {
    let j = space_end(s, i);
    if j > i {
        Some(j)
    } else {
        None
    }
}

/// Whether `s` holds the text `w` at `i`.
pub open spec fn has_word(s: Seq<char>, i: int, w: Seq<char>) -> bool {
    0 <= i && i + w.len() <= s.len() && s.subrange(i, i + w.len()) == w
}

/// The first of the words that `s` holds at `i`.
pub open spec fn first_word(s: Seq<char>, i: int, ws: Seq<Seq<char>>) -> Option<Seq<char>>
    decreases ws.len(),
{
    if ws.len() == 0 {
        None
    } else if has_word(s, i, ws[0]) {
        Some(ws[0])
    } else {
        first_word(s, i, ws.drop_first())
    }
}

/// The end of the first spelling of `k` that `s` holds at `i`.
pub open spec fn keyword_end(s: Seq<char>, i: int, k: Keyword) -> Option<int> {
    match first_word(s, i, spellings(k)) {
        Some(w) => Some(i + w.len()),
        None => None,
    }
}

/// `a` if it is a success, else `b`: the ordered choice of the grammar.
pub open spec fn or_else<A>(a: Option<A>, b: Option<A>) -> Option<A> {
    if a is Some {
        a
    } else {
        b
    }
}

pub open spec fn digit_value(c: char) -> nat {
    (c as u32 - '0' as u32) as nat
}

/// The number that a run of decimal digits denotes.
pub open spec fn digits_value(d: Seq<char>) -> nat
    decreases d.len(),
{
    if d.len() == 0 {
        0
    } else {
        digits_value(d.drop_last()) * 10 + digit_value(d.last())
    }
}

/// An unsigned decimal number at `i` that fits in 32 bits, and its end.
pub open spec fn number_at(s: Seq<char>, i: int) -> Option<(u32, int)> {
    let j = digit_end(s, i);
    if j > i && digits_value(s.subrange(i, j)) <= u32::MAX {
        Some((digits_value(s.subrange(i, j)) as u32, j))
    } else {
        None
    }
}

/// The end of the body of a quoted text that starts at `i`: characters
/// other than `"` and `\`, and the escapes `\"` and `\\`. None where a `\`
/// escapes anything else.
pub open spec fn escaped_end(s: Seq<char>, i: int) -> Option<int>
    decreases s.len() - i,
{
    if i < 0 || i >= s.len() || s[i] == '"' {
        Some(i)
    } else if s[i] == '\\' {
        if i + 1 < s.len() && (s[i + 1] == '"' || s[i + 1] == '\\') {
            escaped_end(s, i + 2)
        } else {
            None
        }
    } else {
        escaped_end(s, i + 1)
    }
}

/// A quoted text at `i`, with a body of at least one character: the body as
/// written, escapes kept, and the end past the closing quote.
pub open spec fn quoted_at(s: Seq<char>, i: int) -> Option<(Seq<char>, int)> {
    if 0 <= i < s.len() && s[i] == '"' {
        match escaped_end(s, i + 1) {
            Some(j) => if i + 1 < j < s.len() && s[j] == '"' {
                Some((s.subrange(i + 1, j), j + 1))
            } else {
                None
            },
            None => None,
        }
    } else {
        None
    }
}

/// The character class that one of its keywords names at `i`.
pub open spec fn class_try(s: Seq<char>, i: int, c: CharClass) -> Option<(CharClass, int)> {
    match keyword_end(s, i, Keyword::Class(c)) {
        Some(j) => Some((c, j)),
        None => None,
    }
}

/// A character-class keyword at `i`, the classes tried in their order.
pub open spec fn class_at(s: Seq<char>, i: int) -> Option<(CharClass, int)> {
    or_else(
        class_try(s, i, CharClass::Whitespace),
        or_else(
            class_try(s, i, CharClass::Alpha),
            or_else(
                class_try(s, i, CharClass::Digit),
                or_else(
                    class_try(s, i, CharClass::AlphaNum),
                    or_else(
                        class_try(s, i, CharClass::Hex),
                        or_else(
                            class_try(s, i, CharClass::LowerCase),
                            or_else(
                                class_try(s, i, CharClass::UpperCase),
                                class_try(s, i, CharClass::Word),
                            ),
                        ),
                    ),
                ),
            ),
        ),
    )
}

/// An atom at `i`: a class keyword, else a quoted text, else any one character.
pub open spec fn atom_at(s: Seq<char>, i: int) -> Option<(SpecAtom, int)> {
    match class_at(s, i) {
        Some((c, j)) => Some((SpecAtom::Class(c), j)),
        None => match quoted_at(s, i) {
            Some((t, j)) => Some((SpecAtom::Str(t), j)),
            None => if 0 <= i < s.len() {
                Some((SpecAtom::Char(s[i]), i + 1))
            } else {
                None
            },
        },
    }
}

pub open spec fn assertion_try(s: Seq<char>, i: int, a: Assertion) -> Option<(Assertion, int)> {
    match keyword_end(s, i, Keyword::Assertion(a)) {
        Some(j) => Some((a, j)),
        None => None,
    }
}

/// An assertion keyword at `i`.
pub open spec fn assertion_at(s: Seq<char>, i: int) -> Option<(Assertion, int)> {
    or_else(
        assertion_try(s, i, Assertion::LineStart),
        or_else(
            assertion_try(s, i, Assertion::LineEnd),
            or_else(
                assertion_try(s, i, Assertion::WordBoundary),
                assertion_try(s, i, Assertion::NotWordBoundary),
            ),
        ),
    )
}

/// The atoms of a set, each after whitespace, as many as there are.
pub open spec fn atoms_from(s: Seq<char>, i: int) -> (Seq<SpecAtom>, int)
    decreases s.len() - i,
{
    match spaces1(s, i) {
        None => (Seq::empty(), i),
        Some(p) => match atom_at(s, p) {
            None => (Seq::empty(), i),
            // Every atom takes at least one character; the bound on `q`
            // only makes the recursion visibly finite.
            Some((a, q)) => if i < q <= s.len() {
                let (rest, r) = atoms_from(s, q);
                (seq![a] + rest, r)
            } else {
                (Seq::empty(), i)
            },
        },
    }
}

/// Optional whitespace, then `)`: the end past it.
pub open spec fn close_at(s: Seq<char>, i: int) -> Option<int> {
    let j = space_end(s, i);
    if 0 <= j < s.len() && s[j] == ')' {
        Some(j + 1)
    } else {
        None
    }
}

/// `(`, optional whitespace and a spelling of the form's keyword: the end.
pub open spec fn head_at(s: Seq<char>, i: int, f: Form) -> Option<int> {
    if 0 <= i < s.len() && s[i] == '(' {
        keyword_end(s, space_end(s, i + 1), Keyword::Form(f))
    } else {
        None
    }
}

/// The expression that a form with a list of operands builds.
pub open spec fn list_node(f: Form, es: Seq<SpecExpr>) -> SpecExpr {
    match f {
        Form::Or => SpecExpr::Or(es),
        Form::ZeroOrOne => SpecExpr::ZeroOrOne(es),
        Form::ZeroOrMore => SpecExpr::ZeroOrMore(es),
        Form::ZeroOrMoreReluctant => SpecExpr::ZeroOrMoreReluctant(es),
        Form::OneOrMore => SpecExpr::OneOrMore(es),
        Form::OneOrMoreReluctant => SpecExpr::OneOrMoreReluctant(es),
        Form::Group => SpecExpr::Group(es),
        _ => SpecExpr::Sequence(es),
    }
}

/// The expression that a form with a count and operands builds.
pub open spec fn counted_node(f: Form, n: u32, es: Seq<SpecExpr>) -> SpecExpr {
    match f {
        Form::AtLeast => SpecExpr::AtLeast(n, es),
        Form::GroupN => SpecExpr::GroupN(n, es),
        _ => SpecExpr::Exactly(n, es),
    }
}

/// The text of a backreference at `i`: digits, or a quoted label.
pub open spec fn reference_at(s: Seq<char>, i: int) -> Option<(Seq<char>, int)> {
    let j = digit_end(s, i);
    if j > i {
        Some((s.subrange(i, j), j))
    } else {
        quoted_at(s, i)
    }
}

/// An expression at `i` and its end: the forms tried in order, the first
/// that matches taken.
pub open spec fn expr_at(s: Seq<char>, i: int) -> Option<(SpecExpr, int)>
    decreases s.len() - i, 3nat,
{
    or_else(form_at(s, i, Form::Sequence),
    or_else(form_at(s, i, Form::Or),
    or_else(form_at(s, i, Form::ZeroOrOne),
    or_else(form_at(s, i, Form::ZeroOrMore),
    or_else(form_at(s, i, Form::ZeroOrMoreReluctant),
    or_else(form_at(s, i, Form::OneOrMore),
    or_else(form_at(s, i, Form::OneOrMoreReluctant),
    or_else(form_at(s, i, Form::Exactly),
    or_else(form_at(s, i, Form::AtLeast),
    or_else(form_at(s, i, Form::Between),
    or_else(form_at(s, i, Form::Not),
    or_else(form_at(s, i, Form::Any),
    or_else(form_at(s, i, Form::Assertion),
    or_else(form_at(s, i, Form::Group),
    or_else(form_at(s, i, Form::GroupN),
    or_else(form_at(s, i, Form::BackRef),
    form_at(s, i, Form::Atom)))))))))))))))))
}

/// One form at `i` and its end.
pub open spec fn form_at(s: Seq<char>, i: int, f: Form) -> Option<(SpecExpr, int)>
    decreases s.len() - i, 2nat,
{
    match f {
        Form::Assertion => match assertion_at(s, i) {
            Some((a, j)) => Some((SpecExpr::Assertion(a), j)),
            None => None,
        },
        Form::Atom => match atom_at(s, i) {
            Some((a, j)) => Some((SpecExpr::Atom(a), j)),
            None => None,
        },
        _ => match head_at(s, i, f) {
            None => None,
            Some(p) => {
                proof {
                    lemma_head_at(s, i, f);
                    lemma_space_end(s, p);
                    lemma_digit_end(s, space_end(s, p));
                    if let Some(q) = spaces1(s, p) {
                        if let Some((n, r)) = number_at(s, q) {
                            lemma_space_end(s, r);
                            lemma_digit_end(s, space_end(s, r));
                        }
                    }
                }
                match f {
                    Form::Not => match spaces1(s, p) {
                        None => None,
                        Some(q) => match atom_at(s, q) {
                            None => None,
                            Some((a, r)) => match close_at(s, r) {
                                None => None,
                                Some(t) => Some((SpecExpr::Not(a), t)),
                            },
                        },
                    },
                    Form::Any => {
                        let (atoms, r) = atoms_from(s, p);
                        if atoms.len() == 0 {
                            None
                        } else {
                            match close_at(s, r) {
                                None => None,
                                Some(t) => Some((SpecExpr::Any(atoms), t)),
                            }
                        }
                    },
                    Form::BackRef => match spaces1(s, p) {
                        None => None,
                        Some(q) => match reference_at(s, q) {
                            None => None,
                            Some((text, r)) => match close_at(s, r) {
                                None => None,
                                Some(t) => Some((SpecExpr::BackRef(text), t)),
                            },
                        },
                    },
                    Form::Exactly | Form::AtLeast | Form::GroupN => match spaces1(s, p) {
                        None => None,
                        Some(q) => match number_at(s, q) {
                            None => None,
                            Some((n, r)) => match operands_closed(s, r) {
                                None => None,
                                Some((es, t)) => Some((counted_node(f, n, es), t)),
                            },
                        },
                    },
                    Form::Between => match spaces1(s, p) {
                        None => None,
                        Some(q) => match number_at(s, q) {
                            None => None,
                            Some((n, r)) => match spaces1(s, r) {
                                None => None,
                                Some(u) => match number_at(s, u) {
                                    None => None,
                                    Some((m, v)) => match operands_closed(s, v) {
                                        None => None,
                                        Some((es, t)) => Some((SpecExpr::Between(n, m, es), t)),
                                    },
                                },
                            },
                        },
                    },
                    _ => match operands_closed(s, p) {
                        None => None,
                        Some((es, t)) => Some((list_node(f, es), t)),
                    },
                }
            },
        },
    }
}

/// One or more operands, each after whitespace, then the closing `)`.
pub open spec fn operands_closed(s: Seq<char>, i: int) -> Option<(Seq<SpecExpr>, int)>
    decreases s.len() - i, 1nat,
{
    let (es, r) = operands_from(s, i);
    if es.len() == 0 {
        None
    } else {
        match close_at(s, r) {
            None => None,
            Some(t) => Some((es, t)),
        }
    }
}

/// The operands at `i`, each after whitespace, as many as there are.
pub open spec fn operands_from(s: Seq<char>, i: int) -> (Seq<SpecExpr>, int)
    decreases s.len() - i, 0nat,
{
    proof {
        lemma_space_end(s, i);
    }
    match spaces1(s, i) {
        None => (Seq::empty(), i),
        Some(p) => match expr_at(s, p) {
            None => (Seq::empty(), i),
            // Every expression takes at least one character; the bound on
            // `q` only makes the recursion visibly finite.
            Some((e, q)) => if i < q <= s.len() {
                let (rest, r) = operands_from(s, q);
                (seq![e] + rest, r)
            } else {
                (Seq::empty(), i)
            },
        },
    }
}

/// The expression that a whole description denotes: one expression that
/// takes all of the text.
pub open spec fn spec_parse(s: Seq<char>) -> Option<SpecExpr> {
    match expr_at(s, 0) {
        Some((e, j)) => if j == s.len() {
            Some(e)
        } else {
            None
        },
        None => None,
    }
}

pub proof fn lemma_space_end(s: Seq<char>, i: int)
    ensures
        i <= space_end(s, i),
        0 <= i <= s.len() ==> space_end(s, i) <= s.len(),
        space_end(s, i) > i ==> 0 <= i < space_end(s, i) <= s.len(),
    decreases s.len() - i,
{
    if 0 <= i < s.len() && is_space(s[i]) {
        lemma_space_end(s, i + 1);
    }
}

pub proof fn lemma_digit_end(s: Seq<char>, i: int)
    ensures
        i <= digit_end(s, i),
        digit_end(s, i) > i ==> 0 <= i < digit_end(s, i) <= s.len(),
    decreases s.len() - i,
{
    if 0 <= i < s.len() && is_digit(s[i]) {
        lemma_digit_end(s, i + 1);
    }
}

pub proof fn lemma_first_word(s: Seq<char>, i: int, ws: Seq<Seq<char>>)
    ensures
        first_word(s, i, ws) matches Some(w) ==> has_word(s, i, w),
    decreases ws.len(),
{
    if ws.len() > 0 && !has_word(s, i, ws[0]) {
        lemma_first_word(s, i, ws.drop_first());
    }
}

/// A form's head ends past its start.
pub proof fn lemma_head_at(s: Seq<char>, i: int, f: Form)
    ensures
        head_at(s, i, f) matches Some(p) ==> i < p <= s.len(),
{
    lemma_space_end(s, i + 1);
    lemma_first_word(s, space_end(s, i + 1), spellings(Keyword::Form(f)));
}

/// A parsing step with its end as an integer.
pub open spec fn step_view(r: Option<(Expr, usize)>) -> Option<(SpecExpr, int)> {
    match r {
        Some((e, j)) => Some((e@, j as int)),
        None => None,
    }
}

fn form_spelling(f: Form, n: usize) -> (r: Option<&'static str>)
    ensures
        match r {
            Some(w) => n < spellings(Keyword::Form(f)).len() && w@ == spellings(
                Keyword::Form(f),
            )[n as int],
            None => n >= spellings(Keyword::Form(f)).len(),
        },
{
    match (f, n) {
        (Form::Sequence, 0) => Some("seq"),
        (Form::Sequence, 1) => Some(":"),
        (Form::Sequence, 2) => Some("sequence"),
        (Form::Sequence, 3) => Some("and"),
        (Form::Or, 0) => Some("or"),
        (Form::Or, 1) => Some("|"),
        (Form::ZeroOrOne, 0) => Some("zero-or-one"),
        (Form::ZeroOrOne, 1) => Some("opt"),
        (Form::ZeroOrOne, 2) => Some("optional"),
        (Form::ZeroOrMore, 0) => Some("zero-or-more"),
        (Form::ZeroOrMore, 1) => Some("0+"),
        (Form::ZeroOrMore, 2) => Some("*"),
        (Form::ZeroOrMoreReluctant, 0) => Some("*?"),
        (Form::OneOrMore, 0) => Some("one-or-more"),
        (Form::OneOrMore, 1) => Some("1+"),
        (Form::OneOrMore, 2) => Some("+"),
        (Form::OneOrMoreReluctant, 0) => Some("+?"),
        (Form::Exactly, 0) => Some("="),
        (Form::AtLeast, 0) => Some(">="),
        (Form::Between, 0) => Some("**"),
        (Form::Not, 0) => Some("not"),
        (Form::Any, 0) => Some("any"),
        (Form::Any, 1) => Some("in"),
        (Form::Any, 2) => Some("char"),
        (Form::Group, 0) => Some("group"),
        (Form::Group, 1) => Some("submatch"),
        (Form::GroupN, 0) => Some("group-n"),
        (Form::GroupN, 1) => Some("submatch-n"),
        (Form::BackRef, 0) => Some("backref"),
        _ => None,
    }
}

fn class_spelling(c: CharClass, n: usize) -> (r: Option<&'static str>)
    ensures
        match r {
            Some(w) => n < spellings(Keyword::Class(c)).len() && w@ == spellings(
                Keyword::Class(c),
            )[n as int],
            None => n >= spellings(Keyword::Class(c)).len(),
        },
{
    match (c, n) {
        (CharClass::Whitespace, 0) => Some("space"),
        (CharClass::Whitespace, 1) => Some("whitespace"),
        (CharClass::Whitespace, 2) => Some("white"),
        (CharClass::Alpha, 0) => Some("alpha"),
        (CharClass::Alpha, 1) => Some("alphabetic"),
        (CharClass::Alpha, 2) => Some("letter"),
        (CharClass::Digit, 0) => Some("digit"),
        (CharClass::Digit, 1) => Some("numeric"),
        (CharClass::Digit, 2) => Some("num"),
        (CharClass::AlphaNum, 0) => Some("alnum"),
        (CharClass::AlphaNum, 1) => Some("alphanumeric"),
        (CharClass::Hex, 0) => Some("xdigit"),
        (CharClass::Hex, 1) => Some("hex-digit"),
        (CharClass::Hex, 2) => Some("hex"),
        (CharClass::LowerCase, 0) => Some("lower"),
        (CharClass::LowerCase, 1) => Some("lower-case"),
        (CharClass::UpperCase, 0) => Some("upper"),
        (CharClass::UpperCase, 1) => Some("upper-case"),
        (CharClass::Word, 0) => Some("word"),
        (CharClass::Word, 1) => Some("wordchar"),
        _ => None,
    }
}

fn assertion_spelling(a: Assertion, n: usize) -> (r: Option<&'static str>)
    ensures
        match r {
            Some(w) => n < spellings(Keyword::Assertion(a)).len() && w@ == spellings(
                Keyword::Assertion(a),
            )[n as int],
            None => n >= spellings(Keyword::Assertion(a)).len(),
        },
{
    match (a, n) {
        (Assertion::LineStart, 0) => Some("line-start"),
        (Assertion::LineStart, 1) => Some("bol"),
        (Assertion::LineEnd, 0) => Some("line-end"),
        (Assertion::LineEnd, 1) => Some("eol"),
        (Assertion::WordBoundary, 0) => Some("word-boundary"),
        (Assertion::NotWordBoundary, 0) => Some("not-word-boundary"),
        _ => None,
    }
}

/// The `n`th spelling of a keyword.
fn spelling(k: Keyword, n: usize) -> (r: Option<&'static str>)
    ensures
        match r {
            Some(w) => n < spellings(k).len() && w@ == spellings(k)[n as int],
            None => n >= spellings(k).len(),
        },
{
    match k {
        Keyword::Form(f) => form_spelling(f, n),
        Keyword::Class(c) => class_spelling(c, n),
        Keyword::Assertion(a) => assertion_spelling(a, n),
    }
}

/// Whether `s` holds `w` at `i`.
fn has_word_at(s: &Vec<char>, i: usize, w: &str) -> (r: bool)
    requires
        i <= s.len(),
    ensures
        r == has_word(s@, i as int, w@),
{
    let n = w.unicode_len();
    if n > s.len() - i {
        return false;
    }
    let mut k: usize = 0;
    while k < n
        invariant
            n == w@.len(),
            i + n <= s.len(),
            k <= n,
            forall|t: int| 0 <= t < k ==> s@[i + t] == w@[t],
        decreases n - k,
    {
        if s[i + k] != w.get_char(k) {
            assert(s@.subrange(i as int, i + n)[k as int] != w@[k as int]);
            return false;
        }
        k += 1;
    }
    assert(s@.subrange(i as int, i + n) =~= w@);
    true
}

/// The end of the first spelling of `k` at `i`.
fn keyword_end_at(s: &Vec<char>, i: usize, k: Keyword) -> (r: Option<usize>)
    requires
        i <= s.len(),
    ensures
        match r {
            Some(j) => keyword_end(s@, i as int, k) == Some(j as int) && j <= s.len(),
            None => keyword_end(s@, i as int, k) is None,
        },
{
    let ghost ws = spellings(k);
    let mut n: usize = 0;
    assert(ws.subrange(0, ws.len() as int) =~= ws);
    loop
        invariant
            i <= s.len(),
            ws == spellings(k),
            n <= ws.len(),
            first_word(s@, i as int, ws) == first_word(s@, i as int, ws.subrange(n as int, ws.len() as int)),
        decreases ws.len() - n,
    {
        let ghost rest = ws.subrange(n as int, ws.len() as int);
        match spelling(k, n) {
            None => {
                assert(rest.len() == 0);
                return None;
            },
            Some(w) => {
                assert(rest[0] == w@);
                if has_word_at(s, i, w) {
                    return Some(i + w.unicode_len());
                }
                assert(rest.drop_first() =~= ws.subrange(n + 1, ws.len() as int));
                n += 1;
            },
        }
    }
}

/// The end of the whitespace run at `i`.
fn space_end_at(s: &Vec<char>, i: usize) -> (r: usize)
    requires
        i <= s.len(),
    ensures
        r == space_end(s@, i as int),
        i <= r <= s.len(),
{
    let mut k = i;
    while k < s.len() && (s[k] == ' ' || s[k] == '\t' || s[k] == '\r' || s[k] == '\n')
        invariant
            i <= k <= s.len(),
            space_end(s@, i as int) == space_end(s@, k as int),
        decreases s.len() - k,
    {
        k += 1;
    }
    k
}

/// The end of the digit run at `i`.
fn digit_end_at(s: &Vec<char>, i: usize) -> (r: usize)
    requires
        i <= s.len(),
    ensures
        r == digit_end(s@, i as int),
        i <= r <= s.len(),
{
    let mut k = i;
    while k < s.len() && '0' <= s[k] && s[k] <= '9'
        invariant
            i <= k <= s.len(),
            digit_end(s@, i as int) == digit_end(s@, k as int),
        decreases s.len() - k,
    {
        k += 1;
    }
    k
}

/// A longer run of digits denotes at least as large a number.
proof fn lemma_digits_value_prefix(d: Seq<char>, k: int)
    requires
        0 <= k <= d.len(),
    ensures
        digits_value(d.take(k)) <= digits_value(d),
    decreases d.len(),
{
    if k < d.len() {
        assert(d.drop_last().take(k) =~= d.take(k));
        lemma_digits_value_prefix(d.drop_last(), k);
    } else {
        assert(d.take(k) =~= d);
    }
}

/// A decimal number at `i` that fits in 32 bits.
fn number_at_pos(s: &Vec<char>, i: usize) -> (r: Option<(u32, usize)>)
    requires
        i <= s.len(),
    ensures
        match r {
            Some((n, j)) => number_at(s@, i as int) == Some((n, j as int)) && i < j <= s.len(),
            None => number_at(s@, i as int) is None,
        },
{
    let j = digit_end_at(s, i);
    if j == i {
        return None;
    }
    let ghost d = s@.subrange(i as int, j as int);
    let mut v: u64 = 0;
    let mut k = i;
    while k < j
        invariant
            i <= k <= j <= s.len(),
            d == s@.subrange(i as int, j as int),
            j == digit_end(s@, i as int),
            v == digits_value(d.take(k - i)),
            v <= u32::MAX,
        decreases j - k,
    {
        proof {
            lemma_digit_run(s@, i as int, k as int);
        }
        let c = s[k];
        assert(d.take(k + 1 - i).drop_last() =~= d.take(k - i));
        v = v * 10 + ((c as u32) - ('0' as u32)) as u64;
        k += 1;
        if v > u32::MAX as u64 {
            proof {
                lemma_digits_value_prefix(d, k - i);
            }
            return None;
        }
    }
    assert(d.take(j - i) =~= d);
    Some((v as u32, j))
}

/// Every character before the end of a digit run is a digit.
proof fn lemma_digit_run(s: Seq<char>, i: int, k: int)
    requires
        0 <= i <= k < digit_end(s, i),
    ensures
        is_digit(s[k]),
    decreases k - i,
{
    if i < k {
        lemma_digit_run(s, i + 1, k);
    }
}

/// The end of the body of a quoted text.
fn escaped_end_at(s: &Vec<char>, i: usize) -> (r: Option<usize>)
    requires
        i <= s.len(),
    ensures
        match r {
            Some(j) => escaped_end(s@, i as int) == Some(j as int) && i <= j <= s.len(),
            None => escaped_end(s@, i as int) is None,
        },
{
    let mut k = i;
    loop
        invariant
            i <= k <= s.len(),
            escaped_end(s@, i as int) == escaped_end(s@, k as int),
        decreases s.len() - k,
    {
        if k >= s.len() || s[k] == '"' {
            return Some(k);
        }
        if s[k] == '\\' {
            if k + 1 < s.len() && (s[k + 1] == '"' || s[k + 1] == '\\') {
                k += 2;
            } else {
                return None;
            }
        } else {
            k += 1;
        }
    }
}

/// The characters of `s` from `a` to `b`, as a string.
fn text_between(s: &Vec<char>, a: usize, b: usize) -> (r: String)
    requires
        a <= b <= s.len(),
    ensures
        r@ == s@.subrange(a as int, b as int),
{
    let mut t = String::new();
    let mut k = a;
    while k < b
        invariant
            a <= k <= b <= s.len(),
            t@ == s@.subrange(a as int, k as int),
        decreases b - k,
    {
        push_char(&mut t, s[k]);
        k += 1;
        assert(t@ =~= s@.subrange(a as int, k as int));
    }
    t
}

/// A quoted text at `i`: its body as written, and its end.
fn quoted_at_pos(s: &Vec<char>, i: usize) -> (r: Option<(String, usize)>)
    requires
        i <= s.len(),
    ensures
        match r {
            Some((t, j)) => quoted_at(s@, i as int) == Some((t@, j as int)) && i < j <= s.len(),
            None => quoted_at(s@, i as int) is None,
        },
{
    if i < s.len() && s[i] == '"' {
        match escaped_end_at(s, i + 1) {
            Some(j) => {
                if i + 1 < j && j < s.len() && s[j] == '"' {
                    Some((text_between(s, i + 1, j), j + 1))
                } else {
                    None
                }
            },
            None => None,
        }
    } else {
        None
    }
}

/// A character-class keyword at `i`.
fn class_at_pos(s: &Vec<char>, i: usize) -> (r: Option<(CharClass, usize)>)
    requires
        i <= s.len(),
    ensures
        match r {
            Some((c, j)) => class_at(s@, i as int) == Some((c, j as int)) && j <= s.len(),
            None => class_at(s@, i as int) is None,
        },
{
    if let Some(j) = keyword_end_at(s, i, Keyword::Class(CharClass::Whitespace)) {
        return Some((CharClass::Whitespace, j));
    }
    if let Some(j) = keyword_end_at(s, i, Keyword::Class(CharClass::Alpha)) {
        return Some((CharClass::Alpha, j));
    }
    if let Some(j) = keyword_end_at(s, i, Keyword::Class(CharClass::Digit)) {
        return Some((CharClass::Digit, j));
    }
    if let Some(j) = keyword_end_at(s, i, Keyword::Class(CharClass::AlphaNum)) {
        return Some((CharClass::AlphaNum, j));
    }
    if let Some(j) = keyword_end_at(s, i, Keyword::Class(CharClass::Hex)) {
        return Some((CharClass::Hex, j));
    }
    if let Some(j) = keyword_end_at(s, i, Keyword::Class(CharClass::LowerCase)) {
        return Some((CharClass::LowerCase, j));
    }
    if let Some(j) = keyword_end_at(s, i, Keyword::Class(CharClass::UpperCase)) {
        return Some((CharClass::UpperCase, j));
    }
    if let Some(j) = keyword_end_at(s, i, Keyword::Class(CharClass::Word)) {
        return Some((CharClass::Word, j));
    }
    None
}

/// An assertion keyword at `i`.
fn assertion_at_pos(s: &Vec<char>, i: usize) -> (r: Option<(Assertion, usize)>)
    requires
        i <= s.len(),
    ensures
        match r {
            Some((a, j)) => assertion_at(s@, i as int) == Some((a, j as int)) && j <= s.len(),
            None => assertion_at(s@, i as int) is None,
        },
{
    if let Some(j) = keyword_end_at(s, i, Keyword::Assertion(Assertion::LineStart)) {
        return Some((Assertion::LineStart, j));
    }
    if let Some(j) = keyword_end_at(s, i, Keyword::Assertion(Assertion::LineEnd)) {
        return Some((Assertion::LineEnd, j));
    }
    if let Some(j) = keyword_end_at(s, i, Keyword::Assertion(Assertion::WordBoundary)) {
        return Some((Assertion::WordBoundary, j));
    }
    if let Some(j) = keyword_end_at(s, i, Keyword::Assertion(Assertion::NotWordBoundary)) {
        return Some((Assertion::NotWordBoundary, j));
    }
    None
}

/// An atom at `i`.
fn atom_at_pos(s: &Vec<char>, i: usize) -> (r: Option<(Atom, usize)>)
    requires
        i <= s.len(),
    ensures
        match r {
            Some((a, j)) => atom_at(s@, i as int) == Some((a@, j as int)) && i < j <= s.len(),
            None => atom_at(s@, i as int) is None,
        },
{
    if let Some((c, j)) = class_at_pos(s, i) {
        proof {
            lemma_class_at(s@, i as int);
        }
        return Some((Atom::CharClass(c), j));
    }
    if let Some((t, j)) = quoted_at_pos(s, i) {
        return Some((Atom::String(t), j));
    }
    if i < s.len() {
        Some((Atom::Char(s[i]), i + 1))
    } else {
        None
    }
}

/// A class keyword takes at least one character.
proof fn lemma_class_at(s: Seq<char>, i: int)
    ensures
        class_at(s, i) matches Some((c, j)) ==> i < j,
{
    reveal_strlit("space");
    reveal_strlit("whitespace");
    reveal_strlit("white");
    reveal_strlit("alpha");
    reveal_strlit("alphabetic");
    reveal_strlit("letter");
    reveal_strlit("digit");
    reveal_strlit("numeric");
    reveal_strlit("num");
    reveal_strlit("alnum");
    reveal_strlit("alphanumeric");
    reveal_strlit("xdigit");
    reveal_strlit("hex-digit");
    reveal_strlit("hex");
    reveal_strlit("lower");
    reveal_strlit("lower-case");
    reveal_strlit("upper");
    reveal_strlit("upper-case");
    reveal_strlit("word");
    reveal_strlit("wordchar");
    lemma_words_nonempty(s, i, spellings(Keyword::Class(CharClass::Whitespace)));
    lemma_words_nonempty(s, i, spellings(Keyword::Class(CharClass::Alpha)));
    lemma_words_nonempty(s, i, spellings(Keyword::Class(CharClass::Digit)));
    lemma_words_nonempty(s, i, spellings(Keyword::Class(CharClass::AlphaNum)));
    lemma_words_nonempty(s, i, spellings(Keyword::Class(CharClass::Hex)));
    lemma_words_nonempty(s, i, spellings(Keyword::Class(CharClass::LowerCase)));
    lemma_words_nonempty(s, i, spellings(Keyword::Class(CharClass::UpperCase)));
    lemma_words_nonempty(s, i, spellings(Keyword::Class(CharClass::Word)));
}

/// Where every spelling is non-empty, so is the one that `first_word` picks.
proof fn lemma_words_nonempty(s: Seq<char>, i: int, ws: Seq<Seq<char>>)
    requires
        forall|k: int| 0 <= k < ws.len() ==> #[trigger] ws[k].len() > 0,
    ensures
        first_word(s, i, ws) matches Some(w) ==> w.len() > 0,
    decreases ws.len(),
{
    if ws.len() > 0 && !has_word(s, i, ws[0]) {
        assert forall|k: int| 0 <= k < ws.drop_first().len() implies #[trigger] ws.drop_first()[k].len() > 0 by {
            assert(ws.drop_first()[k] == ws[k + 1]);
        }
        lemma_words_nonempty(s, i, ws.drop_first());
    }
}

/// The atoms of a set at `i`.
fn atoms_from_pos(s: &Vec<char>, i: usize) -> (r: (Vec<Atom>, usize))
    requires
        i <= s.len(),
    ensures
        atoms_from(s@, i as int) == (atoms_view(r.0@), r.1 as int),
        i <= r.1 <= s.len(),
{
    let mut acc: Vec<Atom> = Vec::new();
    let mut pos = i;
    loop
        invariant
            i <= pos <= s.len(),
            atoms_from(s@, i as int) == (atoms_view(acc@) + atoms_from(s@, pos as int).0, atoms_from(
                s@,
                pos as int,
            ).1),
        decreases s.len() - pos,
    {
        let p = space_end_at(s, pos);
        if p == pos {
            assert(atoms_view(acc@) + Seq::<SpecAtom>::empty() =~= atoms_view(acc@));
            return (acc, pos);
        }
        match atom_at_pos(s, p) {
            None => {
                assert(atoms_view(acc@) + Seq::<SpecAtom>::empty() =~= atoms_view(acc@));
                return (acc, pos);
            },
            Some((a, q)) => {
                let ghost before = atoms_view(acc@);
                let ghost rest = atoms_from(s@, q as int);
                acc.push(a);
                assert(atoms_view(acc@) =~= before.push(a@));
                assert(before + (seq![a@] + rest.0) =~= atoms_view(acc@) + rest.0);
                pos = q;
            },
        }
    }
}

/// Optional whitespace and `)` at `i`.
fn close_at_pos(s: &Vec<char>, i: usize) -> (r: Option<usize>)
    requires
        i <= s.len(),
    ensures
        match r {
            Some(j) => close_at(s@, i as int) == Some(j as int) && i < j <= s.len(),
            None => close_at(s@, i as int) is None,
        },
{
    let j = space_end_at(s, i);
    if j < s.len() && s[j] == ')' {
        Some(j + 1)
    } else {
        None
    }
}

/// The head of a form at `i`.
fn head_at_pos(s: &Vec<char>, i: usize, f: Form) -> (r: Option<usize>)
    requires
        i <= s.len(),
    ensures
        match r {
            Some(j) => head_at(s@, i as int, f) == Some(j as int) && i < j <= s.len(),
            None => head_at(s@, i as int, f) is None,
        },
{
    if i < s.len() && s[i] == '(' {
        let p = space_end_at(s, i + 1);
        keyword_end_at(s, p, Keyword::Form(f))
    } else {
        None
    }
}

/// The text of a backreference at `i`.
fn reference_at_pos(s: &Vec<char>, i: usize) -> (r: Option<(String, usize)>)
    requires
        i <= s.len(),
    ensures
        match r {
            Some((t, j)) => reference_at(s@, i as int) == Some((t@, j as int)) && i < j <= s.len(),
            None => reference_at(s@, i as int) is None,
        },
{
    let j = digit_end_at(s, i);
    if j > i {
        Some((text_between(s, i, j), j))
    } else {
        quoted_at_pos(s, i)
    }
}

/// At least one whitespace character at `i`.
fn spaces1_at(s: &Vec<char>, i: usize) -> (r: Option<usize>)
    requires
        i <= s.len(),
    ensures
        match r {
            Some(j) => spaces1(s@, i as int) == Some(j as int) && i < j <= s.len(),
            None => spaces1(s@, i as int) is None,
        },
{
    let j = space_end_at(s, i);
    if j > i {
        Some(j)
    } else {
        None
    }
}

fn list_expr(f: Form, es: Vec<Expr>) -> (r: Expr)
    ensures
        r@ == list_node(f, exprs_view(&es)),
{
    match f {
        Form::Or => Expr::Or(es),
        Form::ZeroOrOne => Expr::ZeroOrOne(es),
        Form::ZeroOrMore => Expr::ZeroOrMore(es),
        Form::ZeroOrMoreReluctant => Expr::ZeroOrMoreReluctant(es),
        Form::OneOrMore => Expr::OneOrMore(es),
        Form::OneOrMoreReluctant => Expr::OneOrMoreReluctant(es),
        Form::Group => Expr::Group(es),
        _ => Expr::Sequence(es),
    }
}

fn counted_expr(f: Form, n: u32, es: Vec<Expr>) -> (r: Expr)
    ensures
        r@ == counted_node(f, n, exprs_view(&es)),
{
    match f {
        Form::AtLeast => Expr::AtLeast(n, es),
        Form::GroupN => Expr::GroupN(n, es),
        _ => Expr::Exactly(n, es),
    }
}

/// An expression at `i`.
fn expr_at_pos(s: &Vec<char>, i: usize) -> (r: Option<(Expr, usize)>)
    requires
        i <= s.len(),
    ensures
        step_view(r) == expr_at(s@, i as int),
        r matches Some((_, j)) ==> i < j <= s.len(),
    decreases s.len() - i, 3nat,
{
    if let Some(r) = form_at_pos(s, i, Form::Sequence) {
        return Some(r);
    }
    if let Some(r) = form_at_pos(s, i, Form::Or) {
        return Some(r);
    }
    if let Some(r) = form_at_pos(s, i, Form::ZeroOrOne) {
        return Some(r);
    }
    if let Some(r) = form_at_pos(s, i, Form::ZeroOrMore) {
        return Some(r);
    }
    if let Some(r) = form_at_pos(s, i, Form::ZeroOrMoreReluctant) {
        return Some(r);
    }
    if let Some(r) = form_at_pos(s, i, Form::OneOrMore) {
        return Some(r);
    }
    if let Some(r) = form_at_pos(s, i, Form::OneOrMoreReluctant) {
        return Some(r);
    }
    if let Some(r) = form_at_pos(s, i, Form::Exactly) {
        return Some(r);
    }
    if let Some(r) = form_at_pos(s, i, Form::AtLeast) {
        return Some(r);
    }
    if let Some(r) = form_at_pos(s, i, Form::Between) {
        return Some(r);
    }
    if let Some(r) = form_at_pos(s, i, Form::Not) {
        return Some(r);
    }
    if let Some(r) = form_at_pos(s, i, Form::Any) {
        return Some(r);
    }
    if let Some(r) = form_at_pos(s, i, Form::Assertion) {
        return Some(r);
    }
    if let Some(r) = form_at_pos(s, i, Form::Group) {
        return Some(r);
    }
    if let Some(r) = form_at_pos(s, i, Form::GroupN) {
        return Some(r);
    }
    if let Some(r) = form_at_pos(s, i, Form::BackRef) {
        return Some(r);
    }
    form_at_pos(s, i, Form::Atom)
}

/// One form at `i`.
fn form_at_pos(s: &Vec<char>, i: usize, f: Form) -> (r: Option<(Expr, usize)>)
    requires
        i <= s.len(),
    ensures
        step_view(r) == form_at(s@, i as int, f),
        r matches Some((_, j)) ==> i < j <= s.len(),
    decreases s.len() - i, 2nat,
{
    match f {
        Form::Assertion => {
            proof {
                lemma_assertion_at(s@, i as int);
            }
            match assertion_at_pos(s, i) {
                Some((a, j)) => Some((Expr::Assertion(a), j)),
                None => None,
            }
        },
        Form::Atom => match atom_at_pos(s, i) {
            Some((a, j)) => Some((Expr::Atom(a), j)),
            None => None,
        },
        _ => {
            let p = match head_at_pos(s, i, f) {
                None => return None,
                Some(p) => p,
            };
            match f {
                Form::Not => {
                    let q = match spaces1_at(s, p) {
                        None => return None,
                        Some(q) => q,
                    };
                    let (a, r) = match atom_at_pos(s, q) {
                        None => return None,
                        Some(x) => x,
                    };
                    match close_at_pos(s, r) {
                        None => None,
                        Some(t) => Some((Expr::Not(a), t)),
                    }
                },
                Form::Any => {
                    let (atoms, r) = atoms_from_pos(s, p);
                    if atoms.len() == 0 {
                        return None;
                    }
                    match close_at_pos(s, r) {
                        None => None,
                        Some(t) => Some((Expr::Any(atoms), t)),
                    }
                },
                Form::BackRef => {
                    let q = match spaces1_at(s, p) {
                        None => return None,
                        Some(q) => q,
                    };
                    let (text, r) = match reference_at_pos(s, q) {
                        None => return None,
                        Some(x) => x,
                    };
                    match close_at_pos(s, r) {
                        None => None,
                        Some(t) => Some((Expr::BackRef(text), t)),
                    }
                },
                Form::Exactly | Form::AtLeast | Form::GroupN => {
                    let q = match spaces1_at(s, p) {
                        None => return None,
                        Some(q) => q,
                    };
                    let (n, r) = match number_at_pos(s, q) {
                        None => return None,
                        Some(x) => x,
                    };
                    match operands_closed_pos(s, r) {
                        None => None,
                        Some((es, t)) => Some((counted_expr(f, n, es), t)),
                    }
                },
                Form::Between => {
                    let q = match spaces1_at(s, p) {
                        None => return None,
                        Some(q) => q,
                    };
                    let (n, r) = match number_at_pos(s, q) {
                        None => return None,
                        Some(x) => x,
                    };
                    let u = match spaces1_at(s, r) {
                        None => return None,
                        Some(u) => u,
                    };
                    let (m, v) = match number_at_pos(s, u) {
                        None => return None,
                        Some(x) => x,
                    };
                    match operands_closed_pos(s, v) {
                        None => None,
                        Some((es, t)) => Some((Expr::Between(n, m, es), t)),
                    }
                },
                _ => match operands_closed_pos(s, p) {
                    None => None,
                    Some((es, t)) => Some((list_expr(f, es), t)),
                },
            }
        },
    }
}

/// An assertion keyword takes at least one character.
proof fn lemma_assertion_at(s: Seq<char>, i: int)
    ensures
        assertion_at(s, i) matches Some((a, j)) ==> i < j,
{
    reveal_strlit("line-start");
    reveal_strlit("bol");
    reveal_strlit("line-end");
    reveal_strlit("eol");
    reveal_strlit("word-boundary");
    reveal_strlit("not-word-boundary");
    lemma_words_nonempty(s, i, spellings(Keyword::Assertion(Assertion::LineStart)));
    lemma_words_nonempty(s, i, spellings(Keyword::Assertion(Assertion::LineEnd)));
    lemma_words_nonempty(s, i, spellings(Keyword::Assertion(Assertion::WordBoundary)));
    lemma_words_nonempty(s, i, spellings(Keyword::Assertion(Assertion::NotWordBoundary)));
}

/// Operands and the closing parenthesis at `i`.
fn operands_closed_pos(s: &Vec<char>, i: usize) -> (r: Option<(Vec<Expr>, usize)>)
    requires
        i <= s.len(),
    ensures
        match r {
            Some((es, j)) => operands_closed(s@, i as int) == Some((exprs_view(&es), j as int))
                && i < j <= s.len(),
            None => operands_closed(s@, i as int) is None,
        },
    decreases s.len() - i, 1nat,
{
    let (es, r) = operands_from_pos(s, i);
    if es.len() == 0 {
        return None;
    }
    match close_at_pos(s, r) {
        None => None,
        Some(t) => Some((es, t)),
    }
}

/// The operands at `i`, as many as there are.
fn operands_from_pos(s: &Vec<char>, i: usize) -> (r: (Vec<Expr>, usize))
    requires
        i <= s.len(),
    ensures
        operands_from(s@, i as int) == (exprs_view(&r.0), r.1 as int),
        i <= r.1 <= s.len(),
        r.0.len() == 0 <==> r.1 == i,
    decreases s.len() - i, 0nat,
{
    let mut acc: Vec<Expr> = Vec::new();
    let mut pos = i;
    loop
        invariant
            i <= pos <= s.len(),
            acc.len() == 0 <==> pos == i,
            operands_from(s@, i as int) == (exprs_view(&acc) + operands_from(s@, pos as int).0, operands_from(
                s@,
                pos as int,
            ).1),
        decreases s.len() - pos,
    {
        let p = space_end_at(s, pos);
        if p == pos {
            assert(exprs_view(&acc) + Seq::<SpecExpr>::empty() =~= exprs_view(&acc));
            return (acc, pos);
        }
        match expr_at_pos(s, p) {
            None => {
                assert(exprs_view(&acc) + Seq::<SpecExpr>::empty() =~= exprs_view(&acc));
                return (acc, pos);
            },
            Some((e, q)) => {
                let ghost before = exprs_view(&acc);
                let ghost rest = operands_from(s@, q as int);
                acc.push(e);
                assert(exprs_view(&acc) =~= before.push(e@));
                assert(before + (seq![e@] + rest.0) =~= exprs_view(&acc) + rest.0);
                pos = q;
            },
        }
    }
}

/// The characters of a text.
fn chars_of(text: &str) -> (r: Vec<char>)
    ensures
        r@ == text@,
{
    let n = text.unicode_len();
    let mut v: Vec<char> = Vec::new();
    let mut k: usize = 0;
    while k < n
        invariant
            n == text@.len(),
            k <= n,
            v@ == text@.take(k as int),
        decreases n - k,
    {
        v.push(text.get_char(k));
        k += 1;
        assert(v@ =~= text@.take(k as int));
    }
    assert(text@.take(n as int) =~= text@);
    v
}

/// Parses a whole description into its expression. Fails unless one
/// expression takes all of the text.
pub fn parse(input: &str) -> (r: Result<Expr, ParseError>)
    ensures
        match r {
            Ok(e) => spec_parse(input@) == Some(e@),
            Err(_) => spec_parse(input@) is None,
        },
{
    let s = chars_of(input);
    match expr_at_pos(&s, 0) {
        Some((e, j)) => {
            if j == s.len() {
                Ok(e)
            } else {
                Err(ParseError {})
            }
        },
        None => Err(ParseError {}),
    }
}

} // verus!
