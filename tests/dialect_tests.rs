use rx::expr::{Assertion, Atom, CharClass, Expr};
use rx::output::debug::DebugOutput;
use rx::output::javascript::JavascriptOutput;
use rx::output::pcre::PCREOutput;
use rx::output::pcre2::PCRE2Output;
use rx::output::{Output, OutputError};
use rx::parser::parse;
use rx::{convert, Error};

fn pcre(input: &str) -> Result<String, Error> {
    convert(input, &PCREOutput::default())
}

fn js(input: &str) -> Result<String, Error> {
    convert(input, &JavascriptOutput::default())
}

#[test]
fn rendering_twice_gives_identical_text() {
    let expr = parse("(seq bol (1+ digit) (or \"a\" (group lower)) eol)").unwrap();
    let first = PCREOutput {}.output(&expr).unwrap();
    let second = PCREOutput {}.output(&expr).unwrap();
    assert_eq!(first, second);
    assert_eq!(first, "^(?:[\\d]+)(?:a|([a-z]))$");
    let js_first = JavascriptOutput {}.output(&expr).unwrap();
    let js_second = JavascriptOutput {}.output(&expr).unwrap();
    assert_eq!(js_first, js_second);
}

#[test]
fn single_alternative_renders_as_operand() {
    assert_eq!(pcre("(or (0+ f g))").unwrap(), pcre("(0+ f g)").unwrap());
    assert_eq!(pcre("(| digit)").unwrap(), "[\\d]");
}

#[test]
fn single_atom_quantifiers_have_no_group() {
    assert_eq!(pcre("(1+ \"foo\")").unwrap(), "foo+");
    assert_eq!(pcre("(* digit)").unwrap(), "[\\d]*");
    assert_eq!(pcre("(+? f)").unwrap(), "f+?");
    assert_eq!(pcre("(opt f)").unwrap(), "f?");
    assert_eq!(js("(zero-or-more f)").unwrap(), "f*");
}

#[test]
fn single_composite_operand_is_grouped() {
    assert_eq!(pcre("(0+ (or a b))").unwrap(), "(?:a|b)*");
    assert_eq!(pcre("(opt (seq a b))").unwrap(), "(?:ab)?");
}

#[test]
fn multi_operand_quantifiers_are_grouped() {
    assert_eq!(pcre("(zero-or-one f g)").unwrap(), "(?:fg)?");
    assert_eq!(pcre("(one-or-more a digit)").unwrap(), "(?:a[\\d])+");
    assert_eq!(js("(*? a b c)").unwrap(), "(?:abc)*?");
    assert_eq!(pcre("(>= 3 (or a b) c)").unwrap(), "(?:a|bc){3,}");
    assert_eq!(pcre("(0+ (or a b) c)").unwrap(), "(?:a|bc)*");
    assert_eq!(js("(+? (or a b) c)").unwrap(), "(?:a|bc)+?");
    assert_eq!(js("(** 1 2 (or a b) c)").unwrap(), "(?:a|bc){1,2}");
}

#[test]
fn alternation_joins_every_operand() {
    assert_eq!(pcre("(or a b c)").unwrap(), "a|b|c");
    assert_eq!(js("(or a b c)").unwrap(), "a|b|c");
}

#[test]
fn javascript_rejects_numbered_groups() {
    assert_eq!(
        js("(group-n 5 lower)"),
        Err(Error::Output(OutputError::FeatureNotSupported("named capture groups")))
    );
    assert!(js("(seq a (submatch-n 1 b))").is_err());
}

#[test]
fn javascript_rejects_named_backrefs() {
    assert_eq!(
        js("(backref \"name\")"),
        Err(Error::Output(OutputError::FeatureNotSupported("non-numerical backrefs")))
    );
    assert_eq!(
        js("(backref \"1a\")"),
        Err(Error::Output(OutputError::FeatureNotSupported("non-numerical backrefs")))
    );
    assert_eq!(js("(backref 12)").unwrap(), "\\12");
    assert_eq!(js("(backref \"7\")").unwrap(), "\\7");
}

#[test]
fn javascript_renders_groups_and_sets() {
    assert_eq!(js("(group a (any digit \"_\"))").unwrap(), "(a[\\d_])");
    assert_eq!(js("(group (or a b) c)").unwrap(), "(a|bc)");
    assert_eq!(js("(not upper)").unwrap(), "[^A-Z]");
}

#[test]
fn pcre2_renders_numbered_groups_and_named_backrefs() {
    let out = PCRE2Output::default();
    assert_eq!(convert("(group-n 12 a)", &out).unwrap(), "(?<n12>a)");
    assert_eq!(convert("(backref \"word\")", &out).unwrap(), "\\k<word>");
    assert_eq!(convert("(group-n 5 (or a b) c)", &out).unwrap(), "(?<n5>a|bc)");
    assert_eq!(pcre("(backref \"word\")").unwrap(), "\\k<word>");
}

#[test]
fn counted_repetition_numbers() {
    assert_eq!(pcre("(= 0 f)").unwrap(), "(?:f){0}");
    assert_eq!(pcre("(= 4294967295 f)").unwrap(), "(?:f){4294967295}");
    assert_eq!(pcre("(** 5 2 f)").unwrap(), "(?:f){5,2}");
    assert_eq!(pcre("(= 007 f)").unwrap(), "(?:f){7}");
}

#[test]
fn oversized_count_fails_to_parse() {
    assert_eq!(pcre("(= 4294967296 f)"), Err(Error::ParseFailed));
}

#[test]
fn malformed_input_fails_to_parse() {
    assert_eq!(pcre("(seq a b"), Err(Error::ParseFailed));
    assert_eq!(pcre("(seq a b))"), Err(Error::ParseFailed));
    assert_eq!(pcre("ab"), Err(Error::ParseFailed));
    assert_eq!(pcre(""), Err(Error::ParseFailed));
    assert_eq!(pcre("(seq)"), Err(Error::ParseFailed));
    assert_eq!(pcre("\"\""), Err(Error::ParseFailed));
    assert_eq!(pcre("\"a\\nb\""), Err(Error::ParseFailed));
}

#[test]
fn first_matching_spelling_wins() {
    assert_eq!(pcre("(optional f)"), Err(Error::ParseFailed));
    assert_eq!(pcre("(sequence a)"), Err(Error::ParseFailed));
    assert_eq!(pcre("alphabetic"), Err(Error::ParseFailed));
    assert_eq!(pcre("(and a b)").unwrap(), "ab");
}

#[test]
fn whitespace_separators() {
    assert_eq!(pcre("(seq\ta\nb\r\n  c)").unwrap(), "abc");
    assert_eq!(pcre("(  seq a)").unwrap(), "a");
}

#[test]
fn escapes_in_strings_are_kept() {
    assert_eq!(pcre("\"a\\\"b\"").unwrap(), "a\\\"b");
    assert_eq!(pcre("\"a\\\\b\"").unwrap(), "a\\\\b");
}

#[test]
fn class_spellings() {
    assert_eq!(pcre("white").unwrap(), "[\\s]");
    assert_eq!(pcre("letter").unwrap(), "[a-zA-Z]");
    assert_eq!(pcre("numeric").unwrap(), "[\\d]");
    assert_eq!(pcre("xdigit").unwrap(), "[0-9a-fA-F]");
    assert_eq!(pcre("word").unwrap(), "[\\w]");
    assert_eq!(pcre("(seq line-start a line-end)").unwrap(), "^a$");
}

#[test]
fn parse_builds_the_tree() {
    let expr = parse("(seq bol (in digit x))").unwrap();
    match expr {
        Expr::Sequence(es) => {
            assert_eq!(es.len(), 2);
            assert!(matches!(es[0], Expr::Assertion(Assertion::LineStart)));
            match &es[1] {
                Expr::Any(atoms) => {
                    assert!(matches!(atoms[0], Atom::CharClass(CharClass::Digit)));
                    assert!(matches!(atoms[1], Atom::Char('x')));
                }
                _ => panic!("expected a set"),
            }
        }
        _ => panic!("expected a sequence"),
    }
}

#[test]
fn debug_dump() {
    let out = DebugOutput::default();
    assert_eq!(
        convert("(seq a \"bc\" (= 2 digit))", &out).unwrap(),
        "Sequence([Atom(Char('a')), Atom(String(\"bc\")), Exactly(2, [Atom(CharClass(Digit))])])"
    );
    assert_eq!(
        convert("(** 1 3 (any a lower))", &out).unwrap(),
        "Between(1, 3, [Any([Char('a'), CharClass(LowerCase)])])"
    );
    assert_eq!(
        convert("(group-n 5 (backref \"x\") eol)", &out).unwrap(),
        "GroupN(5, [BackRef(\"x\"), Assertion(LineEnd)])"
    );
}

#[test]
fn error_messages() {
    assert_eq!(Error::ParseFailed.message(), "Failed to parse input");
    assert_eq!(
        js("(group-n 1 a)").unwrap_err().message(),
        "feature is not supported by output format: named capture groups"
    );
    assert_eq!(
        OutputError::FeatureNotSupported("non-numerical backrefs").message(),
        "feature is not supported by output format: non-numerical backrefs"
    );
}
