use zielisp::reader::{is_arg, parse_arg, parse_sexpr, parse_sexpr_checked, ErrorKind};
use zielisp::sexpr::SExpr;

fn sym(s: &str) -> SExpr {
    SExpr::SSym(s.to_string())
}

fn num(s: &str) -> SExpr {
    SExpr::SNum(s.to_string())
}

fn list(v: Vec<SExpr>) -> SExpr {
    SExpr::SList(Box::new(v))
}

#[test]
fn reads_nested_application() {
    let (rest, e) = parse_sexpr("((|x| (+ x 1)) (+ 10 10))").unwrap();
    assert_eq!(rest, "");
    assert_eq!(
        e,
        list(vec![
            list(vec![sym("|x|"), list(vec![sym("+"), sym("x"), num("1")])]),
            list(vec![sym("+"), num("10"), num("10")]),
        ])
    );
}

#[test]
fn reads_number_and_leaves_the_rest() {
    let (rest, e) = parse_sexpr("42abc").unwrap();
    assert_eq!(rest, "abc");
    assert_eq!(e, num("42"));
    let (rest, e) = parse_sexpr("007").unwrap();
    assert_eq!(rest, "");
    assert_eq!(e, num("007"));
}

#[test]
fn reads_bare_string() {
    let (rest, e) = parse_sexpr("\"hello\" rest").unwrap();
    assert_eq!(rest, " rest");
    assert_eq!(e, sym("hello"));
}

#[test]
fn blanks_before_the_closing_parenthesis_add_nothing() {
    let (rest, e) = parse_sexpr("(+ 2 2      )").unwrap();
    assert_eq!(rest, "");
    assert_eq!(e, list(vec![sym("+"), num("2"), num("2")]));
    let (rest, e) = parse_sexpr("(+ 2 2 )").unwrap();
    assert_eq!(rest, "");
    assert_eq!(e, list(vec![sym("+"), num("2"), num("2")]));
    let (rest, e) = parse_sexpr("((+ 1 \t) 2\t )z").unwrap();
    assert_eq!(rest, "z");
    assert_eq!(e, list(vec![list(vec![sym("+"), num("1")]), num("2")]));
}

#[test]
fn trailing_blanks_without_parenthesis_still_fail() {
    let err = parse_sexpr("(+ 2 2   ").unwrap_err();
    assert_eq!(err.input, "");
    assert_eq!(err.code, ErrorKind::Tag);
    let err = parse_sexpr("(+ 2 2   x").unwrap_err();
    assert_eq!(err.input, "");
    assert_eq!(err.code, ErrorKind::Tag);
}

#[test]
fn tabs_separate_and_a_leading_blank_gives_an_empty_symbol() {
    let (rest, e) = parse_sexpr("(\t+\t1 2)x").unwrap();
    assert_eq!(rest, "x");
    assert_eq!(e, list(vec![sym(""), sym("+"), num("1"), num("2")]));
}

#[test]
fn empty_list_reads_one_empty_symbol() {
    let (rest, e) = parse_sexpr("()").unwrap();
    assert_eq!(rest, "");
    assert_eq!(e, list(vec![sym("")]));
}

#[test]
fn unicode_letters_are_symbol_characters() {
    let (rest, e) = parse_sexpr("(é 1)").unwrap();
    assert_eq!(rest, "");
    assert_eq!(e, list(vec![sym("é"), num("1")]));
}

#[test]
fn a_symbol_alone_is_not_an_sexpression() {
    let err = parse_sexpr("abc").unwrap_err();
    assert_eq!(err.input, "abc");
    assert_eq!(err.code, ErrorKind::Tag);
}

#[test]
fn unclosed_list_fails_where_the_parenthesis_is_missing() {
    let err = parse_sexpr("(+ 1 2").unwrap_err();
    assert_eq!(err.input, "");
    assert_eq!(err.code, ErrorKind::Tag);
    let err = parse_sexpr("(").unwrap_err();
    assert_eq!(err.input, "");
    assert_eq!(err.code, ErrorKind::Tag);
    let err = parse_sexpr("((+ 1) 2").unwrap_err();
    assert_eq!(err.input, "");
    assert_eq!(err.code, ErrorKind::Tag);
}

#[test]
fn unclosed_bare_string_reports_the_last_alternative() {
    let err = parse_sexpr("\"ab").unwrap_err();
    assert_eq!(err.input, "\"ab");
    assert_eq!(err.code, ErrorKind::Tag);
}

#[test]
fn numeral_with_underscore_has_no_value() {
    assert!(parse_sexpr_checked("1_000").is_none());
    assert!(parse_sexpr_checked("(+ 1_0 2)").is_none());
    assert!(parse_sexpr_checked("(+ 10 2)").is_some());
    assert!(parse_sexpr_checked("(+ 1_0 )").is_none());
}

#[test]
fn lambda_arguments() {
    assert!(is_arg("|x|"));
    assert_eq!(parse_arg("|x|"), "x");
    assert!(!is_arg("|ab|c"));
    assert_eq!(parse_arg("|ab|c"), "ab");
    assert_eq!(parse_arg("|Hello|"), "Hello");
}
