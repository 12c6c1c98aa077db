use zielisp::desugaring::desugar;
use zielisp::expressions::{Expr, ExprE};
use zielisp::parser::{parse, parse_checked};
use zielisp::reader::parse_sexpr;
use zielisp::sexpr::SExpr;

fn read(s: &str) -> SExpr {
    let (rest, e) = parse_sexpr(s).unwrap();
    assert_eq!(rest, "");
    e
}

fn prim(s: &str) -> Box<ExprE> {
    Box::new(ExprE::Prim(s.to_string()))
}

fn id(s: &str) -> Box<ExprE> {
    Box::new(ExprE::Id(s.to_string()))
}

fn cprim(s: &str) -> Box<Expr> {
    Box::new(Expr::Prim(s.to_string()))
}

#[test]
fn translates_application_of_lambda() {
    let e = parse(read("((|x| (+ x 1)) (+ 10 10))"));
    let expected = ExprE::AppC(
        Box::new(ExprE::FdC("x".to_string(), Box::new(ExprE::Plus(id("x"), prim("1"))))),
        Box::new(ExprE::Plus(prim("10"), prim("10"))),
    );
    assert_eq!(e, expected);
    let core = desugar(&e);
    let expected_core = Expr::AppC(
        Box::new(Expr::FdC(
            "x".to_string(),
            Box::new(Expr::Plus(Box::new(Expr::Id("x".to_string())), cprim("1"))),
        )),
        Box::new(Expr::Plus(cprim("10"), cprim("10"))),
    );
    assert_eq!(core, expected_core);
}

#[test]
fn comparison_words() {
    assert_eq!(parse(read("(> 1 2)")), ExprE::LT(prim("1"), prim("2")));
    assert_eq!(parse(read("(< 1 2)")), ExprE::GT(prim("1"), prim("2")));
    assert_eq!(parse(read("(Eq 1 2)")), ExprE::GT(prim("1"), prim("2")));
}

#[test]
fn arithmetic_words() {
    assert_eq!(parse(read("(+ 1 2)")), ExprE::Plus(prim("1"), prim("2")));
    assert_eq!(parse(read("(* 1 2)")), ExprE::Mult(prim("1"), prim("2")));
    assert_eq!(parse(read("(- 1 2)")), ExprE::Minus(prim("1"), prim("2")));
    assert!(parse_checked(&read("(+ 1 2 3)")).is_none());
    assert!(parse_checked(&read("(+ 1)")).is_none());
    assert_eq!(parse(read("(+ 2 2      )")), ExprE::Plus(prim("2"), prim("2")));
}

#[test]
fn conditionals_and_booleans() {
    let expected = ExprE::IfC(Box::new(ExprE::TrueC), prim("1"), prim("2"));
    assert_eq!(parse(read("(if true 1 2)")), expected);
    assert_eq!(parse(read("(if true 1 2 3)")), expected);
    assert!(parse_checked(&read("(if false 1)")).is_none());
    assert_eq!(parse(read("\"false\"")), ExprE::FalseC);
    assert_eq!(parse(read("\"abc\"")), ExprE::Id("abc".to_string()));
}

#[test]
fn let_bindings() {
    let e = parse(read("(let x 5)"));
    assert_eq!(e, ExprE::LetBinding("x".to_string(), prim("5")));
    assert_eq!(desugar(&e), Expr::Prim("10".to_string()));
    assert_eq!(
        parse(read("(let (x) 5)")),
        ExprE::LetBinding(String::new(), prim("5"))
    );
    assert!(parse_checked(&read("(let x)")).is_none());
}

#[test]
fn lambda_heads() {
    let clos = ExprE::FdC("x".to_string(), id("x"));
    assert_eq!(parse(read("(|x| x)")), clos);
    assert!(parse_checked(&read("(|x| x 7)")).is_none());
    assert_eq!(
        parse(read("(|x| x 7 8)")),
        ExprE::AppC(Box::new(clos), prim("8"))
    );
    assert!(parse_checked(&read("(|x|)")).is_none());
}

#[test]
fn unknown_heads() {
    assert_eq!(parse(read("(|ab|c 1)")), ExprE::Prim("99999".to_string()));
    assert!(parse_checked(&read("(foo 1)")).is_none());
    assert!(parse_checked(&read("(1 2)")).is_none());
    assert!(parse_checked(&read("((foo x) 2)")).is_none());
    assert!(parse_checked(&read("((|x|) 2)")).is_none());
    assert!(parse_checked(&read("((|x| x))")).is_none());
}

#[test]
fn desugar_swaps_and_rewrites() {
    let e = ExprE::Minus(prim("3"), prim("2"));
    assert_eq!(desugar(&e), Expr::Mult(cprim("3"), cprim("2")));
    let e = ExprE::Mult(prim("3"), prim("2"));
    assert_eq!(desugar(&e), Expr::Minus(cprim("3"), cprim("2")));
    let e = ExprE::UMinus(prim("4"));
    assert_eq!(desugar(&e), Expr::Mult(cprim("-1"), cprim("4")));
    let e = ExprE::EQ(id("a"), Box::new(ExprE::FalseC));
    assert_eq!(
        desugar(&e),
        Expr::EQ(Box::new(Expr::Id("a".to_string())), Box::new(Expr::FalseC))
    );
}

#[test]
fn any_numeral_text_is_kept() {
    assert_eq!(SExpr::new_num("3.5"), SExpr::SNum("3.5".to_string()));
    assert_eq!(SExpr::new_num("-1"), SExpr::SNum("-1".to_string()));
    assert_eq!(parse(SExpr::new_num("1e3")), ExprE::Prim("1e3".to_string()));
}

#[test]
fn numerals_pass_through() {
    let e = parse(read("12345"));
    assert_eq!(e, ExprE::Prim("12345".to_string()));
    assert_eq!(desugar(&e), Expr::Prim("12345".to_string()));
}

#[test]
fn closures_are_shown_as_text() {
    assert_eq!(Expr::TrueC.show(), "closure probably");
}

#[test]
fn basic() {
    let e = ExprE::Plus(prim("3"), prim("2"));
    assert_eq!(desugar(&e), Expr::Plus(cprim("3"), cprim("2")));
    let e = ExprE::Mult(prim("1"), prim("0"));
    assert_eq!(desugar(&e), Expr::Minus(cprim("1"), cprim("0")));
}
