//! Translation of S-expressions into the surface language.
//!
//! A list is read by its head:
//! - `>`, `<`, `Eq`, `+`, `*`, `-` with exactly two operands build `LT`,
//!   `GT`, `GT`, `Plus`, `Mult` and `Minus`;
//! - `if` with three operands or more builds `IfC` from the first three;
//! - `let` with two operands or more builds a `LetBinding` named by the
//!   first operand (when it is a symbol; else with an empty name) and bound
//!   to the second;
//! - a lambda argument `|x|` with a body builds `FdC`; when further elements
//!   follow, the element after the body is skipped and the next one is the
//!   argument of an application `AppC`;
//! - any other symbol that starts with a lambda argument stands for the
//!   number `99999`;
//! - a list `(|x| body)` followed by an argument builds an application of
//!   that function to the argument.
//! Every other list has no translation.

use vstd::prelude::*;

use crate::expressions::{ExprE, SpecExprE};
use crate::reader::{is_lambda_arg, lemma_arg_shape, parse_args_helper, read_arg, SpecArg};
use crate::sexpr::{lemma_models, models, SExpr, SpecSExpr};
use crate::text::same_text;

verus! {

/// The binary forms of the surface language that a list head can ask for.
#[derive(Clone, Copy, Debug, PartialEq, Eq, Structural)]
pub enum BinOp {
    Lt,
    Gt,
    Plus,
    Mult,
    Minus,
}

/// The binary form that a head word asks for, if any.
pub open spec fn binary_head(w: Seq<char>) -> Option<BinOp> {
    if w == seq!['>'] {
        Some(BinOp::Lt)
    } else if w == seq!['<'] {
        Some(BinOp::Gt)
    } else if w == seq!['E', 'q'] {
        Some(BinOp::Gt)
    } else if w == seq!['+'] {
        Some(BinOp::Plus)
    } else if w == seq!['*'] {
        Some(BinOp::Mult)
    } else if w == seq!['-'] {
        Some(BinOp::Minus)
    } else {
        None
    }
}

pub open spec fn binary_form(op: BinOp, a: SpecExprE, b: SpecExprE) -> SpecExprE {
    match op {
        BinOp::Lt => SpecExprE::LT(Box::new(a), Box::new(b)),
        BinOp::Gt => SpecExprE::GT(Box::new(a), Box::new(b)),
        BinOp::Plus => SpecExprE::Plus(Box::new(a), Box::new(b)),
        BinOp::Mult => SpecExprE::Mult(Box::new(a), Box::new(b)),
        BinOp::Minus => SpecExprE::Minus(Box::new(a), Box::new(b)),
    }
}

pub open spec fn if_word() -> Seq<char> {
    seq!['i', 'f']
}

pub open spec fn let_word() -> Seq<char> {
    seq!['l', 'e', 't']
}

pub open spec fn true_word() -> Seq<char> {
    seq!['t', 'r', 'u', 'e']
}

pub open spec fn false_word() -> Seq<char> {
    seq!['f', 'a', 'l', 's', 'e']
}

/// The numeral that a list headed by an unknown word stands for.
pub open spec fn unknown_head_numeral() -> Seq<char> {
    seq!['9', '9', '9', '9', '9']
}

/// The surface expression that an S-expression translates to; `None` where
/// it has no translation.
pub open spec fn to_surface(e: SpecSExpr) -> Option<SpecExprE>
    decreases e,
{
    match e {
        SpecSExpr::Sym(s) => if s == true_word() {
            Some(SpecExprE::TrueC)
        } else if s == false_word() {
            Some(SpecExprE::FalseC)
        } else {
            Some(SpecExprE::Id(s))
        },
        SpecSExpr::Num(x) => Some(SpecExprE::Prim(x)),
        SpecSExpr::List(xs) => list_to_surface(xs),
    }
}

/// The surface expression that a list with elements `xs` translates to.
pub open spec fn list_to_surface(xs: Seq<SpecSExpr>) -> Option<SpecExprE>
    decreases xs,
{
    if xs.len() == 0 {
        None
    } else {
        match xs[0] {
            SpecSExpr::Sym(w) => if binary_head(w) is Some {
                if xs.len() == 3 {
                    match (to_surface(xs[1]), to_surface(xs[2])) {
                        (Some(a), Some(b)) => Some(binary_form(binary_head(w)->0, a, b)),
                        _ => None,
                    }
                } else {
                    None
                }
            } else if w == if_word() {
                if xs.len() >= 4 {
                    match (to_surface(xs[1]), to_surface(xs[2]), to_surface(xs[3])) {
                        (Some(c), Some(t), Some(f)) => Some(
                            SpecExprE::IfC(Box::new(c), Box::new(t), Box::new(f)),
                        ),
                        _ => None,
                    }
                } else {
                    None
                }
            } else if w == let_word() {
                if xs.len() >= 3 {
                    let name = match xs[1] {
                        SpecSExpr::Sym(n) => n,
                        _ => Seq::empty(),
                    };
                    match to_surface(xs[2]) {
                        Some(v) => Some(SpecExprE::LetBinding(name, Box::new(v))),
                        None => None,
                    }
                } else {
                    None
                }
            } else {
                match read_arg(w) {
                    SpecArg::Fail(_, _) => None,
                    SpecArg::Arg(name, q) => if q == w.len() {
                        if xs.len() >= 2 {
                            match to_surface(xs[1]) {
                                Some(body) => {
                                    let clos = SpecExprE::FdC(name, Box::new(body));
                                    if xs.len() == 2 {
                                        Some(clos)
                                    } else if xs.len() >= 4 {
                                        match to_surface(xs[3]) {
                                            Some(arg) => Some(
                                                SpecExprE::AppC(Box::new(clos), Box::new(arg)),
                                            ),
                                            None => None,
                                        }
                                    } else {
                                        None
                                    }
                                },
                                None => None,
                            }
                        } else {
                            None
                        }
                    } else {
                        Some(SpecExprE::Prim(unknown_head_numeral()))
                    },
                }
            },
            SpecSExpr::List(ys) => if ys.len() >= 2 && xs.len() >= 2 {
                match ys[0] {
                    SpecSExpr::Sym(w) => if is_lambda_arg(w) {
                        match (to_surface(ys[1]), to_surface(xs[1])) {
                            (Some(body), Some(arg)) => Some(
                                SpecExprE::AppC(
                                    Box::new(SpecExprE::FdC(read_arg(w)->Arg_0, Box::new(body))),
                                    Box::new(arg),
                                ),
                            ),
                            _ => None,
                        }
                    } else {
                        None
                    },
                    _ => None,
                }
            } else {
                None
            },
            SpecSExpr::Num(_) => None,
        }
    }
}

/// The model of a translation that may be missing.
pub open spec fn surface_model(r: Option<ExprE>) -> Option<SpecExprE> {
    match r {
        Some(e) => Some(e@),
        None => None,
    }
}

fn binary_head_of(w: &str) -> (r: Option<BinOp>)
    ensures
        r == binary_head(w@),
{
    proof {
        reveal_strlit(">");
        reveal_strlit("<");
        reveal_strlit("Eq");
        reveal_strlit("+");
        reveal_strlit("*");
        reveal_strlit("-");
        assert(">"@ =~= seq!['>']);
        assert("<"@ =~= seq!['<']);
        assert("Eq"@ =~= seq!['E', 'q']);
        assert("+"@ =~= seq!['+']);
        assert("*"@ =~= seq!['*']);
        assert("-"@ =~= seq!['-']);
    }
    if same_text(w, ">") {
        Some(BinOp::Lt)
    } else if same_text(w, "<") {
        Some(BinOp::Gt)
    } else if same_text(w, "Eq") {
        Some(BinOp::Gt)
    } else if same_text(w, "+") {
        Some(BinOp::Plus)
    } else if same_text(w, "*") {
        Some(BinOp::Mult)
    } else if same_text(w, "-") {
        Some(BinOp::Minus)
    } else {
        None
    }
}

fn make_binary(op: BinOp, a: ExprE, b: ExprE) -> (r: ExprE)
    ensures
        r@ == binary_form(op, a@, b@),
{
    match op {
        BinOp::Lt => ExprE::LT(Box::new(a), Box::new(b)),
        BinOp::Gt => ExprE::GT(Box::new(a), Box::new(b)),
        BinOp::Plus => ExprE::Plus(Box::new(a), Box::new(b)),
        BinOp::Mult => ExprE::Mult(Box::new(a), Box::new(b)),
        BinOp::Minus => ExprE::Minus(Box::new(a), Box::new(b)),
    }
}

/// Translates an S-expression into the surface language; `None` where it
/// has no translation.
pub fn parse_checked(e: &SExpr) -> (r: Option<ExprE>)
    ensures
        surface_model(r) == to_surface(e@),
    decreases e,
{
    match e {
        SExpr::SSym(s) => {
            proof {
                reveal_strlit("true");
                reveal_strlit("false");
                assert("true"@ =~= true_word());
                assert("false"@ =~= false_word());
            }
            if same_text(s.as_str(), "true") {
                Some(ExprE::TrueC)
            } else if same_text(s.as_str(), "false") {
                Some(ExprE::FalseC)
            } else {
                Some(ExprE::Id(s.clone()))
            }
        },
        SExpr::SNum(x) => Some(ExprE::Prim(x.clone())),
        SExpr::SList(xs) => parse_helper(xs),
    }
}

/// Translates a list with elements `xs` into the surface language; `None`
/// where it has no translation.
fn parse_helper(xs: &Vec<SExpr>) -> (r: Option<ExprE>)
    ensures
        surface_model(r) == list_to_surface(models(xs@)),
    decreases xs,
{
    proof {
        lemma_models(xs@);
    }
    let n = xs.len();
    if n == 0 {
        return None;
    }
    match &xs[0] {
        SExpr::SSym(s) => {
            let w = s.as_str();
            if let Some(op) = binary_head_of(w) {
                if n != 3 {
                    return None;
                }
                let a = match parse_checked(&xs[1]) {
                    Some(a) => a,
                    None => return None,
                };
                let b = match parse_checked(&xs[2]) {
                    Some(b) => b,
                    None => return None,
                };
                return Some(make_binary(op, a, b));
            }
            proof {
                reveal_strlit("if");
                reveal_strlit("let");
                assert("if"@ =~= if_word());
                assert("let"@ =~= let_word());
            }
            if same_text(w, "if") {
                if n < 4 {
                    return None;
                }
                let c = match parse_checked(&xs[1]) {
                    Some(c) => c,
                    None => return None,
                };
                let t = match parse_checked(&xs[2]) {
                    Some(t) => t,
                    None => return None,
                };
                let f = match parse_checked(&xs[3]) {
                    Some(f) => f,
                    None => return None,
                };
                return Some(ExprE::IfC(Box::new(c), Box::new(t), Box::new(f)));
            }
            if same_text(w, "let") {
                if n < 3 {
                    return None;
                }
                let name = match &xs[1] {
                    SExpr::SSym(nm) => nm.clone(),
                    _ => String::new(),
                };
                return match parse_checked(&xs[2]) {
                    Some(v) => Some(ExprE::LetBinding(name, Box::new(v))),
                    None => None,
                };
            }
            match parse_args_helper(w) {
                Err(_) => None,
                Ok((rest, name)) => {
                    proof {
                        lemma_arg_shape(w@);
                    }
                    if rest.unicode_len() != 0 {
                        let unknown = String::from_str("99999");
                        proof {
                            reveal_strlit("99999");
                        }
                        assert(unknown@ == unknown_head_numeral());
                        return Some(ExprE::Prim(unknown));
                    }
                    if n < 2 {
                        return None;
                    }
                    let body = match parse_checked(&xs[1]) {
                        Some(b) => b,
                        None => return None,
                    };
                    let clos = ExprE::FdC(name.to_owned(), Box::new(body));
                    if n == 2 {
                        return Some(clos);
                    }
                    if n < 4 {
                        return None;
                    }
                    let arg = match parse_checked(&xs[3]) {
                        Some(a) => a,
                        None => return None,
                    };
                    let app = ExprE::AppC(Box::new(clos), Box::new(arg));
                    assert(app@ == SpecExprE::AppC(Box::new(clos@), Box::new(arg@)));
                    Some(app)
                },
            }
        },
        SExpr::SList(ys) => {
            proof {
                lemma_models(ys@);
            }
            if ys.len() < 2 || n < 2 {
                return None;
            }
            match &ys[0] {
                SExpr::SSym(w) => {
                    proof {
                        lemma_arg_shape(w@);
                    }
                    match parse_args_helper(w.as_str()) {
                        Err(_) => None,
                        Ok((rest, name)) => {
                            if rest.unicode_len() != 0 {
                                return None;
                            }
                            let body = match parse_checked(&ys[1]) {
                                Some(b) => b,
                                None => return None,
                            };
                            let arg = match parse_checked(&xs[1]) {
                                Some(a) => a,
                                None => return None,
                            };
                            let fun = ExprE::FdC(name.to_owned(), Box::new(body));
                            assert(fun@ == SpecExprE::FdC(name@, Box::new(body@)));
                            let app = ExprE::AppC(Box::new(fun), Box::new(arg));
                            assert(app@ == SpecExprE::AppC(Box::new(fun@), Box::new(arg@)));
                            Some(app)
                        },
                    }
                },
                _ => None,
            }
        },
        SExpr::SNum(_) => None,
    }
}

/// Translates an S-expression into the surface language.
pub fn parse(inp: SExpr) -> (r: ExprE)
    requires
        to_surface(inp@) is Some,
    ensures
        Some(r@) == to_surface(inp@),
{
    match parse_checked(&inp) {
        Some(r) => r,
        None => {
            assert(false);
            ExprE::TrueC
        },
    }
}

} // verus!
