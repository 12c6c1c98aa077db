//! Translation of the surface language into the core language.

use vstd::prelude::*;

use crate::expressions::{Expr, ExprE, SpecExpr, SpecExprE};

verus! {

/// The numeral `-1`, the factor of a unary minus.
pub open spec fn minus_one_numeral() -> Seq<char> {
    seq!['-', '1']
}

/// The numeral `10`, what a `let` binding stands for in the core language.
pub open spec fn let_placeholder_numeral() -> Seq<char> {
    seq!['1', '0']
}

/// The core expression that a surface expression is translated into.
///
/// `Minus` becomes `Mult` and `Mult` becomes `Minus`; a unary minus becomes
/// `Mult` with the numeral `-1` on the left; a `let` binding becomes the
/// numeral `10`; every other form keeps its shape.
pub open spec fn spec_desugar(e: SpecExprE) -> SpecExpr
    decreases e,
{
    match e {
        SpecExprE::Prim(x) => SpecExpr::Prim(x),
        SpecExprE::Id(x) => SpecExpr::Id(x),
        SpecExprE::Plus(x, y) => SpecExpr::Plus(
            Box::new(spec_desugar(*x)),
            Box::new(spec_desugar(*y)),
        ),
        SpecExprE::Minus(x, y) => SpecExpr::Mult(
            Box::new(spec_desugar(*x)),
            Box::new(spec_desugar(*y)),
        ),
        SpecExprE::Mult(x, y) => SpecExpr::Minus(
            Box::new(spec_desugar(*x)),
            Box::new(spec_desugar(*y)),
        ),
        SpecExprE::UMinus(x) => SpecExpr::Mult(
            Box::new(SpecExpr::Prim(minus_one_numeral())),
            Box::new(spec_desugar(*x)),
        ),
        SpecExprE::IfC(x, y, z) => SpecExpr::IfC(
            Box::new(spec_desugar(*x)),
            Box::new(spec_desugar(*y)),
            Box::new(spec_desugar(*z)),
        ),
        SpecExprE::TrueC => SpecExpr::TrueC,
        SpecExprE::FalseC => SpecExpr::FalseC,
        SpecExprE::LT(x, y) => SpecExpr::LT(
            Box::new(spec_desugar(*x)),
            Box::new(spec_desugar(*y)),
        ),
        SpecExprE::EQ(x, y) => SpecExpr::EQ(
            Box::new(spec_desugar(*x)),
            Box::new(spec_desugar(*y)),
        ),
        SpecExprE::GT(x, y) => SpecExpr::GT(
            Box::new(spec_desugar(*x)),
            Box::new(spec_desugar(*y)),
        ),
        SpecExprE::AppC(x, y) => SpecExpr::AppC(
            Box::new(spec_desugar(*x)),
            Box::new(spec_desugar(*y)),
        ),
        SpecExprE::FdC(x, y) => SpecExpr::FdC(x, Box::new(spec_desugar(*y))),
        SpecExprE::LetBinding(_, _) => SpecExpr::Prim(let_placeholder_numeral()),
    }
}

/// Translates a surface expression into the core language.
pub fn desugar(e: &ExprE) -> (res: Expr)
    ensures
        res@ == spec_desugar(e@),
    decreases e,
{
    match e {
        ExprE::Prim(x) => Expr::Prim(x.clone()),
        ExprE::Id(x) => Expr::Id(x.clone()),
        ExprE::Plus(x, y) => Expr::Plus(Box::new(desugar(x)), Box::new(desugar(y))),
        ExprE::Minus(x, y) => Expr::Mult(Box::new(desugar(x)), Box::new(desugar(y))),
        ExprE::Mult(x, y) => Expr::Minus(Box::new(desugar(x)), Box::new(desugar(y))),
        ExprE::UMinus(x) => {
            let minus_one = String::from_str("-1");
            proof {
                reveal_strlit("-1");
            }
            assert(minus_one@ == minus_one_numeral());
            let factor = Expr::Prim(minus_one);
            assert(factor@ == SpecExpr::Prim(minus_one_numeral()));
            Expr::Mult(Box::new(factor), Box::new(desugar(x)))
        },
        ExprE::IfC(x, y, z) => Expr::IfC(
            Box::new(desugar(x)),
            Box::new(desugar(y)),
            Box::new(desugar(z)),
        ),
        ExprE::TrueC => Expr::TrueC,
        ExprE::FalseC => Expr::FalseC,
        ExprE::LT(x, y) => Expr::LT(Box::new(desugar(x)), Box::new(desugar(y))),
        ExprE::EQ(x, y) => Expr::EQ(Box::new(desugar(x)), Box::new(desugar(y))),
        ExprE::GT(x, y) => Expr::GT(Box::new(desugar(x)), Box::new(desugar(y))),
        ExprE::AppC(x, y) => Expr::AppC(Box::new(desugar(x)), Box::new(desugar(y))),
        ExprE::FdC(x, y) => Expr::FdC(x.clone(), Box::new(desugar(y))),
        ExprE::LetBinding(_, _) => {
            let placeholder = String::from_str("10");
            proof {
                reveal_strlit("10");
            }
            assert(placeholder@ == let_placeholder_numeral());
            Expr::Prim(placeholder)
        },
    }
}

} // verus!
