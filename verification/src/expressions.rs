//! The surface language (`ExprE`) and the core language (`Expr`).
//!
//! Numbers are carried as their decimal numerals (for instance `"42"` or
//! `"-1"`); the interpreter turns a numeral into a machine number when it
//! evaluates it.

use vstd::prelude::*;

verus! {

/// The surface language, as produced from S-expressions.
#[derive(Debug, PartialEq)]
pub enum ExprE {
    Prim(String),
    Id(String),
    /// Name and bound expression.
    LetBinding(String, Box<ExprE>),
    AppC(Box<ExprE>, Box<ExprE>),
    /// Argument and body.
    FdC(String, Box<ExprE>),
    Plus(Box<ExprE>, Box<ExprE>),
    Minus(Box<ExprE>, Box<ExprE>),
    Mult(Box<ExprE>, Box<ExprE>),
    UMinus(Box<ExprE>),
    IfC(Box<ExprE>, Box<ExprE>, Box<ExprE>),
    TrueC,
    FalseC,
    GT(Box<ExprE>, Box<ExprE>),
    LT(Box<ExprE>, Box<ExprE>),
    EQ(Box<ExprE>, Box<ExprE>),
}

/// The core language that the interpreter evaluates.
#[derive(Debug, PartialEq)]
pub enum Expr {
    Prim(String),
    Id(String),
    AppC(Box<Expr>, Box<Expr>),
    /// Argument and body.
    FdC(String, Box<Expr>),
    Plus(Box<Expr>, Box<Expr>),
    Minus(Box<Expr>, Box<Expr>),
    Mult(Box<Expr>, Box<Expr>),
    IfC(Box<Expr>, Box<Expr>, Box<Expr>),
    TrueC,
    FalseC,
    GT(Box<Expr>, Box<Expr>),
    LT(Box<Expr>, Box<Expr>),
    EQ(Box<Expr>, Box<Expr>),
}

/// Mathematical model of `ExprE`: strings become character sequences.
pub enum SpecExprE {
    Prim(Seq<char>),
    Id(Seq<char>),
    LetBinding(Seq<char>, Box<SpecExprE>),
    AppC(Box<SpecExprE>, Box<SpecExprE>),
    FdC(Seq<char>, Box<SpecExprE>),
    Plus(Box<SpecExprE>, Box<SpecExprE>),
    Minus(Box<SpecExprE>, Box<SpecExprE>),
    Mult(Box<SpecExprE>, Box<SpecExprE>),
    UMinus(Box<SpecExprE>),
    IfC(Box<SpecExprE>, Box<SpecExprE>, Box<SpecExprE>),
    TrueC,
    FalseC,
    GT(Box<SpecExprE>, Box<SpecExprE>),
    LT(Box<SpecExprE>, Box<SpecExprE>),
    EQ(Box<SpecExprE>, Box<SpecExprE>),
}

/// Mathematical model of `Expr`.
pub enum SpecExpr {
    Prim(Seq<char>),
    Id(Seq<char>),
    AppC(Box<SpecExpr>, Box<SpecExpr>),
    FdC(Seq<char>, Box<SpecExpr>),
    Plus(Box<SpecExpr>, Box<SpecExpr>),
    Minus(Box<SpecExpr>, Box<SpecExpr>),
    Mult(Box<SpecExpr>, Box<SpecExpr>),
    IfC(Box<SpecExpr>, Box<SpecExpr>, Box<SpecExpr>),
    TrueC,
    FalseC,
    GT(Box<SpecExpr>, Box<SpecExpr>),
    LT(Box<SpecExpr>, Box<SpecExpr>),
    EQ(Box<SpecExpr>, Box<SpecExpr>),
}

impl ExprE {
    /// The model of this expression, children included.
    pub open spec fn model(&self) -> SpecExprE
        decreases self,
    {
        match self {
            ExprE::Prim(x) => SpecExprE::Prim(x@),
            ExprE::Id(x) => SpecExprE::Id(x@),
            ExprE::LetBinding(n, e) => SpecExprE::LetBinding(n@, Box::new(e.model())),
            ExprE::AppC(a, b) => SpecExprE::AppC(Box::new(a.model()), Box::new(b.model())),
            ExprE::FdC(n, e) => SpecExprE::FdC(n@, Box::new(e.model())),
            ExprE::Plus(a, b) => SpecExprE::Plus(Box::new(a.model()), Box::new(b.model())),
            ExprE::Minus(a, b) => SpecExprE::Minus(Box::new(a.model()), Box::new(b.model())),
            ExprE::Mult(a, b) => SpecExprE::Mult(Box::new(a.model()), Box::new(b.model())),
            ExprE::UMinus(a) => SpecExprE::UMinus(Box::new(a.model())),
            ExprE::IfC(c, t, f) => SpecExprE::IfC(
                Box::new(c.model()),
                Box::new(t.model()),
                Box::new(f.model()),
            ),
            ExprE::TrueC => SpecExprE::TrueC,
            ExprE::FalseC => SpecExprE::FalseC,
            ExprE::GT(a, b) => SpecExprE::GT(Box::new(a.model()), Box::new(b.model())),
            ExprE::LT(a, b) => SpecExprE::LT(Box::new(a.model()), Box::new(b.model())),
            ExprE::EQ(a, b) => SpecExprE::EQ(Box::new(a.model()), Box::new(b.model())),
        }
    }
}

impl Expr {
    /// The model of this expression, children included.
    pub open spec fn model(&self) -> SpecExpr
        decreases self,
    {
        match self {
            Expr::Prim(x) => SpecExpr::Prim(x@),
            Expr::Id(x) => SpecExpr::Id(x@),
            Expr::AppC(a, b) => SpecExpr::AppC(Box::new(a.model()), Box::new(b.model())),
            Expr::FdC(n, e) => SpecExpr::FdC(n@, Box::new(e.model())),
            Expr::Plus(a, b) => SpecExpr::Plus(Box::new(a.model()), Box::new(b.model())),
            Expr::Minus(a, b) => SpecExpr::Minus(Box::new(a.model()), Box::new(b.model())),
            Expr::Mult(a, b) => SpecExpr::Mult(Box::new(a.model()), Box::new(b.model())),
            Expr::IfC(c, t, f) => SpecExpr::IfC(
                Box::new(c.model()),
                Box::new(t.model()),
                Box::new(f.model()),
            ),
            Expr::TrueC => SpecExpr::TrueC,
            Expr::FalseC => SpecExpr::FalseC,
            Expr::GT(a, b) => SpecExpr::GT(Box::new(a.model()), Box::new(b.model())),
            Expr::LT(a, b) => SpecExpr::LT(Box::new(a.model()), Box::new(b.model())),
            Expr::EQ(a, b) => SpecExpr::EQ(Box::new(a.model()), Box::new(b.model())),
        }
    }
}

impl View for ExprE {
    type V = SpecExprE;

    open spec fn view(&self) -> SpecExprE {
        self.model()
    }
}

impl View for Expr {
    type V = SpecExpr;

    open spec fn view(&self) -> SpecExpr {
        self.model()
    }
}

/// The text that a closure is shown as.
pub open spec fn closure_text() -> Seq<char> {
    seq!['c', 'l', 'o', 's', 'u', 'r', 'e', ' ', 'p', 'r', 'o', 'b', 'a', 'b', 'l', 'y']
}

impl Expr {
    /// A copy of this expression.
    pub fn duplicate(&self) -> (r: Expr)
        ensures
            r@ == self@,
        decreases self,
    {
        match self {
            Expr::Prim(x) => Expr::Prim(x.clone()),
            Expr::Id(x) => Expr::Id(x.clone()),
            Expr::AppC(a, b) => Expr::AppC(Box::new(a.duplicate()), Box::new(b.duplicate())),
            Expr::FdC(n, e) => Expr::FdC(n.clone(), Box::new(e.duplicate())),
            Expr::Plus(a, b) => Expr::Plus(Box::new(a.duplicate()), Box::new(b.duplicate())),
            Expr::Minus(a, b) => Expr::Minus(Box::new(a.duplicate()), Box::new(b.duplicate())),
            Expr::Mult(a, b) => Expr::Mult(Box::new(a.duplicate()), Box::new(b.duplicate())),
            Expr::IfC(c, t, f) => Expr::IfC(
                Box::new(c.duplicate()),
                Box::new(t.duplicate()),
                Box::new(f.duplicate()),
            ),
            Expr::TrueC => Expr::TrueC,
            Expr::FalseC => Expr::FalseC,
            Expr::GT(a, b) => Expr::GT(Box::new(a.duplicate()), Box::new(b.duplicate())),
            Expr::LT(a, b) => Expr::LT(Box::new(a.duplicate()), Box::new(b.duplicate())),
            Expr::EQ(a, b) => Expr::EQ(Box::new(a.duplicate()), Box::new(b.duplicate())),
        }
    }

    /// How a closure value built from this expression is printed.
    pub fn show(&self) -> (s: String)
        ensures
            s@ == closure_text(),
    {
        let s = String::from_str("closure probably");
        proof {
            reveal_strlit("closure probably");
        }
        s
    }
}

} // verus!
