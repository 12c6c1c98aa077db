//! S-expressions: the values that the reader produces.

use vstd::prelude::*;

verus! {

/// An S-expression.
///
/// A number is held as its numeral: the text it was written with (the
/// reader produces decimal digits).
#[derive(Debug, PartialEq)]
pub enum SExpr {
    SSym(String),
    SNum(String),
    SList(Box<Vec<SExpr>>),
}

/// Mathematical model of `SExpr`.
pub enum SpecSExpr {
    Sym(Seq<char>),
    Num(Seq<char>),
    List(Seq<SpecSExpr>),
}

impl SExpr {
    /// The model of this S-expression, elements of lists included.
    pub open spec fn model(&self) -> SpecSExpr
        decreases self,
    {
        match self {
            SExpr::SSym(s) => SpecSExpr::Sym(s@),
            SExpr::SNum(n) => SpecSExpr::Num(n@),
            SExpr::SList(xs) => SpecSExpr::List(models(xs@)),
        }
    }
}

/// The models of a sequence of S-expressions, element by element.
pub open spec fn models(xs: Seq<SExpr>) -> Seq<SpecSExpr>
    decreases xs,
{
    if xs.len() == 0 {
        Seq::empty()
    } else {
        models(xs.subrange(0, xs.len() - 1)).push(xs[xs.len() - 1].model())
    }
}

impl SExpr {
    /// A symbol with the given text.
    pub fn new_sym(s: &str) -> (e: Self)
        ensures
            e@ == SpecSExpr::Sym(s@),
    {
        SExpr::SSym(s.to_owned())
    }

    /// A number with the given numeral; the numeral is kept as given and
    /// turned into a machine number where the number is evaluated.
    pub fn new_num(n: &str) -> (e: Self)
        ensures
            e@ == SpecSExpr::Num(n@),
    {
        SExpr::SNum(n.to_owned())
    }

    /// A list of the given elements.
    pub fn new_slist(v: Vec<SExpr>) -> (e: Self)
        ensures
            e@ == SpecSExpr::List(models(v@)),
    {
        SExpr::SList(Box::new(v))
    }
}

impl View for SExpr {
    type V = SpecSExpr;

    open spec fn view(&self) -> SpecSExpr {
        self.model()
    }
}

/// `models` keeps the length and maps each element to its model.
pub proof fn lemma_models(xs: Seq<SExpr>)
    ensures
        models(xs).len() == xs.len(),
        forall|i: int| 0 <= i < xs.len() ==> #[trigger] models(xs)[i] == xs[i].model(),
    decreases xs.len(),
{
    if xs.len() > 0 {
        lemma_models(xs.subrange(0, xs.len() - 1));
    }
}

} // verus!
