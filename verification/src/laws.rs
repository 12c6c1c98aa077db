//! Properties that span the reader, the translation into the surface
//! language and the desugaring.

use vstd::prelude::*;

use crate::desugaring::spec_desugar;
use crate::expressions::{SpecExpr, SpecExprE};
use crate::parser::{binary_form, binary_head, if_word, let_word, list_to_surface, to_surface};
use crate::reader::{
    in_run, is_lambda_arg, is_numeral, lemma_run_end, lemma_run_to, read_arg, read_sexpr, run_end, Run,
    SpecArg, SpecStep,
};
use crate::sexpr::SpecSExpr;

verus! {

/// A text made of digits alone is read whole as a number with that text as
/// its numeral, translates to a primitive with the same numeral, and
/// desugars to a primitive with the same numeral: numerals travel from the
/// input to the core language unchanged.
pub proof fn law_numeral_passes_through(s: Seq<char>)
    requires
        is_numeral(s),
    ensures
        read_sexpr(s, 0) == SpecStep::Read(s.len() as int, SpecSExpr::Num(s)),
        to_surface(SpecSExpr::Num(s)) == Some(SpecExprE::Prim(s)),
        spec_desugar(SpecExprE::Prim(s)) == SpecExpr::Prim(s),
{
    lemma_run_end(s, 1, Run::NumeralTail);
    let q = run_end(s, 1, Run::NumeralTail);
    if q < s.len() {
        assert(crate::reader::is_digit(s[q]));
    }
    assert(s.subrange(0, s.len() as int) =~= s);
}

/// The expression holds neither a unary minus nor an equality test, the two
/// surface forms that no S-expression translates to.
pub open spec fn without_unread_forms(e: SpecExprE) -> bool
    decreases e,
{
    match e {
        SpecExprE::UMinus(_) => false,
        SpecExprE::EQ(_, _) => false,
        SpecExprE::Prim(_) => true,
        SpecExprE::Id(_) => true,
        SpecExprE::TrueC => true,
        SpecExprE::FalseC => true,
        SpecExprE::LetBinding(_, x) => without_unread_forms(*x),
        SpecExprE::FdC(_, x) => without_unread_forms(*x),
        SpecExprE::AppC(x, y) => without_unread_forms(*x) && without_unread_forms(*y),
        SpecExprE::Plus(x, y) => without_unread_forms(*x) && without_unread_forms(*y),
        SpecExprE::Minus(x, y) => without_unread_forms(*x) && without_unread_forms(*y),
        SpecExprE::Mult(x, y) => without_unread_forms(*x) && without_unread_forms(*y),
        SpecExprE::GT(x, y) => without_unread_forms(*x) && without_unread_forms(*y),
        SpecExprE::LT(x, y) => without_unread_forms(*x) && without_unread_forms(*y),
        SpecExprE::IfC(x, y, z) => without_unread_forms(*x) && without_unread_forms(*y)
            && without_unread_forms(*z),
    }
}

/// No S-expression translates to a surface expression that holds a unary
/// minus or an equality test: those forms are never produced from text.
pub proof fn law_translation_has_no_unread_forms(e: SpecSExpr)
    ensures
        to_surface(e) matches Some(x) ==> without_unread_forms(x),
    decreases e,
{
    if let SpecSExpr::List(xs) = e {
        law_list_translation_has_no_unread_forms(xs);
    }
}

/// The list case of `law_translation_has_no_unread_forms`.
pub proof fn law_list_translation_has_no_unread_forms(xs: Seq<SpecSExpr>)
    ensures
        list_to_surface(xs) matches Some(x) ==> without_unread_forms(x),
    decreases xs,
{
    if xs.len() == 0 {
        return;
    }
    if xs.len() >= 2 {
        law_translation_has_no_unread_forms(xs[1]);
    }
    if xs.len() >= 3 {
        law_translation_has_no_unread_forms(xs[2]);
    }
    if xs.len() >= 4 {
        law_translation_has_no_unread_forms(xs[3]);
    }
    match xs[0] {
        SpecSExpr::Sym(w) => {
            if binary_head(w) is Some {
                if xs.len() == 3 {
                    if let (Some(a), Some(b)) = (to_surface(xs[1]), to_surface(xs[2])) {
                        assert(without_unread_forms(binary_form(binary_head(w)->0, a, b)));
                    }
                }
            } else if w == if_word() {
                if xs.len() >= 4 {
                    if let (Some(c), Some(t), Some(f)) = (
                        to_surface(xs[1]),
                        to_surface(xs[2]),
                        to_surface(xs[3]),
                    ) {
                        assert(without_unread_forms(
                            SpecExprE::IfC(Box::new(c), Box::new(t), Box::new(f)),
                        ));
                    }
                }
            } else if w == let_word() {
                if xs.len() >= 3 {
                    let name = match xs[1] {
                        SpecSExpr::Sym(n) => n,
                        _ => Seq::empty(),
                    };
                    if let Some(v) = to_surface(xs[2]) {
                        assert(without_unread_forms(SpecExprE::LetBinding(name, Box::new(v))));
                    }
                }
            } else if let SpecArg::Arg(name, q) = read_arg(w) {
                if q == w.len() && xs.len() >= 2 {
                    if let Some(body) = to_surface(xs[1]) {
                        let clos = SpecExprE::FdC(name, Box::new(body));
                        assert(without_unread_forms(clos));
                        if xs.len() >= 4 {
                            if let Some(arg) = to_surface(xs[3]) {
                                assert(without_unread_forms(
                                    SpecExprE::AppC(Box::new(clos), Box::new(arg)),
                                ));
                            }
                        }
                    }
                }
            }
        },
        SpecSExpr::List(ys) => {
            if ys.len() >= 2 && xs.len() >= 2 {
                law_translation_has_no_unread_forms(ys[1]);
                if let SpecSExpr::Sym(w) = ys[0] {
                    if let (Some(body), Some(arg)) = (to_surface(ys[1]), to_surface(xs[1])) {
                        let fun = SpecExprE::FdC(read_arg(w)->Arg_0, Box::new(body));
                        assert(without_unread_forms(fun));
                        assert(without_unread_forms(
                            SpecExprE::AppC(Box::new(fun), Box::new(arg)),
                        ));
                    }
                }
            }
        },
        SpecSExpr::Num(_) => {},
    }
}

/// Every character of `n` is an ASCII letter, `a` to `z` or `A` to `Z`.
pub open spec fn all_ascii_letters(n: Seq<char>) -> bool {
    forall|i: int| 0 <= i < n.len() ==> ('a' <= #[trigger] n[i] <= 'z') || ('A' <= n[i] <= 'Z')
}

/// The text `|n|`.
pub open spec fn barred(n: Seq<char>) -> Seq<char> {
    seq!['|'] + n + seq!['|']
}

/// A name of ASCII letters between bars is read as a lambda argument with
/// exactly that name, whatever follows; and `|n|` alone is a lambda
/// argument.
pub proof fn law_lambda_argument_reads_its_name(n: Seq<char>, rest: Seq<char>)
    requires
        n.len() > 0,
        all_ascii_letters(n),
    ensures
        read_arg(barred(n) + rest) == SpecArg::Arg(n, n.len() + 2int),
        is_lambda_arg(barred(n)),
{
    assert forall|t: Seq<char>| t == barred(n) + rest || t == barred(n) implies read_arg(t)
        == SpecArg::Arg(n, n.len() + 2int) by {
        assert(t[0] == '|');
        assert(t[n.len() + 1int] == '|');
        assert forall|i: int| 1 <= i < n.len() + 1int implies in_run(Run::AsciiLetters, #[trigger] t[i]) by {
            assert(t[i] == n[i - 1]);
        }
        lemma_run_to(t, 1, n.len() + 1int, Run::AsciiLetters);
        assert(t.subrange(1, n.len() + 1int) =~= n);
    }
    assert(barred(n).len() == n.len() + 2int);
}

/// A list `((|n| b) a)` translates to the application of the function whose
/// parameter is the whole name `n` and whose body is the translation of `b`
/// to the translation of `a`; a list `(|n| b)` translates to that function.
pub proof fn law_lambda_binds_the_whole_name(n: Seq<char>, b: SpecSExpr, a: SpecSExpr)
    requires
        n.len() > 0,
        all_ascii_letters(n),
        to_surface(b) is Some,
        to_surface(a) is Some,
    ensures
        to_surface(SpecSExpr::List(seq![SpecSExpr::Sym(barred(n)), b])) == Some(
            SpecExprE::FdC(n, Box::new(to_surface(b)->0)),
        ),
        to_surface(
            SpecSExpr::List(
                seq![SpecSExpr::List(seq![SpecSExpr::Sym(barred(n)), b]), a],
            ),
        ) == Some(
            SpecExprE::AppC(
                Box::new(SpecExprE::FdC(n, Box::new(to_surface(b)->0))),
                Box::new(to_surface(a)->0),
            ),
        ),
{
    law_lambda_argument_reads_its_name(n, Seq::empty());
    assert(barred(n) + Seq::<char>::empty() =~= barred(n));
    let w = barred(n);
    assert(w[0] == '|');
    assert(w != seq!['>'] && w != seq!['<'] && w != seq!['E', 'q'] && w != seq!['+']);
    assert(w != seq!['*'] && w != seq!['-'] && w != if_word() && w != let_word());
    let inner = seq![SpecSExpr::Sym(w), b];
    let outer = seq![SpecSExpr::List(inner), a];
    assert(inner[0] == SpecSExpr::Sym(w) && inner[1] == b);
    assert(outer[0] == SpecSExpr::List(inner) && outer[1] == a);
}

/// The translation of a list headed by an arithmetic or comparison word is
/// built from the translations of its two operands, whatever their shape:
/// `+` adds, `*` multiplies, `-` subtracts, `>` builds `LT`, and `<` and
/// `Eq` build `GT`.
pub proof fn law_binary_words_compose(x: SpecSExpr, y: SpecSExpr)
    requires
        to_surface(x) is Some,
        to_surface(y) is Some,
    ensures
        ({
            let a = Box::new(to_surface(x)->0);
            let b = Box::new(to_surface(y)->0);
            &&& to_surface(SpecSExpr::List(seq![SpecSExpr::Sym(seq!['+']), x, y])) == Some(
                SpecExprE::Plus(a, b),
            )
            &&& to_surface(SpecSExpr::List(seq![SpecSExpr::Sym(seq!['*']), x, y])) == Some(
                SpecExprE::Mult(a, b),
            )
            &&& to_surface(SpecSExpr::List(seq![SpecSExpr::Sym(seq!['-']), x, y])) == Some(
                SpecExprE::Minus(a, b),
            )
            &&& to_surface(SpecSExpr::List(seq![SpecSExpr::Sym(seq!['>']), x, y])) == Some(
                SpecExprE::LT(a, b),
            )
            &&& to_surface(SpecSExpr::List(seq![SpecSExpr::Sym(seq!['<']), x, y])) == Some(
                SpecExprE::GT(a, b),
            )
            &&& to_surface(SpecSExpr::List(seq![SpecSExpr::Sym(seq!['E', 'q']), x, y])) == Some(
                SpecExprE::GT(a, b),
            )
        }),
{
    assert(seq!['*'] != seq!['+']);
    assert(seq!['-'] != seq!['+'] && seq!['-'] != seq!['*']);
    assert(seq!['>'] != seq!['+'] && seq!['>'] != seq!['*'] && seq!['>'] != seq!['-']);
    assert(seq!['<'] != seq!['>']);
    assert(seq!['E', 'q'] != seq!['>'] && seq!['E', 'q'] != seq!['<']);
    assert(seq!['+'] != seq!['<'] && seq!['+'] != seq!['>'] && seq!['+'] != seq!['E', 'q']);
    assert(seq!['*'] != seq!['<'] && seq!['*'] != seq!['>'] && seq!['*'] != seq!['E', 'q']);
    assert(seq!['-'] != seq!['<'] && seq!['-'] != seq!['>'] && seq!['-'] != seq!['E', 'q']);
    assert(seq!['<'] != seq!['E', 'q']);
}

/// The translation of `(if c t f ...)` is the conditional of the
/// translations of `c`, `t` and `f`, in that order, whatever their shape.
pub proof fn law_conditional_composes(
    c: SpecSExpr,
    t: SpecSExpr,
    f: SpecSExpr,
    more: Seq<SpecSExpr>,
)
    requires
        to_surface(c) is Some,
        to_surface(t) is Some,
        to_surface(f) is Some,
    ensures
        to_surface(SpecSExpr::List(seq![SpecSExpr::Sym(if_word()), c, t, f] + more)) == Some(
            SpecExprE::IfC(
                Box::new(to_surface(c)->0),
                Box::new(to_surface(t)->0),
                Box::new(to_surface(f)->0),
            ),
        ),
{
    let xs = seq![SpecSExpr::Sym(if_word()), c, t, f] + more;
    assert(xs[0] == SpecSExpr::Sym(if_word()) && xs[1] == c && xs[2] == t && xs[3] == f);
    let w = if_word();
    assert(w != seq!['>'] && w != seq!['<'] && w != seq!['E', 'q'] && w != seq!['+']);
    assert(w != seq!['*'] && w != seq!['-']);
}

/// The branch that the interpreter takes in a core conditional whose
/// condition is the literal `true` (the first branch) or `false` (the
/// second).
pub open spec fn core_literal_branch(e: SpecExpr) -> Option<SpecExpr> {
    match e {
        SpecExpr::IfC(c, t, f) => match *c {
            SpecExpr::TrueC => Some(*t),
            SpecExpr::FalseC => Some(*f),
            _ => None,
        },
        _ => None,
    }
}

/// The branch that a surface conditional with a literal condition stands
/// for.
pub open spec fn surface_literal_branch(e: SpecExprE) -> Option<SpecExprE> {
    match e {
        SpecExprE::IfC(c, t, f) => match *c {
            SpecExprE::TrueC => Some(*t),
            SpecExprE::FalseC => Some(*f),
            _ => None,
        },
        _ => None,
    }
}

/// Desugaring keeps the choice of a conditional: where a surface conditional
/// with a literal condition stands for one of its branches, the core form
/// takes the core form of that same branch.
pub proof fn law_desugar_keeps_branches(e: SpecExprE)
    ensures
        surface_literal_branch(e) matches Some(b) ==> core_literal_branch(spec_desugar(e)) == Some(
            spec_desugar(b),
        ),
{
    if let SpecExprE::IfC(c, t, f) = e {
        let d = spec_desugar(e);
        assert(d == SpecExpr::IfC(
            Box::new(spec_desugar(*c)),
            Box::new(spec_desugar(*t)),
            Box::new(spec_desugar(*f)),
        ));
        if *c == SpecExprE::TrueC {
            assert(spec_desugar(*c) == SpecExpr::TrueC);
        } else if *c == SpecExprE::FalseC {
            assert(spec_desugar(*c) == SpecExpr::FalseC);
        }
    }
}

/// The names and numerals of a surface expression, left to right: numerals,
/// identifiers and the parameters of functions, in the order they are
/// written.
pub open spec fn surface_words(e: SpecExprE) -> Seq<Seq<char>>
    decreases e,
{
    match e {
        SpecExprE::Prim(x) => seq![x],
        SpecExprE::Id(x) => seq![x],
        SpecExprE::TrueC => Seq::empty(),
        SpecExprE::FalseC => Seq::empty(),
        SpecExprE::LetBinding(n, x) => seq![n] + surface_words(*x),
        SpecExprE::FdC(n, x) => seq![n] + surface_words(*x),
        SpecExprE::UMinus(x) => surface_words(*x),
        SpecExprE::AppC(x, y) => surface_words(*x) + surface_words(*y),
        SpecExprE::Plus(x, y) => surface_words(*x) + surface_words(*y),
        SpecExprE::Minus(x, y) => surface_words(*x) + surface_words(*y),
        SpecExprE::Mult(x, y) => surface_words(*x) + surface_words(*y),
        SpecExprE::GT(x, y) => surface_words(*x) + surface_words(*y),
        SpecExprE::LT(x, y) => surface_words(*x) + surface_words(*y),
        SpecExprE::EQ(x, y) => surface_words(*x) + surface_words(*y),
        SpecExprE::IfC(x, y, z) => surface_words(*x) + surface_words(*y) + surface_words(*z),
    }
}

/// The names and numerals of a core expression, left to right.
pub open spec fn core_words(e: SpecExpr) -> Seq<Seq<char>>
    decreases e,
{
    match e {
        SpecExpr::Prim(x) => seq![x],
        SpecExpr::Id(x) => seq![x],
        SpecExpr::TrueC => Seq::empty(),
        SpecExpr::FalseC => Seq::empty(),
        SpecExpr::FdC(n, x) => seq![n] + core_words(*x),
        SpecExpr::AppC(x, y) => core_words(*x) + core_words(*y),
        SpecExpr::Plus(x, y) => core_words(*x) + core_words(*y),
        SpecExpr::Minus(x, y) => core_words(*x) + core_words(*y),
        SpecExpr::Mult(x, y) => core_words(*x) + core_words(*y),
        SpecExpr::GT(x, y) => core_words(*x) + core_words(*y),
        SpecExpr::LT(x, y) => core_words(*x) + core_words(*y),
        SpecExpr::EQ(x, y) => core_words(*x) + core_words(*y),
        SpecExpr::IfC(x, y, z) => core_words(*x) + core_words(*y) + core_words(*z),
    }
}

/// The expression holds no `let` binding and no unary minus, the two forms
/// that desugaring replaces by other forms.
pub open spec fn without_replaced_forms(e: SpecExprE) -> bool
    decreases e,
{
    match e {
        SpecExprE::LetBinding(_, _) => false,
        SpecExprE::UMinus(_) => false,
        SpecExprE::Prim(_) => true,
        SpecExprE::Id(_) => true,
        SpecExprE::TrueC => true,
        SpecExprE::FalseC => true,
        SpecExprE::FdC(_, x) => without_replaced_forms(*x),
        SpecExprE::AppC(x, y) => without_replaced_forms(*x) && without_replaced_forms(*y),
        SpecExprE::Plus(x, y) => without_replaced_forms(*x) && without_replaced_forms(*y),
        SpecExprE::Minus(x, y) => without_replaced_forms(*x) && without_replaced_forms(*y),
        SpecExprE::Mult(x, y) => without_replaced_forms(*x) && without_replaced_forms(*y),
        SpecExprE::GT(x, y) => without_replaced_forms(*x) && without_replaced_forms(*y),
        SpecExprE::LT(x, y) => without_replaced_forms(*x) && without_replaced_forms(*y),
        SpecExprE::EQ(x, y) => without_replaced_forms(*x) && without_replaced_forms(*y),
        SpecExprE::IfC(x, y, z) => without_replaced_forms(*x) && without_replaced_forms(*y)
            && without_replaced_forms(*z),
    }
}

/// Outside `let` bindings and unary minus, desugaring keeps every numeral,
/// identifier and parameter, in the order written: no operand, branch or
/// name is dropped, added, exchanged or altered.
pub proof fn law_desugar_keeps_words(e: SpecExprE)
    requires
        without_replaced_forms(e),
    ensures
        core_words(spec_desugar(e)) == surface_words(e),
    decreases e,
{
    match e {
        SpecExprE::FdC(_, x) => {
            law_desugar_keeps_words(*x);
        },
        SpecExprE::AppC(x, y) | SpecExprE::Plus(x, y) | SpecExprE::Minus(x, y) | SpecExprE::Mult(
            x,
            y,
        ) | SpecExprE::GT(x, y) | SpecExprE::LT(x, y) | SpecExprE::EQ(x, y) => {
            law_desugar_keeps_words(*x);
            law_desugar_keeps_words(*y);
        },
        SpecExprE::IfC(x, y, z) => {
            law_desugar_keeps_words(*x);
            law_desugar_keeps_words(*y);
            law_desugar_keeps_words(*z);
        },
        _ => {},
    }
}

/// A symbol translates to the literal `true` or `false` for those two words
/// and otherwise to the identifier with the same text; a number translates
/// to the primitive with the same numeral.
pub proof fn law_atoms_translate(t: Seq<char>)
    ensures
        to_surface(SpecSExpr::Sym(t)) == Some(
            if t == seq!['t', 'r', 'u', 'e'] {
                SpecExprE::TrueC
            } else if t == seq!['f', 'a', 'l', 's', 'e'] {
                SpecExprE::FalseC
            } else {
                SpecExprE::Id(t)
            },
        ),
        to_surface(SpecSExpr::Num(t)) == Some(SpecExprE::Prim(t)),
{
}

/// The translation of `(let n x ...)` binds the text of `n` (the empty name
/// when `n` is not a symbol) to the translation of `x`; later elements are
/// not looked at.
pub proof fn law_let_composes(n: SpecSExpr, x: SpecSExpr, more: Seq<SpecSExpr>)
    requires
        to_surface(x) is Some,
    ensures
        to_surface(SpecSExpr::List(seq![SpecSExpr::Sym(let_word()), n, x] + more)) == Some(
            SpecExprE::LetBinding(
                match n {
                    SpecSExpr::Sym(t) => t,
                    _ => Seq::empty(),
                },
                Box::new(to_surface(x)->0),
            ),
        ),
{
    let xs = seq![SpecSExpr::Sym(let_word()), n, x] + more;
    assert(xs[0] == SpecSExpr::Sym(let_word()) && xs[1] == n && xs[2] == x);
    let w = let_word();
    assert(w != seq!['>'] && w != seq!['<'] && w != seq!['E', 'q'] && w != seq!['+']);
    assert(w != seq!['*'] && w != seq!['-'] && w != if_word());
}

/// A list `(|n| b s a ...)` translates to the application of the function
/// with parameter `n` and the translation of `b` as body to the translation
/// of `a`: the element `s` right after the body is passed over.
pub proof fn law_lambda_head_applies_fourth(
    n: Seq<char>,
    b: SpecSExpr,
    skipped: SpecSExpr,
    a: SpecSExpr,
    more: Seq<SpecSExpr>,
)
    requires
        n.len() > 0,
        all_ascii_letters(n),
        to_surface(b) is Some,
        to_surface(a) is Some,
    ensures
        to_surface(SpecSExpr::List(seq![SpecSExpr::Sym(barred(n)), b, skipped, a] + more)) == Some(
            SpecExprE::AppC(
                Box::new(SpecExprE::FdC(n, Box::new(to_surface(b)->0))),
                Box::new(to_surface(a)->0),
            ),
        ),
{
    law_lambda_argument_reads_its_name(n, Seq::empty());
    assert(barred(n) + Seq::<char>::empty() =~= barred(n));
    let w = barred(n);
    assert(w[0] == '|');
    assert(w != seq!['>'] && w != seq!['<'] && w != seq!['E', 'q'] && w != seq!['+']);
    assert(w != seq!['*'] && w != seq!['-'] && w != if_word() && w != let_word());
    let xs = seq![SpecSExpr::Sym(w), b, skipped, a] + more;
    assert(xs[0] == SpecSExpr::Sym(w) && xs[1] == b && xs[3] == a);
}

} // verus!
