//! Writing S-expressions as text, and reading that text back.

use vstd::prelude::*;

use crate::reader::{
    in_run, is_blank, is_digit, is_numeral, lemma_run_to, read_element_after, read_items,
    read_sexpr, read_slist, Run, SpecStep,
};
use crate::sexpr::SpecSExpr;
use crate::text::is_alphabetic;

verus! {

/// A character that may stand in a symbol: an alphabetic character or one of
/// `+ - * > < |`.
pub open spec fn symbol_char(c: char) -> bool {
    is_alphabetic(c) || c == '+' || c == '-' || c == '*' || c == '>' || c == '<' || c == '|'
}

/// An S-expression that has a written form the reader gives back: numbers
/// with a numeral of digits, non-empty symbols of symbol characters that
/// start with neither a digit nor `(`, and non-empty lists of such.
pub open spec fn printable(v: SpecSExpr) -> bool
    decreases v,
{
    match v {
        SpecSExpr::Num(d) => is_numeral(d),
        SpecSExpr::Sym(t) => {
            &&& t.len() > 0
            &&& forall|i: int| 0 <= i < t.len() ==> symbol_char(#[trigger] t[i])
            &&& !('0' <= t[0] <= '9')
            &&& t[0] != '('
        },
        SpecSExpr::List(xs) => xs.len() > 0 && forall|i: int|
            0 <= i < xs.len() ==> printable(#[trigger] xs[i]),
    }
}

/// The written form of an S-expression: a number as its numeral, a symbol as
/// its text, a list as `(`, its elements separated by single spaces, `)`.
pub open spec fn print(v: SpecSExpr) -> Seq<char>
    decreases v,
{
    match v {
        SpecSExpr::Num(d) => d,
        SpecSExpr::Sym(t) => t,
        SpecSExpr::List(xs) => seq!['('] + print_items(xs) + seq![')'],
    }
}

/// The written forms of `xs`, separated by single spaces.
pub open spec fn print_items(xs: Seq<SpecSExpr>) -> Seq<char>
    decreases xs,
{
    if xs.len() == 0 {
        Seq::empty()
    } else if xs.len() == 1 {
        print(xs[0])
    } else {
        print(xs[0]) + seq![' '] + print_items(xs.subrange(1, xs.len() as int))
    }
}

/// The first character of a written form: a digit for a number, `(` for a
/// list, a symbol character other than a digit or `(` for a symbol; never a
/// blank nor `)`.
proof fn lemma_first_char(v: SpecSExpr)
    requires
        !is_alphabetic(' '),
        !is_alphabetic('\t'),
        !is_alphabetic(')'),
        printable(v),
    ensures
        print(v).len() > 0,
        !is_blank(print(v)[0]),
        print(v)[0] != ')',
        v is Num ==> is_digit(print(v)[0]),
        v is List ==> print(v)[0] == '(',
        v is Sym ==> !is_digit(print(v)[0]) && print(v)[0] != '(',
{
    match v {
        SpecSExpr::Sym(t) => {
            assert(symbol_char(t[0]));
        },
        SpecSExpr::List(xs) => {
            assert(print(v)[0] == (seq!['('] + print_items(xs) + seq![')'])[0]);
        },
        _ => {},
    }
}

/// Facts about the written form of a non-empty sequence of elements.
proof fn lemma_print_items(xs: Seq<SpecSExpr>)
    requires
        !is_alphabetic(' '),
        !is_alphabetic('\t'),
        !is_alphabetic(')'),
        xs.len() > 0,
        forall|k: int| 0 <= k < xs.len() ==> printable(#[trigger] xs[k]),
    ensures
        print_items(xs).len() > 0,
        print_items(xs)[0] == print(xs[0])[0],
        !is_blank(print_items(xs)[0]),
        print_items(xs)[0] != ')',
{
    lemma_first_char(xs[0]);
}

/// Reading at `p`, where the written form of `v` stands, gives back `v` and
/// stops right after the written form (an atom needs a space or `)` after
/// it).
proof fn lemma_reads_printed(v: SpecSExpr, s: Seq<char>, p: int)
    requires
        !is_alphabetic(' '),
        !is_alphabetic('\t'),
        !is_alphabetic(')'),
        printable(v),
        0 <= p,
        p + print(v).len() <= s.len(),
        s.subrange(p, p + print(v).len()) == print(v),
        !(v is List) ==> p + print(v).len() < s.len() && (s[p + print(v).len()] == ' ' || s[p
            + print(v).len()] == ')'),
    ensures
        read_element_after(read_slist(s, p), s, p) == SpecStep::Read(p + print(v).len(), v),
        v is List ==> read_slist(s, p) == SpecStep::Read(p + print(v).len(), v),
    decreases v,
{
    let w = print(v);
    let n = w.len() as int;
    lemma_first_char(v);
    assert(s[p] == s.subrange(p, p + n)[0]);
    assert forall|k: int| p <= k < p + n implies #[trigger] s[k] == w[k - p] by {
        assert(s[k] == s.subrange(p, p + n)[k - p]);
    }
    match v {
        SpecSExpr::Num(d) => {
            assert forall|k: int| p + 1 <= k < p + n implies in_run(Run::NumeralTail, #[trigger] s[k]) by {
                assert(s[k] == d[k - p]);
            }
            lemma_run_to(s, p + 1, p + n, Run::NumeralTail);
        },
        SpecSExpr::Sym(t) => {
            assert forall|k: int| p <= k < p + n implies in_run(Run::Symbol, #[trigger] s[k]) by {
                assert(s[k] == t[k - p]);
                assert(symbol_char(t[k - p]));
            }
            lemma_run_to(s, p, p + n, Run::Symbol);
        },
        SpecSExpr::List(xs) => {
            let items = print_items(xs);
            let m = items.len() as int;
            assert(w == seq!['('] + items + seq![')']);
            assert(n == m + 2);
            assert(s.subrange(p + 1, p + 1 + m) =~= items) by {
                assert forall|k: int| 0 <= k < m implies s.subrange(p + 1, p + 1 + m)[k]
                    == items[k] by {
                    assert(s[p + 1 + k] == w[1 + k]);
                }
            }
            assert(s[p + 1 + m] == w[1 + m]);
            lemma_reads_printed_items(xs, s, p + 1, p + 1, Seq::empty());
            assert(Seq::<SpecSExpr>::empty() + xs =~= xs);
        },
    }
}

/// Reading the elements of a list at `i`, where the written forms of `xs`
/// stand separated by single spaces and followed by `)`, gives back `xs`
/// after the elements `acc` already read and stops at the `)`.
proof fn lemma_reads_printed_items(
    xs: Seq<SpecSExpr>,
    s: Seq<char>,
    i: int,
    before: int,
    acc: Seq<SpecSExpr>,
)
    requires
        !is_alphabetic(' '),
        !is_alphabetic('\t'),
        !is_alphabetic(')'),
        xs.len() > 0,
        forall|k: int| 0 <= k < xs.len() ==> printable(#[trigger] xs[k]),
        0 <= before <= i,
        i + print_items(xs).len() < s.len(),
        s.subrange(i, i + print_items(xs).len()) == print_items(xs),
        s[i + print_items(xs).len()] == ')',
    ensures
        read_items(s, i, before, acc) == SpecStep::Read(
            i + print_items(xs).len(),
            SpecSExpr::List(acc + xs),
        ),
    decreases xs,
{
    let items = print_items(xs);
    let m = items.len() as int;
    let x0 = xs[0];
    let w0 = print(x0);
    let n0 = w0.len() as int;
    lemma_first_char(x0);
    assert forall|k: int| i <= k < i + m implies #[trigger] s[k] == items[k - i] by {
        assert(s[k] == s.subrange(i, i + m)[k - i]);
    }
    if xs.len() == 1 {
        assert(items == w0);
        assert(s.subrange(i, i + n0) == w0);
        lemma_reads_printed(x0, s, i);
        assert(!is_blank(s[i + n0]));
        assert(acc.push(x0) =~= acc + xs);
    } else {
        let rest = xs.subrange(1, xs.len() as int);
        let r = print_items(rest);
        assert(items == w0 + seq![' '] + r);
        assert(m == n0 + 1 + r.len());
        assert(s.subrange(i, i + n0) =~= w0) by {
            assert forall|k: int| 0 <= k < n0 implies s.subrange(i, i + n0)[k] == w0[k] by {
                assert(s[i + k] == items[k]);
            }
        }
        assert(s[i + n0] == items[n0]);
        lemma_reads_printed(x0, s, i);
        let j = i + n0;
        assert(forall|k: int| 0 <= k < rest.len() ==> printable(#[trigger] rest[k]) == printable(
            xs[k + 1],
        ));
        assert forall|k: int| 0 <= k < rest.len() implies printable(#[trigger] rest[k]) by {
            assert(rest[k] == xs[k + 1]);
        }
        lemma_print_items(rest);
        assert(s[j + 1] == items[n0 + 1]);
        assert(items[n0 + 1] == r[0]);
        lemma_run_to(s, j, j + 1, Run::Blanks);
        assert(s.subrange(j + 1, j + 1 + r.len()) =~= r) by {
            assert forall|k: int| 0 <= k < r.len() implies s.subrange(j + 1, j + 1 + r.len())[k]
                == r[k] by {
                assert(s[j + 1 + k] == items[n0 + 1 + k]);
            }
        }
        lemma_reads_printed_items(rest, s, j + 1, j, acc.push(x0));
        assert(acc.push(x0) + rest =~= acc + xs);
    }
}

/// Reading the written form of a list gives back the list, every element
/// in its place, and consumes the whole text; in particular the list read
/// has exactly as many elements as were written, however many that is.
/// (The premises are std's answers that a space, a tab and `)` are not
/// alphabetic.)
pub proof fn law_printed_list_reads_back(xs: Seq<SpecSExpr>)
    requires
        !is_alphabetic(' '),
        !is_alphabetic('\t'),
        !is_alphabetic(')'),
        printable(SpecSExpr::List(xs)),
    ensures
        read_sexpr(print(SpecSExpr::List(xs)), 0) == SpecStep::Read(
            print(SpecSExpr::List(xs)).len() as int,
            SpecSExpr::List(xs),
        ),
{
    let s = print(SpecSExpr::List(xs));
    assert(s.subrange(0, s.len() as int) =~= s);
    lemma_reads_printed(SpecSExpr::List(xs), s, 0);
}

/// A run of alphabetic characters between double quotes is read as the
/// symbol with that text, whatever follows it. (The premise is std's answer
/// that `"` is not alphabetic.)
pub proof fn law_bare_string_reads_its_text(t: Seq<char>, rest: Seq<char>)
    requires
        !is_alphabetic('"'),
        forall|i: int| 0 <= i < t.len() ==> is_alphabetic(#[trigger] t[i]),
    ensures
        read_sexpr(seq!['"'] + t + seq!['"'] + rest, 0) == SpecStep::Read(
            t.len() + 2int,
            SpecSExpr::Sym(t),
        ),
{
    let s = seq!['"'] + t + seq!['"'] + rest;
    assert(s[0] == '"');
    assert(s[t.len() + 1int] == '"');
    assert forall|k: int| 1 <= k < t.len() + 1int implies in_run(Run::Letters, #[trigger] s[k]) by {
        assert(s[k] == t[k - 1]);
    }
    lemma_run_to(s, 1, t.len() + 1int, Run::Letters);
    assert(s.subrange(1, t.len() + 1int) =~= t);
}

} // verus!
