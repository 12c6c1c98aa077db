//! The S-expression reader.
//!
//! The grammar, position by position over the characters of the input:
//! - a number is a digit followed by digits and underscores; its numeral
//!   must be made of digits alone, for the number to have a value;
//! - a symbol is a (possibly empty) run of alphabetic characters and of
//!   the operator characters `+ - * > < |`;
//! - a bare string is a run of alphabetic characters between double quotes;
//! - a list is `(`, then one element or more separated by runs of spaces and
//!   tabs, then `)`; an element is a list, a number or a symbol, tried in
//!   that order; a run of blanks right before the closing `)` ends the list
//!   and adds no element;
//! - an S-expression is a number, a bare string or a list, tried in that
//!   order.
//! A list element that cannot be read as a list or a number is read as a
//! symbol, which may be empty: the first element of `()` and of a list that
//! starts with a blank, such as `( + 1 2)`, is the empty symbol, as at least
//! one element is read before any separator.

use vstd::prelude::*;

use crate::sexpr::{lemma_models, models, SExpr, SpecSExpr};
use crate::text::{char_is_alphabetic, chars_of, is_alphabetic};

verus! {

/// Why the reader stopped.
#[derive(Debug, Clone, Copy, PartialEq, Eq, Structural)]
pub enum ErrorKind {
    /// An expected fixed character (`(`, `)`, `"` or `|`) is not there.
    Tag,
    /// An expected digit is not there.
    OneOf,
    /// An expected ASCII letter is not there.
    Alpha,
}

/// A failed read: the input that remained where the reader stopped, and why.
#[derive(Debug)]
pub struct ReadError<'a> {
    pub input: &'a str,
    pub code: ErrorKind,
}

/// The classes of characters that the reader takes runs of.
#[derive(Clone, Copy)]
pub enum Run {
    /// Digits and underscores: what follows the first digit of a number.
    NumeralTail,
    /// Alphabetic characters and operator characters.
    Symbol,
    /// Alphabetic characters.
    Letters,
    /// Spaces and tabs.
    Blanks,
    /// ASCII letters.
    AsciiLetters,
}

pub open spec fn is_digit(c: char) -> bool {
    '0' <= c <= '9'
}

/// The operator characters that may stand in a symbol.
pub open spec fn is_operator(c: char) -> bool {
    c == '+' || c == '-' || c == '*' || c == '>' || c == '<' || c == '|'
}

pub open spec fn is_blank(c: char) -> bool {
    c == ' ' || c == '\t'
}

pub open spec fn is_ascii_letter(c: char) -> bool {
    ('a' <= c <= 'z') || ('A' <= c <= 'Z')
}

pub open spec fn in_run(r: Run, c: char) -> bool {
    match r {
        Run::NumeralTail => is_digit(c) || c == '_',
        Run::Symbol => is_alphabetic(c) || is_operator(c),
        Run::Letters => is_alphabetic(c),
        Run::Blanks => is_blank(c),
        Run::AsciiLetters => is_ascii_letter(c),
    }
}

/// Where the longest run of class `r` that starts at `p` ends.
pub open spec fn run_end(s: Seq<char>, p: int, r: Run) -> int
    decreases s.len() - p,
{
    if 0 <= p < s.len() && in_run(r, s[p]) {
        run_end(s, p + 1, r)
    } else {
        p
    }
}

/// A numeral that has a value: one digit or more, and nothing else.
pub open spec fn is_numeral(t: Seq<char>) -> bool {
    t.len() > 0 && forall|i: int| 0 <= i < t.len() ==> is_digit(#[trigger] t[i])
}

/// The outcome of reading at a position.
pub enum SpecStep {
    /// Read a value; reading stopped at the position given.
    Read(int, SpecSExpr),
    /// Failed at the position given.
    Fail(int, ErrorKind),
    /// Met a number whose numeral has no value (it holds an underscore).
    Crash,
}

/// A number at `p`.
pub open spec fn read_num(s: Seq<char>, p: int) -> SpecStep {
    if 0 <= p < s.len() && is_digit(s[p]) {
        let q = run_end(s, p + 1, Run::NumeralTail);
        if is_numeral(s.subrange(p, q)) {
            SpecStep::Read(q, SpecSExpr::Num(s.subrange(p, q)))
        } else {
            SpecStep::Crash
        }
    } else {
        SpecStep::Fail(p, ErrorKind::OneOf)
    }
}

/// A symbol at `p`.
pub open spec fn read_symbol(s: Seq<char>, p: int) -> SpecStep {
    let q = run_end(s, p, Run::Symbol);
    SpecStep::Read(q, SpecSExpr::Sym(s.subrange(p, q)))
}

/// A run of alphabetic characters at `p`, read as a symbol.
pub open spec fn read_str(s: Seq<char>, p: int) -> SpecStep {
    let q = run_end(s, p, Run::Letters);
    SpecStep::Read(q, SpecSExpr::Sym(s.subrange(p, q)))
}

/// A bare string at `p`.
pub open spec fn read_bare_string(s: Seq<char>, p: int) -> SpecStep {
    if 0 <= p < s.len() && s[p] == '"' {
        let q = run_end(s, p + 1, Run::Letters);
        if q < s.len() && s[q] == '"' {
            SpecStep::Read(q + 1, SpecSExpr::Sym(s.subrange(p + 1, q)))
        } else {
            SpecStep::Fail(q, ErrorKind::Tag)
        }
    } else {
        SpecStep::Fail(p, ErrorKind::Tag)
    }
}

/// A list element at `p`: a list, else a number, else a symbol.
pub open spec fn read_element_after(slist: SpecStep, s: Seq<char>, p: int) -> SpecStep {
    match slist {
        SpecStep::Fail(_, _) => match read_num(s, p) {
            SpecStep::Fail(_, _) => read_symbol(s, p),
            r => r,
        },
        r => r,
    }
}

/// A list at `p`.
pub open spec fn read_slist(s: Seq<char>, p: int) -> SpecStep
    decreases s.len() - p, 1int,
{
    if 0 <= p < s.len() && s[p] == '(' {
        match read_items(s, p + 1, p + 1, Seq::empty()) {
            SpecStep::Read(c, v) => if 0 <= c < s.len() && s[c] == ')' {
                SpecStep::Read(c + 1, v)
            } else {
                SpecStep::Fail(c, ErrorKind::Tag)
            },
            r => r,
        }
    } else {
        SpecStep::Fail(p, ErrorKind::Tag)
    }
}

/// The elements of a list from `i` on, after the elements `acc` already
/// read; `before` is where reading stands if no element is read at `i`.
pub open spec fn read_items(s: Seq<char>, i: int, before: int, acc: Seq<SpecSExpr>) -> SpecStep
    decreases s.len() - i, 2int,
{
    match read_element_after(read_slist(s, i), s, i) {
        SpecStep::Crash => SpecStep::Crash,
        SpecStep::Fail(q, k) => if acc.len() == 0 {
            SpecStep::Fail(q, k)
        } else {
            SpecStep::Read(before, SpecSExpr::List(acc))
        },
        SpecStep::Read(j, v) => {
            let more = acc.push(v);
            if 0 <= j < s.len() && is_blank(s[j]) {
                let k = run_end(s, j, Run::Blanks);
                if 0 <= k < s.len() && s[k] == ')' {
                    // Blanks before the closing parenthesis end the list.
                    SpecStep::Read(k, SpecSExpr::List(more))
                } else if i < k <= s.len() {
                    // `k` always lies past `i` and within the input (see
                    // `lemma_read_items`); the test only makes the recursion
                    // visibly well-founded.
                    read_items(s, k, j, more)
                } else {
                    SpecStep::Read(j, SpecSExpr::List(more))
                }
            } else {
                SpecStep::Read(j, SpecSExpr::List(more))
            }
        },
    }
}

/// An S-expression at `p`: a number, else a bare string, else a list.
pub open spec fn read_sexpr(s: Seq<char>, p: int) -> SpecStep {
    match read_num(s, p) {
        SpecStep::Fail(_, _) => match read_bare_string(s, p) {
            SpecStep::Fail(_, _) => read_slist(s, p),
            r => r,
        },
        r => r,
    }
}

/// Every list in `v`, at any depth, has at least one element.
pub open spec fn lists_nonempty(v: SpecSExpr) -> bool
    decreases v,
{
    match v {
        SpecSExpr::List(xs) => xs.len() > 0 && forall|i: int|
            0 <= i < xs.len() ==> lists_nonempty(#[trigger] xs[i]),
        _ => true,
    }
}

/// A run ends within the input, and exactly where its class stops.
pub proof fn lemma_run_end(s: Seq<char>, p: int, r: Run)
    requires
        0 <= p <= s.len(),
    ensures
        p <= run_end(s, p, r) <= s.len(),
        forall|i: int| p <= i < run_end(s, p, r) ==> in_run(r, #[trigger] s[i]),
        run_end(s, p, r) < s.len() ==> !in_run(r, s[run_end(s, p, r)]),
    decreases s.len() - p,
{
    if p < s.len() && in_run(r, s[p]) {
        lemma_run_end(s, p + 1, r);
    }
}

/// A run that covers `p..q` and meets a character outside its class at `q`
/// (or the end of the input) ends at `q`.
pub proof fn lemma_run_to(s: Seq<char>, p: int, q: int, r: Run)
    requires
        0 <= p <= q <= s.len(),
        forall|i: int| p <= i < q ==> in_run(r, #[trigger] s[i]),
        q < s.len() ==> !in_run(r, s[q]),
    ensures
        run_end(s, p, r) == q,
    decreases q - p,
{
    if p < q {
        lemma_run_to(s, p + 1, q, r);
    }
}

/// Numbers, symbols and bare strings stop within the input, past or at
/// their start.
pub proof fn lemma_read_atoms(s: Seq<char>, p: int)
    requires
        0 <= p <= s.len(),
    ensures
        read_num(s, p) matches SpecStep::Read(q, _) ==> p < q <= s.len(),
        read_num(s, p) matches SpecStep::Fail(q, _) ==> q == p,
        read_symbol(s, p) matches SpecStep::Read(q, _) ==> p <= q <= s.len(),
        read_str(s, p) matches SpecStep::Read(q, _) ==> p <= q <= s.len(),
        read_bare_string(s, p) matches SpecStep::Read(q, _) ==> p < q <= s.len(),
        read_bare_string(s, p) matches SpecStep::Fail(q, _) ==> p <= q <= s.len(),
{
    lemma_run_end(s, p, Run::Symbol);
    lemma_run_end(s, p, Run::Letters);
    if p < s.len() {
        lemma_run_end(s, p + 1, Run::NumeralTail);
        lemma_run_end(s, p + 1, Run::Letters);
    }
}

/// A list read at `p` stops past `p`, within the input, and all its lists
/// have elements; a failure is reported within the input, at or past `p`.
pub proof fn lemma_read_slist(s: Seq<char>, p: int)
    requires
        0 <= p <= s.len(),
    ensures
        read_slist(s, p) matches SpecStep::Read(q, v) ==> p < q <= s.len() && lists_nonempty(v),
        read_slist(s, p) matches SpecStep::Fail(q, _) ==> p <= q <= s.len(),
    decreases s.len() - p, 1int,
{
    if 0 <= p < s.len() && s[p] == '(' {
        lemma_read_items(s, p + 1, p + 1, Seq::empty());
    }
}

/// The elements of a list: reading stops within the input, at or past
/// `before`, with a non-empty list whose lists all have elements.
pub proof fn lemma_read_items(s: Seq<char>, i: int, before: int, acc: Seq<SpecSExpr>)
    requires
        0 <= before <= i <= s.len(),
        forall|k: int| 0 <= k < acc.len() ==> lists_nonempty(#[trigger] acc[k]),
    ensures
        read_items(s, i, before, acc) matches SpecStep::Read(q, v) ==> {
            &&& before <= q <= s.len()
            &&& v matches SpecSExpr::List(xs) && xs.len() >= acc.len()
            &&& lists_nonempty(v)
        },
        read_items(s, i, before, acc) matches SpecStep::Fail(q, _) ==> i <= q <= s.len() && acc.len()
            == 0,
    decreases s.len() - i, 2int,
{
    lemma_read_slist(s, i);
    lemma_read_atoms(s, i);
    match read_element_after(read_slist(s, i), s, i) {
        SpecStep::Read(j, v) => {
            let more = acc.push(v);
            assert(forall|k: int| 0 <= k < more.len() ==> lists_nonempty(#[trigger] more[k])) by {
                assert forall|k: int| 0 <= k < more.len() implies lists_nonempty(#[trigger] more[k]) by {
                    if k < acc.len() {
                        assert(more[k] == acc[k]);
                    }
                }
            }
            if 0 <= j < s.len() && is_blank(s[j]) {
                lemma_run_end(s, j, Run::Blanks);
                let k = run_end(s, j, Run::Blanks);
                lemma_read_items(s, k, j, more);
            }
        },
        _ => {},
    }
}

/// An S-expression read at `p` stops past `p`, within the input, and all
/// its lists have elements.
pub proof fn lemma_read_sexpr(s: Seq<char>, p: int)
    requires
        0 <= p <= s.len(),
    ensures
        read_sexpr(s, p) matches SpecStep::Read(q, v) ==> p < q <= s.len() && lists_nonempty(v),
        read_sexpr(s, p) matches SpecStep::Fail(q, _) ==> p <= q <= s.len(),
{
    lemma_read_atoms(s, p);
    lemma_read_slist(s, p);
}

/// The text being read, with its characters at hand.
struct Source<'a> {
    text: &'a str,
    chars: Vec<char>,
}

impl<'a> Source<'a> {
    spec fn wf(&self) -> bool {
        self.chars@ == self.text@
    }

    spec fn s(&self) -> Seq<char> {
        self.chars@
    }

    fn new(text: &'a str) -> (src: Self)
        ensures
            src.wf(),
            src.text == text,
    {
        Source { text, chars: chars_of(text) }
    }

    /// The text between character positions `p` and `q`.
    fn slice(&self, p: usize, q: usize) -> (t: &'a str)
        requires
            self.wf(),
            p <= q <= self.s().len(),
        ensures
            t@ == self.s().subrange(p as int, q as int),
    {
        self.text.substring_char(p, q)
    }

    /// Whether position `p` holds the character `c`.
    fn at_is(&self, p: usize, c: char) -> (b: bool)
        ensures
            b == (p < self.s().len() && self.s()[p as int] == c),
            self.s().len() <= usize::MAX,
    {
        p < self.chars.len() && self.chars[p] == c
    }
}

/// The outcome of reading at a position.
enum Step {
    Read(usize, SExpr),
    Fail(usize, ErrorKind),
    Crash,
}

impl Step {
    spec fn model(&self) -> SpecStep {
        match self {
            Step::Read(q, v) => SpecStep::Read(*q as int, v@),
            Step::Fail(q, k) => SpecStep::Fail(*q as int, *k),
            Step::Crash => SpecStep::Crash,
        }
    }
}

fn char_in_run(r: Run, c: char) -> (b: bool)
    ensures
        b == in_run(r, c),
{
    match r {
        Run::NumeralTail => ('0' <= c && c <= '9') || c == '_',
        Run::Symbol => char_is_alphabetic(c) || c == '+' || c == '-' || c == '*' || c == '>' || c
            == '<' || c == '|',
        Run::Letters => char_is_alphabetic(c),
        Run::Blanks => c == ' ' || c == '\t',
        Run::AsciiLetters => ('a' <= c && c <= 'z') || ('A' <= c && c <= 'Z'),
    }
}

/// The end of the longest run of class `r` that starts at `p`.
fn scan(s: &Vec<char>, p: usize, r: Run) -> (q: usize)
    requires
        p <= s.len(),
    ensures
        q == run_end(s@, p as int, r),
{
    let mut i = p;
    while i < s.len() && char_in_run(r, s[i])
        invariant
            p <= i <= s.len(),
            run_end(s@, i as int, r) == run_end(s@, p as int, r),
        decreases s.len() - i,
    {
        i += 1;
    }
    i
}

/// Whether the characters from `p` to `q` are all digits.
fn all_digits(s: &Vec<char>, p: usize, q: usize) -> (b: bool)
    requires
        p <= q <= s.len(),
    ensures
        b == forall|i: int| p <= i < q ==> is_digit(#[trigger] s@[i]),
{
    let mut i = p;
    while i < q
        invariant
            p <= i <= q <= s.len(),
            forall|j: int| p <= j < i ==> is_digit(#[trigger] s@[j]),
        decreases q - i,
    {
        if !('0' <= s[i] && s[i] <= '9') {
            return false;
        }
        i += 1;
    }
    true
}

fn parse_num(src: &Source, p: usize) -> (r: Step)
    requires
        src.wf(),
        p <= src.s().len(),
    ensures
        r.model() == read_num(src.s(), p as int),
{
    let s = &src.chars;
    if p < s.len() && '0' <= s[p] && s[p] <= '9' {
        let q = scan(s, p + 1, Run::NumeralTail);
        proof {
            lemma_run_end(s@, p + 1, Run::NumeralTail);
        }
        if all_digits(s, p, q) {
            let numeral = src.slice(p, q);
            assert(is_numeral(numeral@));
            Step::Read(q, SExpr::new_num(numeral))
        } else {
            let ghost t = s@.subrange(p as int, q as int);
            assert(!is_numeral(t)) by {
                let i = choose|i: int| p <= i < q && !is_digit(#[trigger] s@[i]);
                assert(t[i - p] == s@[i]);
            }
            Step::Crash
        }
    } else {
        Step::Fail(p, ErrorKind::OneOf)
    }
}

fn parse_symbol(src: &Source, p: usize) -> (r: Step)
    requires
        src.wf(),
        p <= src.s().len(),
    ensures
        r.model() == read_symbol(src.s(), p as int),
{
    let q = scan(&src.chars, p, Run::Symbol);
    proof {
        lemma_run_end(src.s(), p as int, Run::Symbol);
    }
    Step::Read(q, SExpr::new_sym(src.slice(p, q)))
}

fn parse_str(src: &Source, p: usize) -> (r: Step)
    requires
        src.wf(),
        p <= src.s().len(),
    ensures
        r.model() == read_str(src.s(), p as int),
{
    let q = scan(&src.chars, p, Run::Letters);
    proof {
        lemma_run_end(src.s(), p as int, Run::Letters);
    }
    Step::Read(q, SExpr::new_sym(src.slice(p, q)))
}

fn parse_bare_string(src: &Source, p: usize) -> (r: Step)
    requires
        src.wf(),
        p <= src.s().len(),
    ensures
        r.model() == read_bare_string(src.s(), p as int),
{
    if !src.at_is(p, '"') {
        return Step::Fail(p, ErrorKind::Tag);
    }
    proof {
        lemma_read_atoms(src.s(), p + 1);
    }
    match parse_str(src, p + 1) {
        Step::Read(q, v) => {
            if src.at_is(q, '"') {
                Step::Read(q + 1, v)
            } else {
                Step::Fail(q, ErrorKind::Tag)
            }
        },
        other => other,
    }
}

fn parse_slist(src: &Source, p: usize) -> (r: Step)
    requires
        src.wf(),
        p <= src.s().len(),
    ensures
        r.model() == read_slist(src.s(), p as int),
    decreases src.s().len() - p, 1int,
{
    if !src.at_is(p, '(') {
        return Step::Fail(p, ErrorKind::Tag);
    }
    match parse_items(src, p + 1) {
        Step::Read(c, v) => {
            if src.at_is(c, ')') {
                Step::Read(c + 1, v)
            } else {
                Step::Fail(c, ErrorKind::Tag)
            }
        },
        other => other,
    }
}

/// The elements of a list that starts at `start`, one at least, separated
/// by runs of blanks.
fn parse_items(src: &Source, start: usize) -> (r: Step)
    requires
        src.wf(),
        start <= src.s().len(),
    ensures
        r.model() == read_items(src.s(), start as int, start as int, Seq::empty()),
    decreases src.s().len() - start, 2int,
{
    let ghost s = src.s();
    let mut acc: Vec<SExpr> = Vec::new();
    let mut i = start;
    let mut before = start;
    proof {
        assert(models(acc@) =~= Seq::<SpecSExpr>::empty());
    }
    loop
        invariant
            src.wf(),
            s == src.s(),
            start <= before <= i <= s.len(),
            read_items(s, i as int, before as int, models(acc@)) == read_items(
                s,
                start as int,
                start as int,
                Seq::empty(),
            ),
        decreases s.len() - i,
    {
        let element = match parse_slist(src, i) {
            Step::Fail(_, _) => match parse_num(src, i) {
                Step::Fail(_, _) => parse_symbol(src, i),
                r => r,
            },
            r => r,
        };
        proof {
            lemma_read_slist(s, i as int);
            lemma_read_atoms(s, i as int);
            lemma_models(acc@);
        }
        match element {
            Step::Crash => {
                return Step::Crash;
            },
            Step::Fail(q, k) => {
                if acc.len() == 0 {
                    return Step::Fail(q, k);
                }
                return Step::Read(before, SExpr::new_slist(acc));
            },
            Step::Read(j, v) => {
                let ghost old_acc = acc@;
                acc.push(v);
                proof {
                    assert(acc@.subrange(0, acc@.len() - 1) =~= old_acc);
                    assert(models(acc@) == models(old_acc).push(v@));
                }
                if j < src.chars.len() && src.chars[j] == ' ' || j < src.chars.len() && src.chars[j]
                    == '\t' {
                    let k = scan(&src.chars, j, Run::Blanks);
                    proof {
                        lemma_run_end(s, j as int, Run::Blanks);
                    }
                    if src.at_is(k, ')') {
                        return Step::Read(k, SExpr::new_slist(acc));
                    }
                    before = j;
                    i = k;
                } else {
                    return Step::Read(j, SExpr::new_slist(acc));
                }
            },
        }
    }
}

fn parse_sexpr_at(src: &Source, p: usize) -> (r: Step)
    requires
        src.wf(),
        p <= src.s().len(),
    ensures
        r.model() == read_sexpr(src.s(), p as int),
{
    match parse_num(src, p) {
        Step::Fail(_, _) => match parse_bare_string(src, p) {
            Step::Fail(_, _) => parse_slist(src, p),
            r => r,
        },
        r => r,
    }
}

/// Whether `res` is what reading an S-expression at the start of `input`
/// gives: the value read and the input that remains after it, or the input
/// that remained where reading failed and why.
pub open spec fn reads_as<'a>(input: &'a str, res: Result<(&'a str, SExpr), ReadError<'a>>) -> bool {
    match read_sexpr(input@, 0) {
        SpecStep::Read(q, v) => res matches Ok((rest, e)) && rest@ == input@.subrange(
            q,
            input@.len() as int,
        ) && e@ == v,
        SpecStep::Fail(q, k) => res matches Err(err) && err.input@ == input@.subrange(
            q,
            input@.len() as int,
        ) && err.code == k,
        SpecStep::Crash => false,
    }
}

/// Reads one S-expression at the start of `input`; `None` where the input
/// holds, at a place where a number is read, a numeral with an underscore,
/// which has no numeric value.
pub fn parse_sexpr_checked<'a>(input: &'a str) -> (res: Option<Result<(&'a str, SExpr), ReadError<'a>>>)
    ensures
        res is None <==> read_sexpr(input@, 0) is Crash,
        res matches Some(r) ==> reads_as(input, r),
{
    let src = Source::new(input);
    proof {
        lemma_read_sexpr(input@, 0);
    }
    match parse_sexpr_at(&src, 0) {
        Step::Read(q, v) => Some(Ok((src.slice(q, src.chars.len()), v))),
        Step::Fail(q, k) => Some(Err(ReadError { input: src.slice(q, src.chars.len()), code: k })),
        Step::Crash => None,
    }
}

/// Reads one S-expression at the start of `input`: a number, a bare string
/// or a list.
pub fn parse_sexpr<'a>(input: &'a str) -> (res: Result<(&'a str, SExpr), ReadError<'a>>)
    requires
        !(read_sexpr(input@, 0) is Crash),
    ensures
        reads_as(input, res),
{
    match parse_sexpr_checked(input) {
        Some(r) => r,
        None => {
            assert(false);
            Err(ReadError { input, code: ErrorKind::Tag })
        },
    }
}

/// The outcome of reading a lambda argument `|name|` at the start of a text.
pub enum SpecArg {
    /// The name between the bars, and where the text after the closing bar
    /// starts.
    Arg(Seq<char>, int),
    /// Failed at the position given.
    Fail(int, ErrorKind),
}

/// A bar, one ASCII letter or more, a bar.
pub open spec fn read_arg(s: Seq<char>) -> SpecArg {
    if 0 < s.len() && s[0] == '|' {
        let q = run_end(s, 1, Run::AsciiLetters);
        if q == 1 {
            SpecArg::Fail(1, ErrorKind::Alpha)
        } else if q < s.len() && s[q] == '|' {
            SpecArg::Arg(s.subrange(1, q), q + 1)
        } else {
            SpecArg::Fail(q, ErrorKind::Tag)
        }
    } else {
        SpecArg::Fail(0, ErrorKind::Tag)
    }
}

/// The text is a lambda argument `|name|` and nothing more.
pub open spec fn is_lambda_arg(s: Seq<char>) -> bool {
    read_arg(s) matches SpecArg::Arg(_, q) && q == s.len()
}

/// Whether `res` is what reading a lambda argument at the start of `input`
/// gives: the text after it and the name, or the input that remained where
/// reading failed and why.
pub open spec fn reads_arg_as<'a>(input: &'a str, res: Result<(&'a str, &'a str), ReadError<'a>>) -> bool {
    match read_arg(input@) {
        SpecArg::Arg(name, q) => res matches Ok((rest, n)) && rest@ == input@.subrange(
            q,
            input@.len() as int,
        ) && n@ == name,
        SpecArg::Fail(q, k) => res matches Err(err) && err.input@ == input@.subrange(
            q,
            input@.len() as int,
        ) && err.code == k,
    }
}

/// A read lambda argument covers its bars and its name, which is made of
/// ASCII letters; when it is the whole text, the text is `|name|`.
pub proof fn lemma_arg_shape(s: Seq<char>)
    ensures
        read_arg(s) matches SpecArg::Arg(name, q) ==> {
            &&& 3 <= q <= s.len()
            &&& s.subrange(0, q) == seq!['|'] + name + seq!['|']
            &&& name.len() > 0
            &&& forall|i: int| 0 <= i < name.len() ==> is_ascii_letter(#[trigger] name[i])
        },
        read_arg(s) matches SpecArg::Fail(q, _) ==> 0 <= q <= s.len(),
        is_lambda_arg(s) ==> s == seq!['|'] + read_arg(s)->Arg_0 + seq!['|'],
{
    if 0 < s.len() && s[0] == '|' {
        lemma_run_end(s, 1, Run::AsciiLetters);
        if let SpecArg::Arg(name, q) = read_arg(s) {
            assert(s.subrange(0, q) =~= seq!['|'] + name + seq!['|']);
            assert forall|i: int| 0 <= i < name.len() implies is_ascii_letter(#[trigger] name[i]) by {
                assert(name[i] == s[i + 1]);
                assert(in_run(Run::AsciiLetters, s[i + 1]));
            }
            if q == s.len() {
                assert(s.subrange(0, q) =~= s);
            }
        }
    }
}

pub(crate) fn parse_args_helper<'a>(input: &'a str) -> (res: Result<(&'a str, &'a str), ReadError<'a>>)
    ensures
        reads_arg_as(input, res),
{
    let src = Source::new(input);
    let len = src.chars.len();
    proof {
        lemma_arg_shape(input@);
    }
    if !src.at_is(0, '|') {
        assert(input@.subrange(0, input@.len() as int) =~= input@);
        return Err(ReadError { input, code: ErrorKind::Tag });
    }
    let q = scan(&src.chars, 1, Run::AsciiLetters);
    if q == 1 {
        return Err(ReadError { input: src.slice(1, len), code: ErrorKind::Alpha });
    }
    if src.at_is(q, '|') {
        Ok((src.slice(q + 1, len), src.slice(1, q)))
    } else {
        proof {
            lemma_run_end(input@, 1, Run::AsciiLetters);
        }
        Err(ReadError { input: src.slice(q, len), code: ErrorKind::Tag })
    }
}

/// The name of a lambda argument `|name|` that starts `x`.
pub fn parse_arg<'a>(x: &'a str) -> (a: &'a str)
    requires
        read_arg(x@) is Arg,
    ensures
        a@ == read_arg(x@)->Arg_0,
{
    match parse_args_helper(x) {
        Ok((_, a)) => a,
        Err(_) => x,
    }
}

/// Whether `x`, which starts with a lambda argument `|name|`, is that
/// argument and nothing more.
pub fn is_arg(x: &str) -> (b: bool)
    requires
        read_arg(x@) is Arg,
    ensures
        b == is_lambda_arg(x@),
{
    proof {
        lemma_arg_shape(x@);
    }
    match parse_args_helper(x) {
        Ok((rest, _)) => rest.unicode_len() == 0,
        Err(_) => false,
    }
}

} // verus!
