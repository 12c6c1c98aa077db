//! The reader agrees with the same grammar written with nom's combinators,
//! on every short text over a small alphabet.

use nom::branch::alt;
use nom::bytes::complete::{tag, take_while};
use nom::character::complete::{alpha1, one_of, space0, space1};
use nom::combinator::{not, recognize};
use nom::multi::{many0, many1, separated_list1};
use nom::sequence::{delimited, preceded, terminated};
use nom::IResult;

use zielisp::reader::{is_arg, parse_arg, parse_sexpr_checked, ErrorKind};
use zielisp::sexpr::SExpr;

const OP_LIST: [char; 6] = ['+', '-', '*', '>', '<', '|'];

fn c_num(input: &str) -> IResult<&str, SExpr> {
    let (cont, res) =
        recognize(many1(terminated(one_of("0123456789"), many0(one_of("_")))))(input)?;
    Ok((cont, SExpr::SNum(res.to_string())))
}

fn c_symbol(input: &str) -> IResult<&str, SExpr> {
    let (cont, res) = take_while(|c: char| c.is_alphabetic() || OP_LIST.contains(&c))(input)?;
    Ok((cont, SExpr::SSym(res.to_string())))
}

fn c_str(input: &str) -> IResult<&str, SExpr> {
    let (cont, res) = take_while(|c: char| c.is_alphabetic())(input)?;
    Ok((cont, SExpr::SSym(res.to_string())))
}

fn c_bare_string(input: &str) -> IResult<&str, SExpr> {
    delimited(tag("\""), c_str, tag("\""))(input)
}

fn c_slist(input: &str) -> IResult<&str, SExpr> {
    let (cont, _) = tag("(")(input)?;
    // A run of blanks followed by `)` is no separator: it ends the list.
    let (c, ret) = separated_list1(
        terminated(space1, not(tag(")"))),
        alt((c_slist, c_num, c_symbol)),
    )(cont)?;
    let (rest, _) = preceded(space0, tag(")"))(c)?;
    Ok((rest, SExpr::SList(Box::new(ret))))
}

fn c_sexpr(input: &str) -> IResult<&str, SExpr> {
    alt((c_num, c_bare_string, c_slist))(input)
}

fn c_args(input: &str) -> IResult<&str, &str> {
    delimited(tag("|"), alpha1, tag("|"))(input)
}

fn kind(k: nom::error::ErrorKind) -> ErrorKind {
    match k {
        nom::error::ErrorKind::Tag => ErrorKind::Tag,
        nom::error::ErrorKind::OneOf => ErrorKind::OneOf,
        nom::error::ErrorKind::Alpha => ErrorKind::Alpha,
        other => panic!("unexpected error kind {:?}", other),
    }
}

fn holds_underscore(e: &SExpr) -> bool {
    match e {
        SExpr::SSym(_) => false,
        SExpr::SNum(n) => n.contains('_'),
        SExpr::SList(xs) => xs.iter().any(holds_underscore),
    }
}

fn texts(alphabet: &[char], max_len: usize) -> Vec<String> {
    let mut all = vec![String::new()];
    let mut layer = vec![String::new()];
    for _ in 0..max_len {
        let mut next = Vec::new();
        for t in &layer {
            for c in alphabet {
                let mut u = t.clone();
                u.push(*c);
                next.push(u);
            }
        }
        all.extend(next.iter().cloned());
        layer = next;
    }
    all
}

fn agree(text: &str) {
    let expected = c_sexpr(text);
    let got = match parse_sexpr_checked(text) {
        Some(r) => r,
        None => {
            // A numeral with an underscore was met on the way.
            assert!(text.contains('_'), "{:?}", text);
            return;
        }
    };
    match expected {
        Ok((rest, e)) => {
            assert!(!holds_underscore(&e), "{:?}", text);
            let (r, v) = got.expect("a read");
            assert_eq!(r, rest, "{:?}", text);
            assert_eq!(v, e, "{:?}", text);
        }
        Err(nom::Err::Error(err)) => {
            let mine = got.expect_err("a failure");
            assert_eq!(mine.input, err.input, "{:?}", text);
            assert_eq!(mine.code, kind(err.code), "{:?}", text);
        }
        Err(other) => panic!("unexpected {:?} on {:?}", other, text),
    }
}

#[test]
fn reader_agrees_on_short_texts() {
    for t in texts(&['(', ')', ' ', '1', 'a', '+', '"', '|'], 6) {
        agree(&t);
    }
}

#[test]
fn reader_agrees_with_tabs_and_unicode() {
    for t in texts(&['(', ')', '\t', '2', 'é', '_', '-'], 5) {
        agree(&t);
    }
}

#[test]
fn lambda_arguments_agree() {
    for t in texts(&['|', 'x', 'Y', '1', 'é'], 5) {
        if let Ok((rest, name)) = c_args(&t) {
            assert_eq!(parse_arg(&t), name, "{:?}", t);
            assert_eq!(is_arg(&t), rest.is_empty(), "{:?}", t);
        }
    }
}
