//! Character-level helpers shared by the reader and the parser.

use vstd::prelude::*;

verus! {

/// The characters of `text`, in order.
pub fn chars_of(text: &str) -> (v: Vec<char>)
    ensures
        v@ == text@,
{
    let mut v: Vec<char> = Vec::new();
    for c in it: text.chars()
        invariant
            v@ == it.seq().take(it.index()),
    {
        v.push(c);
    }
    v
}

/// Whether the two texts hold the same characters.
pub fn same_text(a: &str, b: &str) -> (same: bool)
    ensures
        same == (a@ == b@),
{
    let x = chars_of(a);
    let y = chars_of(b);
    if x.len() != y.len() {
        return false;
    }
    let mut i: usize = 0;
    while i < x.len()
        invariant
            x@ == a@,
            y@ == b@,
            x.len() == y.len(),
            0 <= i <= x.len(),
            forall|j: int| 0 <= j < i ==> x@[j] == y@[j],
        decreases x.len() - i,
    {
        if x[i] != y[i] {
            return false;
        }
        i += 1;
    }
    assert(a@ =~= b@);
    true
}

/// Whether `c` has the Unicode `Alphabetic` property, as `char::is_alphabetic`
/// decides it.
pub uninterp spec fn is_alphabetic(c: char) -> bool;

/// Calls `char::is_alphabetic`. The contract claims that the answer depends
/// on the character alone (it is named `is_alphabetic`) and, within ASCII,
/// that exactly the letters `a`-`z` and `A`-`Z` have the property (the
/// Unicode `Alphabetic` property that the documentation refers to); which
/// characters beyond ASCII have it is left to the Unicode tables that std
/// uses.
#[verifier::external_body]
pub fn char_is_alphabetic(c: char) -> (b: bool)
    ensures
        b == is_alphabetic(c),
        c <= '\x7f' ==> (b <==> (('a' <= c <= 'z') || ('A' <= c <= 'Z'))),
{
    c.is_alphabetic()
}

} // verus!
