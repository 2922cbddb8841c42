//! Text measures: the order of names and the width of text on screen.

use vstd::prelude::*;
use unicode_width::UnicodeWidthStr;

verus! {

/// The number of terminal columns that a text takes, as the Unicode width
/// tables give it.
pub uninterp spec fn display_width(text: Seq<char>) -> nat;

/// Whether `a` comes strictly before `b` in the lexicographic order of
/// their code points; a proper prefix comes before the longer text.
pub open spec fn lex_lt(a: Seq<char>, b: Seq<char>) -> bool
    decreases a.len(),
{
    if b.len() == 0 {
        false
    } else if a.len() == 0 {
        true
    } else if a[0] != b[0] {
        (a[0] as int) < (b[0] as int)
    } else {
        lex_lt(a.drop_first(), b.drop_first())
    }
}

/// Calls `UnicodeWidthStr::width` of the crate unicode-width on the text
/// that the characters make up. Trusted: the result is the displayed width
/// of the text, a function of the text alone, which the contract only
/// names.
#[verifier::external_body]
pub(crate) fn width_of(text: &[char]) -> (w: usize)
    ensures
        w == display_width(text@),
{
    let line: String = text.iter().collect();
    UnicodeWidthStr::width(line.as_str())
}

/// Compares two strings with std's `<`. Trusted: std orders strings
/// lexicographically by their bytes, which is the order of their code
/// points.
#[verifier::external_body]
pub(crate) fn name_before(a: &String, b: &String) -> (r: bool)
    ensures
        r == lex_lt(a@, b@),
{
    a < b
}

/// The width on screen of the first `upto` characters of `chars`, or of all
/// of them where there are fewer.
pub fn prefix_width(chars: &Vec<char>, upto: usize) -> (w: usize)
    ensures
        w == display_width(chars@.subrange(0, if upto <= chars@.len() { upto as int } else { chars@.len() as int })),
{
    let end: usize = if upto <= chars.len() { upto } else { chars.len() };
    width_of(vstd::slice::slice_subrange(chars.as_slice(), 0, end))
}


/// Of two texts, at most one comes strictly before the other.
pub proof fn lemma_lex_asymmetric(a: Seq<char>, b: Seq<char>)
    ensures
        !(lex_lt(a, b) && lex_lt(b, a)),
    decreases a.len(),
{
    if a.len() > 0 && b.len() > 0 && a[0] == b[0] {
        lemma_lex_asymmetric(a.drop_first(), b.drop_first());
    }
}

/// Where `a` does not come before `b`, nor `b` before `c`, `a` does not
/// come before `c`.
pub proof fn lemma_lex_not_before_chain(a: Seq<char>, b: Seq<char>, c: Seq<char>)
    requires
        !lex_lt(a, b),
        !lex_lt(b, c),
    ensures
        !lex_lt(a, c),
    decreases a.len(),
{
    if c.len() == 0 {
    } else if b.len() == 0 {
    } else if a.len() == 0 {
    } else {
        if a[0] == b[0] && b[0] == c[0] {
            lemma_lex_not_before_chain(a.drop_first(), b.drop_first(), c.drop_first());
        }
    }
}

} // verus!
