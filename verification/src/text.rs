//! Text utilities shared by the parsers and the display layer: conversion
//! between `str` and character buffers, and Unicode display-column accounting.

use vstd::prelude::*;

verus! {

/// The number of terminal columns a character occupies.  This names the result
/// of `unicode_width::UnicodeWidthChar::width`, with control characters
/// counted as zero columns.
pub uninterp spec fn col_width_of(c: char) -> usize;

/// Relies on `unicode_width::UnicodeWidthChar::width` for the displayed width
/// of one character; a control character (`None` there) counts as zero
/// columns.  The width never exceeds 3 columns, printable ASCII is one column
/// wide, and the horizontal ellipsis is one column wide.
#[verifier::external_body]
pub fn char_width(c: char) -> (w: usize)
    ensures
        w == col_width_of(c),
        w <= 3,
        0x20 <= c as u32 && c as u32 <= 0x7e ==> w == 1,
        c == '\u{2026}' ==> w == 1,
{
    unicode_width::UnicodeWidthChar::width(c).unwrap_or(0)
}

/// Display width of a character sequence: the sum of its characters' widths.
pub open spec fn sp_width(s: Seq<char>) -> int
    decreases s.len(),
{
    if s.len() == 0 {
        0
    } else {
        col_width_of(s[0]) + sp_width(s.drop_first())
    }
}

/// Width sums are nonnegative.
pub proof fn lemma_width_nonneg(s: Seq<char>)
    ensures
        sp_width(s) >= 0,
    decreases s.len(),
{
    if s.len() > 0 {
        lemma_width_nonneg(s.drop_first());
    }
}

/// Width sums add over concatenation.
pub proof fn lemma_width_append(a: Seq<char>, b: Seq<char>)
    ensures
        sp_width(a + b) == sp_width(a) + sp_width(b),
    decreases a.len(),
{
    if a.len() == 0 {
        assert(a + b =~= b);
    } else {
        assert((a + b).drop_first() =~= a.drop_first() + b);
        lemma_width_append(a.drop_first(), b);
    }
}

/// Appending one character adds that character's width.
pub proof fn lemma_width_push(s: Seq<char>, c: char)
    ensures
        sp_width(s.push(c)) == sp_width(s) + col_width_of(c),
{
    let s1 = seq![c];
    assert(s.push(c) =~= s + s1);
    lemma_width_append(s, s1);
    assert(s1.drop_first() =~= Seq::<char>::empty());
    assert(sp_width(s1) == col_width_of(c) + sp_width(s1.drop_first()));
}

/// A prefix never exceeds the whole in width.
pub proof fn lemma_width_prefix_le(s: Seq<char>, i: int)
    requires
        0 <= i <= s.len(),
    ensures
        sp_width(s.subrange(0, i)) <= sp_width(s),
{
    assert(s =~= s.subrange(0, i) + s.subrange(i, s.len() as int));
    lemma_width_append(s.subrange(0, i), s.subrange(i, s.len() as int));
    lemma_width_nonneg(s.subrange(i, s.len() as int));
}

/// The characters of a string, in order.
pub fn chars_of(s: &str) -> (v: Vec<char>)
    ensures
        v@ == s@,
{
    let n = s.unicode_len();
    let mut v: Vec<char> = Vec::new();
    let mut i: usize = 0;
    while i < n
        invariant
            n == s@.len(),
            i <= n,
            v@ == s@.subrange(0, i as int),
        decreases n - i,
    {
        v.push(s.get_char(i));
        assert(v@ =~= s@.subrange(0, i + 1));
        i = i + 1;
    }
    assert(v@ =~= s@);
    v
}

/// Relies on `String`'s `FromIterator<char>` implementation: collecting
/// characters yields the string of exactly those characters.
#[verifier::external_body]
pub fn string_from_chars(v: Vec<char>) -> (s: String)
    ensures
        s@ == v@,
{
    String::from_iter(v)
}

/// Whether a character buffer fits in `budget` display columns.
pub fn width_le(v: &Vec<char>, budget: usize) -> (b: bool)
    ensures
        b == (sp_width(v@) <= budget),
{
    let mut acc: usize = 0;
    let mut i: usize = 0;
    proof {
        assert(v@.subrange(0, 0) =~= Seq::<char>::empty());
    }
    while i < v.len()
        invariant
            i <= v@.len(),
            acc == sp_width(v@.subrange(0, i as int)),
            acc <= budget,
        decreases v@.len() - i,
    {
        let w = char_width(v[i]);
        proof {
            assert(v@.subrange(0, i + 1) =~= v@.subrange(0, i as int).push(v@[i as int]));
            lemma_width_push(v@.subrange(0, i as int), v@[i as int]);
        }
        if w > budget - acc {
            assert(acc + w > budget);
            proof {
                lemma_width_prefix_le(v@, i + 1);
            }
            return false;
        }
        acc = acc + w;
        i = i + 1;
    }
    assert(v@.subrange(0, v@.len() as int) =~= v@);
    true
}

/// Display width of a character buffer, saturating at `usize::MAX`.
pub fn width_of_chars(v: &Vec<char>) -> (w: usize)
    ensures
        sp_width(v@) <= usize::MAX ==> w == sp_width(v@),
        sp_width(v@) > usize::MAX ==> w == usize::MAX,
{
    let mut acc: usize = 0;
    let mut i: usize = 0;
    let mut saturated = false;
    proof {
        assert(v@.subrange(0, 0) =~= Seq::<char>::empty());
    }
    while i < v.len()
        invariant
            i <= v@.len(),
            !saturated ==> acc == sp_width(v@.subrange(0, i as int)),
            saturated ==> acc == usize::MAX && sp_width(v@.subrange(0, i as int)) > usize::MAX,
        decreases v@.len() - i,
    {
        let w = char_width(v[i]);
        proof {
            assert(v@.subrange(0, i + 1) =~= v@.subrange(0, i as int).push(v@[i as int]));
            lemma_width_push(v@.subrange(0, i as int), v@[i as int]);
        }
        if saturated {
        } else if acc > usize::MAX - w {
            saturated = true;
            acc = usize::MAX;
        } else {
            acc = acc + w;
        }
        i = i + 1;
    }
    assert(v@.subrange(0, v@.len() as int) =~= v@);
    acc
}

} // verus!
