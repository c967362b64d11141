//! Literals: C-style integers with size suffixes, character literals with
//! escapes and encoding prefixes, and user-defined literal suffixes.

use vstd::prelude::*;
use crate::atoms;
use crate::text;

verus! {

/// A literal value, or something that looks close enough to it
#[derive(Clone, Copy, Debug, Eq, PartialEq, Structural)]
pub enum LiteralValue {
    /// Signed 64-bit integer
    I64(i64),
    /// Unsigned 64-bit integer
    U64(u64),
    /// Character
    Char(char),
}

/// A modern C++ literal, accounting for custom literals
#[derive(Clone, Debug, PartialEq)]
pub struct Literal {
    /// Inner value
    pub value: LiteralValue,
    /// Custom literal suffix, if any
    pub custom_suffix: Option<String>,
}

/// Decimal digit test
pub open spec fn is_digit(c: char) -> bool {
    '0' as u32 <= c as u32 && c as u32 <= '9' as u32
}

/// Executable test for [`is_digit`]
pub fn digit_char(c: char) -> (b: bool)
    ensures
        b == is_digit(c),
{
    c >= '0' && c <= '9'
}

/// End of the run of decimal digits from `pos`
pub open spec fn sp_digits_end(s: Seq<char>, pos: int) -> int
    decreases s.len() - pos,
{
    if 0 <= pos < s.len() && is_digit(s[pos]) {
        sp_digits_end(s, pos + 1)
    } else {
        pos
    }
}

pub proof fn lemma_digits_end_bounds(s: Seq<char>, pos: int)
    requires
        0 <= pos <= s.len(),
    ensures
        pos <= sp_digits_end(s, pos) <= s.len(),
        forall|j: int| pos <= j < sp_digits_end(s, pos) ==> is_digit(s[j]),
        sp_digits_end(s, pos) < s.len() ==> !is_digit(s[sp_digits_end(s, pos)]),
    decreases s.len() - pos,
{
    if 0 <= pos < s.len() && is_digit(s[pos]) {
        lemma_digits_end_bounds(s, pos + 1);
    }
}

/// Numeric value of the digits `s[pos..end)`, most significant first
pub open spec fn sp_digits_val(s: Seq<char>, pos: int, end: int) -> int
    decreases end - pos,
{
    if pos >= end {
        0
    } else {
        sp_digits_val(s, pos, end - 1) * 10 + (s[end - 1] as u32 - '0' as u32)
    }
}

pub proof fn lemma_digits_val_nonneg(s: Seq<char>, pos: int, end: int)
    requires
        forall|j: int| pos <= j < end ==> is_digit(s[j]),
    ensures
        sp_digits_val(s, pos, end) >= 0,
    decreases end - pos,
{
    if pos < end {
        lemma_digits_val_nonneg(s, pos, end - 1);
    }
}

/// The value of a longer digit run is at least that of any prefix run.
pub proof fn lemma_digits_val_monotone(s: Seq<char>, pos: int, e1: int, e2: int)
    requires
        pos <= e1 <= e2,
        forall|j: int| pos <= j < e2 ==> is_digit(s[j]),
    ensures
        sp_digits_val(s, pos, e1) <= sp_digits_val(s, pos, e2),
    decreases e2 - e1,
{
    if e1 < e2 {
        lemma_digits_val_monotone(s, pos, e1, e2 - 1);
        lemma_digits_val_nonneg(s, pos, e2 - 1);
    }
}

/// End of the run of integer-size suffix characters (`U`, `L`, `Z`, any case)
pub open spec fn is_int_suffix_char(c: char) -> bool {
    c == 'u' || c == 'U' || c == 'l' || c == 'L' || c == 'z' || c == 'Z'
}

/// End of the run of integer suffix characters from `pos`
pub open spec fn sp_int_suffix_end(s: Seq<char>, pos: int) -> int
    decreases s.len() - pos,
{
    if 0 <= pos < s.len() && is_int_suffix_char(s[pos]) {
        sp_int_suffix_end(s, pos + 1)
    } else {
        pos
    }
}

pub proof fn lemma_int_suffix_end_bounds(s: Seq<char>, pos: int)
    requires
        0 <= pos <= s.len(),
    ensures
        pos <= sp_int_suffix_end(s, pos) <= s.len(),
    decreases s.len() - pos,
{
    if 0 <= pos < s.len() && is_int_suffix_char(s[pos]) {
        lemma_int_suffix_end_bounds(s, pos + 1);
    }
}

/// Parse a C-style integer literal, preferring a signed 64-bit reading and
/// falling back to unsigned 64-bit, then consume any size suffix characters.
/// An explicit sign rules out the unsigned fallback.
pub open spec fn sp_integer(s: Seq<char>, pos: int) -> Option<(LiteralValue, int)> {
    if !(0 <= pos <= s.len()) {
        None
    } else {
        let neg = pos < s.len() && s[pos] == '-';
        let plus = pos < s.len() && s[pos] == '+';
        let dstart = if neg || plus { pos + 1 } else { pos };
        let dend = sp_digits_end(s, dstart);
        if dend == dstart {
            None
        } else {
            let m = sp_digits_val(s, dstart, dend);
            let e = sp_int_suffix_end(s, dend);
            if neg {
                if m <= 0x8000_0000_0000_0000 {
                    Some((LiteralValue::I64((-m) as i64), e))
                } else {
                    None
                }
            } else if m <= i64::MAX {
                Some((LiteralValue::I64(m as i64), e))
            } else if !plus && m <= u64::MAX {
                Some((LiteralValue::U64(m as u64), e))
            } else {
                None
            }
        }
    }
}

/// Digit-run magnitude, accumulated in a `u64`; the flag reports overflow
/// past `u64::MAX`.
fn digits_magnitude(inp: &Vec<char>, dstart: usize, dend: usize) -> (r: (u64, bool))
    requires
        dstart <= dend <= inp@.len(),
        forall|j: int| dstart <= j < dend ==> is_digit(inp@[j]),
    ensures
        !r.1 ==> r.0 == sp_digits_val(inp@, dstart as int, dend as int),
        r.1 ==> sp_digits_val(inp@, dstart as int, dend as int) > u64::MAX,
{
    let mut acc: u64 = 0;
    let mut i: usize = dstart;
    while i < dend
        invariant
            dstart <= i <= dend <= inp@.len(),
            forall|j: int| dstart <= j < dend ==> is_digit(inp@[j]),
            acc == sp_digits_val(inp@, dstart as int, i as int),
        decreases dend - i,
    {
        let c = inp[i];
        assert(is_digit(inp@[i as int]));
        let d: u64 = (c as u32 - '0' as u32) as u64;
        assert(d <= 9);
        if acc > (u64::MAX - d) / 10 {
            proof {
                assert(acc * 10 + d > u64::MAX) by (nonlinear_arith)
                    requires acc > (u64::MAX - d) / 10 && d <= 9 && acc <= u64::MAX
                ;
                assert(sp_digits_val(inp@, dstart as int, i + 1)
                    == acc * 10 + d);
                lemma_digits_val_monotone(inp@, dstart as int, i + 1, dend as int);
            }
            return (0, true);
        }
        proof {
            assert(acc * 10 + d <= u64::MAX) by (nonlinear_arith)
                requires acc <= (u64::MAX - d) / 10 && d <= 9
            ;
        }
        acc = acc * 10 + d;
        i = i + 1;
    }
    (acc, false)
}

/// Parser for C-style integer literals (including negative numbers)
pub fn integer(inp: &Vec<char>, pos: usize) -> (r: Option<(LiteralValue, usize)>)
    requires
        pos <= inp@.len(),
    ensures
        atoms::omatch(r, sp_integer(inp@, pos as int)),
        r is Some ==> pos < r.unwrap().1 <= inp@.len(),
{
    let n = inp.len();
    let neg = pos < n && inp[pos] == '-';
    let plus = pos < n && inp[pos] == '+';
    let dstart = if neg || plus { pos + 1 } else { pos };
    proof {
        lemma_digits_end_bounds(inp@, dstart as int);
    }
    let mut dend: usize = dstart;
    while dend < n && digit_char(inp[dend])
        invariant
            dstart <= dend <= n == inp@.len(),
            sp_digits_end(inp@, dstart as int) == sp_digits_end(inp@, dend as int),
        decreases n - dend,
    {
        proof {
            lemma_digits_end_bounds(inp@, dend + 1);
        }
        dend = dend + 1;
    }
    proof {
        if (dend as int) < inp@.len() {
            assert(!is_digit(inp@[dend as int]));
        }
        assert(sp_digits_end(inp@, dend as int) == dend as int);
    }
    if dend == dstart {
        return None;
    }
    proof {
        lemma_digits_end_bounds(inp@, dstart as int);
    }
    let (mag, overflow) = digits_magnitude(inp, dstart, dend);
    proof {
        lemma_int_suffix_end_bounds(inp@, dend as int);
    }
    let mut e: usize = dend;
    while e < n && (inp[e] == 'u' || inp[e] == 'U' || inp[e] == 'l' || inp[e] == 'L'
            || inp[e] == 'z' || inp[e] == 'Z')
        invariant
            dend <= e <= n == inp@.len(),
            sp_int_suffix_end(inp@, dend as int) == sp_int_suffix_end(inp@, e as int),
        decreases n - e,
    {
        proof {
            lemma_int_suffix_end_bounds(inp@, e + 1);
        }
        e = e + 1;
    }
    assert(e as int == sp_int_suffix_end(inp@, dend as int));
    if overflow {
        return None;
    }
    if neg {
        if mag <= 0x7fff_ffff_ffff_ffff {
            Some((LiteralValue::I64(-(mag as i64)), e))
        } else if mag == 0x8000_0000_0000_0000 {
            Some((LiteralValue::I64(i64::MIN), e))
        } else {
            None
        }
    } else if mag <= 0x7fff_ffff_ffff_ffff {
        Some((LiteralValue::I64(mag as i64), e))
    } else if !plus {
        Some((LiteralValue::U64(mag), e))
    } else {
        None
    }
}

/// Parse a character literal: an optional encoding prefix (`u8`, `u`, `U`,
/// `L`), then a single-quoted character or backslash escape.
pub open spec fn sp_escape_of(c: char) -> Option<char> {
    if c == 't' { Some('\t') }
    else if c == 'r' { Some('\r') }
    else if c == 'n' { Some('\n') }
    else if c == '\'' { Some('\'') }
    else if c == '"' { Some('"') }
    else if c == '\\' { Some('\\') }
    else { None }
}

pub open spec fn sp_character(s: Seq<char>, pos: int) -> Option<(char, int)> {
    if !(0 <= pos <= s.len()) {
        None
    } else {
        let p = if atoms::sp_lit_at(s, pos, "u8"@) {
            pos + 2
        } else if pos < s.len() && (s[pos] == 'u' || s[pos] == 'U' || s[pos] == 'L') {
            pos + 1
        } else {
            pos
        };
        if !(p + 2 <= s.len() && s[p] == '\'') {
            None
        } else if s[p + 1] == '\\' && p + 2 < s.len() && sp_escape_of(s[p + 2]) is Some {
            if p + 3 < s.len() && s[p + 3] == '\'' {
                Some((sp_escape_of(s[p + 2]).unwrap(), p + 4))
            } else {
                None
            }
        } else if p + 2 < s.len() && s[p + 2] == '\'' {
            Some((s[p + 1], p + 3))
        } else {
            None
        }
    }
}

/// Parser for C-style character literals
pub fn character(inp: &Vec<char>, pos: usize) -> (r: Option<(char, usize)>)
    requires
        pos <= inp@.len(),
    ensures
        atoms::omatch(r, sp_character(inp@, pos as int)),
        r is Some ==> pos < r.unwrap().1 <= inp@.len(),
{
    proof {
        reveal_strlit("u8");
    }
    let n = inp.len();
    let p = if atoms::lit_at(inp, pos, "u8") {
        pos + 2
    } else if pos < n && (inp[pos] == 'u' || inp[pos] == 'U' || inp[pos] == 'L') {
        pos + 1
    } else {
        pos
    };
    if !(n - p >= 2 && inp[p] == '\'') {
        return None;
    }
    if inp[p + 1] == '\\' && p + 2 < n {
        let esc = inp[p + 2];
        let mapped = if esc == 't' { Some('\t') }
        else if esc == 'r' { Some('\r') }
        else if esc == 'n' { Some('\n') }
        else if esc == '\'' { Some('\'') }
        else if esc == '"' { Some('"') }
        else if esc == '\\' { Some('\\') }
        else { None };
        if let Some(c) = mapped {
            if p + 3 < n && inp[p + 3] == '\'' {
                return Some((c, p + 4));
            } else {
                return None;
            }
        }
    }
    if p + 2 < n && inp[p + 2] == '\'' {
        Some((inp[p + 1], p + 3))
    } else {
        None
    }
}

/// Parse a literal value: an integer, or else a character literal.
pub open spec fn sp_literal_value(s: Seq<char>, pos: int) -> Option<(LiteralValue, int)> {
    match sp_integer(s, pos) {
        Some(r) => Some(r),
        None => match sp_character(s, pos) {
            Some((c, p)) => Some((LiteralValue::Char(c), p)),
            None => None,
        },
    }
}

/// Parser for literal values
pub fn literal_value(inp: &Vec<char>, pos: usize) -> (r: Option<(LiteralValue, usize)>)
    requires
        pos <= inp@.len(),
    ensures
        atoms::omatch(r, sp_literal_value(inp@, pos as int)),
        r is Some ==> pos < r.unwrap().1 <= inp@.len(),
{
    if let Some((v, p)) = integer(inp, pos) {
        Some((v, p))
    } else if let Some((c, p)) = character(inp, pos) {
        Some((LiteralValue::Char(c), p))
    } else {
        None
    }
}

/// Parse a literal: a value followed by an optional user-defined suffix,
/// which must be a valid identifier.
pub open spec fn sp_literal(s: Seq<char>, pos: int) -> Option<(LiteralValue, Option<Seq<char>>, int)> {
    match sp_literal_value(s, pos) {
        Some((v, p)) => match atoms::sp_identifier(s, p) {
            Some((id, p2)) => Some((v, Some(id), p2)),
            None => Some((v, None, p)),
        },
        None => None,
    }
}

/// Parser for literals
pub fn literal(inp: &Vec<char>, pos: usize) -> (r: Option<(Literal, usize)>)
    requires
        pos <= inp@.len(),
    ensures
        match r {
            Some((lit, p)) => {
                &&& pos < p <= inp@.len()
                &&& match sp_literal(inp@, pos as int) {
                    Some((v, suf, q)) => {
                        &&& lit.value == v
                        &&& p as int == q
                        &&& match (lit.custom_suffix, suf) {
                            (Some(cs), Some(sq)) => cs@ == sq,
                            (None, None) => true,
                            _ => false,
                        }
                    },
                    None => false,
                }
            },
            None => sp_literal(inp@, pos as int) is None,
        },
{
    if let Some((v, p)) = literal_value(inp, pos) {
        if let Some((id, p2)) = atoms::identifier(inp, p) {
            let suffix = text::string_from_chars(id);
            Some((Literal { value: v, custom_suffix: Some(suffix) }, p2))
        } else {
            Some((Literal { value: v, custom_suffix: None }, p))
        }
    } else {
        None
    }
}

} // verus!
