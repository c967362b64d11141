//! Atomic recognizers: operator symbols, identifiers, keywords, whitespace,
//! and the `const`/`volatile` and reference qualifiers.
//!
//! Every parser works on a buffer of characters and a start position, and
//! returns the parsed value together with the position of the first character
//! it did not consume.  Each has a specification-level mirror that pins the
//! result down exactly.

use vstd::prelude::*;

verus! {

/// Relates an executable parse result to its specification mirror.
pub open spec fn omatch<T>(r: Option<(T, usize)>, s: Option<(T, int)>) -> bool {
    match r {
        Some((v, p)) => s == Some((v, p as int)),
        None => s is None,
    }
}

/// Symbols most commonly found in C++ operator names
#[derive(Debug, PartialEq, Eq, Clone, Copy, Structural)]
pub enum Symbol {
    /// +
    AddPlus,
    /// -
    SubNeg,
    /// *
    MulDeref,
    /// /
    Div,
    /// %
    Mod,
    /// ^
    Xor,
    /// &
    AndRef,
    /// |
    Or,
    /// ~
    BitNot,
    /// !
    Not,
    /// =
    AssignEq,
    /// <
    Less,
    /// >
    Greater,
    /// ,
    Comma,
}

/// The operator symbol a single character decodes to, if any
pub open spec fn spec_symbol_of(c: char) -> Option<Symbol> {
    if c == '+' { Some(Symbol::AddPlus) }
    else if c == '-' { Some(Symbol::SubNeg) }
    else if c == '*' { Some(Symbol::MulDeref) }
    else if c == '/' { Some(Symbol::Div) }
    else if c == '%' { Some(Symbol::Mod) }
    else if c == '^' { Some(Symbol::Xor) }
    else if c == '&' { Some(Symbol::AndRef) }
    else if c == '|' { Some(Symbol::Or) }
    else if c == '~' { Some(Symbol::BitNot) }
    else if c == '!' { Some(Symbol::Not) }
    else if c == '=' { Some(Symbol::AssignEq) }
    else if c == '<' { Some(Symbol::Less) }
    else if c == '>' { Some(Symbol::Greater) }
    else if c == ',' { Some(Symbol::Comma) }
    else { None }
}

/// Parse one operator symbol: consumes exactly one character.
pub open spec fn spec_symbol(s: Seq<char>, pos: int) -> Option<(Symbol, int)> {
    if 0 <= pos < s.len() {
        match spec_symbol_of(s[pos]) {
            Some(sym) => Some((sym, pos + 1)),
            None => None,
        }
    } else {
        None
    }
}

/// Parser for symbols most commonly found in C++ operator names
pub fn symbol(inp: &Vec<char>, pos: usize) -> (r: Option<(Symbol, usize)>)
    requires
        pos <= inp@.len(),
    ensures
        omatch(r, spec_symbol(inp@, pos as int)),
{
    if pos >= inp.len() {
        return None;
    }
    let c = inp[pos];
    let sym = if c == '+' { Symbol::AddPlus }
    else if c == '-' { Symbol::SubNeg }
    else if c == '*' { Symbol::MulDeref }
    else if c == '/' { Symbol::Div }
    else if c == '%' { Symbol::Mod }
    else if c == '^' { Symbol::Xor }
    else if c == '&' { Symbol::AndRef }
    else if c == '|' { Symbol::Or }
    else if c == '~' { Symbol::BitNot }
    else if c == '!' { Symbol::Not }
    else if c == '=' { Symbol::AssignEq }
    else if c == '<' { Symbol::Less }
    else if c == '>' { Symbol::Greater }
    else if c == ',' { Symbol::Comma }
    else { return None; };
    Some((sym, pos + 1))
}

/// First character of an identifier: a letter or an underscore
pub open spec fn is_ident_start(c: char) -> bool {
    ('a' as u32 <= c as u32 && c as u32 <= 'z' as u32)
    || ('A' as u32 <= c as u32 && c as u32 <= 'Z' as u32)
    || c == '_'
}

/// Continuation character of an identifier: a letter, a digit or an underscore
pub open spec fn is_ident_cont(c: char) -> bool {
    is_ident_start(c) || ('0' as u32 <= c as u32 && c as u32 <= '9' as u32)
}

/// Executable test for [`is_ident_start`]
pub fn ident_start(c: char) -> (b: bool)
    ensures
        b == is_ident_start(c),
{
    (c >= 'a' && c <= 'z') || (c >= 'A' && c <= 'Z') || c == '_'
}

/// Executable test for [`is_ident_cont`]
pub fn ident_cont(c: char) -> (b: bool)
    ensures
        b == is_ident_cont(c),
{
    ident_start(c) || (c >= '0' && c <= '9')
}

/// Whether the literal `lit` occurs in `s` starting at `pos`
pub open spec fn sp_lit_at(s: Seq<char>, pos: int, lit: Seq<char>) -> bool {
    0 <= pos && pos + lit.len() <= s.len() && s.subrange(pos, pos + lit.len()) == lit
}

/// Executable test for [`sp_lit_at`]
pub fn lit_at(inp: &Vec<char>, pos: usize, lit: &str) -> (b: bool)
    requires
        pos <= inp@.len(),
    ensures
        b == sp_lit_at(inp@, pos as int, lit@),
{
    let k = lit.unicode_len();
    let n = inp.len();
    if n - pos < k {
        return false;
    }
    let mut i: usize = 0;
    while i < k
        invariant
            pos + k <= n == inp@.len(),
            k == lit@.len(),
            i <= k,
            forall|j: int| 0 <= j < i ==> inp@[pos + j] == lit@[j],
        decreases k - i,
    {
        assert(pos + i < n);
        if lit.get_char(i) != inp[pos + i] {
            assert(inp@.subrange(pos as int, pos + k) != lit@) by {
                assert(inp@.subrange(pos as int, pos + k)[i as int] != lit@[i as int]);
            }
            return false;
        }
        i = i + 1;
    }
    assert(inp@.subrange(pos as int, pos + k) =~= lit@);
    true
}

/// End of the longest run of identifier-continuation characters from `pos`
pub open spec fn sp_ident_end(s: Seq<char>, pos: int) -> int
    decreases s.len() - pos,
{
    if 0 <= pos < s.len() && is_ident_cont(s[pos]) {
        sp_ident_end(s, pos + 1)
    } else {
        pos
    }
}

proof fn lemma_ident_end_bounds(s: Seq<char>, pos: int)
    requires
        0 <= pos <= s.len(),
    ensures
        pos <= sp_ident_end(s, pos) <= s.len(),
        forall|j: int| pos <= j < sp_ident_end(s, pos) ==> is_ident_cont(s[j]),
        sp_ident_end(s, pos) < s.len() ==> !is_ident_cont(s[sp_ident_end(s, pos)]),
    decreases s.len() - pos,
{
    if 0 <= pos < s.len() && is_ident_cont(s[pos]) {
        lemma_ident_end_bounds(s, pos + 1);
    }
}

/// Parse an identifier: `[A-Za-z_][A-Za-z0-9_]*`, with maximal munch.
pub open spec fn sp_identifier(s: Seq<char>, pos: int) -> Option<(Seq<char>, int)> {
    if 0 <= pos < s.len() && is_ident_start(s[pos]) {
        let end = sp_ident_end(s, pos);
        Some((s.subrange(pos, end), end))
    } else {
        None
    }
}

/// Parser for identifiers, returning the matched characters
pub fn identifier(inp: &Vec<char>, pos: usize) -> (r: Option<(Vec<char>, usize)>)
    requires
        pos <= inp@.len(),
    ensures
        match r {
            Some((v, p)) => sp_identifier(inp@, pos as int) == Some((v@, p as int))
                && pos < p <= inp@.len(),
            None => sp_identifier(inp@, pos as int) is None,
        },
{
    if pos >= inp.len() || !ident_start(inp[pos]) {
        return None;
    }
    proof {
        lemma_ident_end_bounds(inp@, pos as int);
    }
    let ghost end = sp_ident_end(inp@, pos as int);
    let mut i: usize = pos;
    let mut out: Vec<char> = Vec::new();
    while i < inp.len() && ident_cont(inp[i])
        invariant
            pos <= i <= inp@.len(),
            i <= end <= inp@.len(),
            sp_ident_end(inp@, i as int) == end,
            out@ == inp@.subrange(pos as int, i as int),
        decreases inp@.len() - i,
    {
        proof {
            lemma_ident_end_bounds(inp@, i as int);
        }
        out.push(inp[i]);
        assert(out@ =~= inp@.subrange(pos as int, i + 1));
        i = i + 1;
    }
    assert(i == end);
    Some((out, i))
}

/// End of the run of blank characters (spaces and tabs) from `pos`
pub open spec fn sp_space_end(s: Seq<char>, pos: int) -> int
    decreases s.len() - pos,
{
    if 0 <= pos < s.len() && (s[pos] == ' ' || s[pos] == '\t') {
        sp_space_end(s, pos + 1)
    } else {
        pos
    }
}

pub proof fn lemma_space_end_bounds(s: Seq<char>, pos: int)
    requires
        0 <= pos <= s.len(),
    ensures
        pos <= sp_space_end(s, pos) <= s.len(),
    decreases s.len() - pos,
{
    if 0 <= pos < s.len() && (s[pos] == ' ' || s[pos] == '\t') {
        lemma_space_end_bounds(s, pos + 1);
    }
}

/// Consume zero or more blanks
pub fn space0(inp: &Vec<char>, pos: usize) -> (p: usize)
    requires
        pos <= inp@.len(),
    ensures
        p as int == sp_space_end(inp@, pos as int),
        pos <= p <= inp@.len(),
{
    proof {
        lemma_space_end_bounds(inp@, pos as int);
    }
    let mut i: usize = pos;
    while i < inp.len() && (inp[i] == ' ' || inp[i] == '\t')
        invariant
            pos <= i <= inp@.len(),
            sp_space_end(inp@, pos as int) == sp_space_end(inp@, i as int),
        decreases inp@.len() - i,
    {
        proof {
            lemma_space_end_bounds(inp@, i + 1);
        }
        i = i + 1;
    }
    assert(sp_space_end(inp@, i as int) == i as int);
    i
}

/// Consume one or more blanks; fails if none is present.
pub open spec fn sp_space1(s: Seq<char>, pos: int) -> Option<int> {
    if 0 <= pos < s.len() && (s[pos] == ' ' || s[pos] == '\t') {
        Some(sp_space_end(s, pos))
    } else {
        None
    }
}

/// Parser for one or more blanks
pub fn space1(inp: &Vec<char>, pos: usize) -> (r: Option<usize>)
    requires
        pos <= inp@.len(),
    ensures
        match r {
            Some(p) => sp_space1(inp@, pos as int) == Some(p as int)
                && pos < p <= inp@.len(),
            None => sp_space1(inp@, pos as int) is None,
        },
{
    if pos < inp.len() && (inp[pos] == ' ' || inp[pos] == '\t') {
        proof {
            lemma_space_end_bounds(inp@, pos + 1);
            assert(sp_space_end(inp@, pos as int) == sp_space_end(inp@, pos + 1));
        }
        Some(space0(inp, pos))
    } else {
        None
    }
}

/// Match the keyword `kw` at `pos`: the literal text, not followed by an
/// identifier-continuation character.
pub open spec fn sp_keyword(s: Seq<char>, pos: int, kw: Seq<char>) -> Option<int> {
    if sp_lit_at(s, pos, kw)
        && (pos + kw.len() == s.len() || !is_ident_cont(s[pos + kw.len()])) {
        Some(pos + kw.len())
    } else {
        None
    }
}

/// Parser for a fixed keyword
pub fn keyword(inp: &Vec<char>, pos: usize, kw: &str) -> (r: Option<usize>)
    requires
        pos <= inp@.len(),
    ensures
        match r {
            Some(p) => sp_keyword(inp@, pos as int, kw@) == Some(p as int)
                && pos <= p <= inp@.len(),
            None => sp_keyword(inp@, pos as int, kw@) is None,
        },
{
    if !lit_at(inp, pos, kw) {
        return None;
    }
    let n = inp.len();
    let k = kw.unicode_len();
    assert(pos + k <= n);
    let end = pos + k;
    if end == inp.len() || !ident_cont(inp[end]) {
        Some(end)
    } else {
        None
    }
}

/// CV qualifiers: whether `const` and/or `volatile` apply
#[derive(Debug, PartialEq, Eq, Clone, Copy, Structural)]
pub struct ConstVolatile {
    /// `const` was given
    pub is_const: bool,
    /// `volatile` was given
    pub is_volatile: bool,
}

impl ConstVolatile {
    /// Neither qualifier
    pub fn none() -> (r: ConstVolatile)
        ensures
            r == (ConstVolatile { is_const: false, is_volatile: false }),
    {
        ConstVolatile { is_const: false, is_volatile: false }
    }

    /// Bitwise union of two qualifier sets
    pub fn union(self, other: ConstVolatile) -> (r: ConstVolatile)
        ensures
            r == (ConstVolatile {
                is_const: self.is_const || other.is_const,
                is_volatile: self.is_volatile || other.is_volatile,
            }),
    {
        ConstVolatile {
            is_const: self.is_const || other.is_const,
            is_volatile: self.is_volatile || other.is_volatile,
        }
    }
}

/// Parse optional `const`/`volatile` qualifiers, in any order and number,
/// separated by blanks; never fails.  Consumes the blanks that follow each
/// matched keyword only when another qualifier keyword comes after them.
pub open spec fn sp_cv(s: Seq<char>, pos: int, acc: ConstVolatile) -> (ConstVolatile, int)
    decreases s.len() - pos when 0 <= pos <= s.len()
{
    let after = sp_space_end(s, pos);
    if sp_keyword(s, after, "const"@) is Some {
        let p2 = sp_keyword(s, after, "const"@).unwrap();
        if p2 > pos {
            sp_cv(s, p2, ConstVolatile { is_const: true, is_volatile: acc.is_volatile })
        } else {
            (acc, pos)
        }
    } else if sp_keyword(s, after, "volatile"@) is Some {
        let p2 = sp_keyword(s, after, "volatile"@).unwrap();
        if p2 > pos {
            sp_cv(s, p2, ConstVolatile { is_const: acc.is_const, is_volatile: true })
        } else {
            (acc, pos)
        }
    } else {
        (acc, pos)
    }
}

/// Parser for CV qualifiers; never fails.
pub fn cv(inp: &Vec<char>, pos: usize) -> (r: (ConstVolatile, usize))
    requires
        pos <= inp@.len(),
    ensures
        sp_cv(inp@, pos as int, ConstVolatile { is_const: false, is_volatile: false })
            == (r.0, r.1 as int),
        pos <= r.1 <= inp@.len(),
{
    let mut acc = ConstVolatile::none();
    let mut i: usize = pos;
    loop
        invariant
            pos <= i <= inp@.len(),
            sp_cv(inp@, pos as int, ConstVolatile { is_const: false, is_volatile: false })
                == sp_cv(inp@, i as int, acc),
        decreases inp@.len() - i,
    {
        let after = space0(inp, i);
        if let Some(p2) = keyword(inp, after, "const") {
            if p2 > i {
                acc = ConstVolatile { is_const: true, is_volatile: acc.is_volatile };
                i = p2;
                continue;
            }
        } else if let Some(p2) = keyword(inp, after, "volatile") {
            if p2 > i {
                acc = ConstVolatile { is_const: acc.is_const, is_volatile: true };
                i = p2;
                continue;
            }
        }
        return (acc, i);
    }
}

/// Reference qualifiers parsed from `&` / `&&`
#[derive(Debug, PartialEq, Eq, Clone, Copy, Structural)]
pub enum Reference {
    /// No reference qualifier
    NoRef,
    /// `&`
    LValue,
    /// `&&`
    RValue,
}

/// Parse a reference qualifier: `&&`, `&`, or nothing; never fails.
pub open spec fn sp_reference(s: Seq<char>, pos: int) -> (Reference, int) {
    if sp_lit_at(s, pos, "&&"@) {
        (Reference::RValue, pos + 2)
    } else if sp_lit_at(s, pos, "&"@) {
        (Reference::LValue, pos + 1)
    } else {
        (Reference::NoRef, pos)
    }
}

/// Parser for reference qualifiers
pub fn reference(inp: &Vec<char>, pos: usize) -> (r: (Reference, usize))
    requires
        pos <= inp@.len(),
    ensures
        sp_reference(inp@, pos as int) == (r.0, r.1 as int),
        pos <= r.1 <= inp@.len(),
{
    proof {
        reveal_strlit("&&");
        reveal_strlit("&");
    }
    let n = inp.len();
    if lit_at(inp, pos, "&&") {
        assert(pos + 2 <= n);
        (Reference::RValue, pos + 2)
    } else if lit_at(inp, pos, "&") {
        assert(pos + 1 <= n);
        (Reference::LValue, pos + 1)
    } else {
        (Reference::NoRef, pos)
    }
}

} // verus!
