//! Parsers for the symbol-based parts of operator-overload names: the
//! arithmetic/comparison family at each candidate length, bracket pairs,
//! custom-literal names, allocation functions and `co_await`, and the binary
//! operator accepted between two expressions.

use vstd::prelude::*;
use crate::ast::{Operator, OperatorV};
use crate::atoms::{self, Symbol};
use crate::text;

verus! {

/// Parse an arithmetic or comparison operator spelled with exactly `len`
/// symbols (1 to 3).  The grammatically ambiguous `<` and `>` strike here: a
/// caller that may see template arguments retries `len` from 1 to 3 in a
/// context where the overall parse can be judged.
pub open spec fn sp_arith(s: Seq<char>, pos: int, len: int) -> Option<(OperatorV, int)> {
    if len == 1 {
        match atoms::spec_symbol(s, pos) {
            Some((sym, p)) => Some((OperatorV::Basic { symbol: sym, twice: false, equal: false }, p)),
            None => None,
        }
    } else if len == 2 {
        match (atoms::spec_symbol(s, pos), atoms::spec_symbol(s, pos + 1)) {
            (Some((s1, _)), Some((s2, p))) => {
                if s2 == Symbol::AssignEq {
                    Some((OperatorV::Basic { symbol: s1, twice: false, equal: true }, p))
                } else if s1 == s2 {
                    Some((OperatorV::Basic { symbol: s1, twice: true, equal: false }, p))
                } else if s1 == Symbol::SubNeg && s2 == Symbol::Greater {
                    Some((OperatorV::Deref { star: false }, p))
                } else {
                    None
                }
            },
            _ => None,
        }
    } else if len == 3 {
        match (atoms::spec_symbol(s, pos), atoms::spec_symbol(s, pos + 1), atoms::spec_symbol(s, pos + 2)) {
            (Some((s1, _)), Some((s2, _)), Some((s3, p))) => {
                if s1 == s2 && s3 == Symbol::AssignEq {
                    Some((OperatorV::Basic { symbol: s1, twice: true, equal: true }, p))
                } else if s1 == Symbol::SubNeg && s2 == Symbol::Greater && s3 == Symbol::MulDeref {
                    Some((OperatorV::Deref { star: true }, p))
                } else if s1 == Symbol::Less && s2 == Symbol::AssignEq && s3 == Symbol::Greater {
                    Some((OperatorV::Spaceship, p))
                } else {
                    None
                }
            },
            _ => None,
        }
    } else {
        None
    }
}

/// Parse arithmetic and comparison operators at length `LEN`
pub fn arithmetic_or_comparison<const LEN: usize>(inp: &Vec<char>, pos: usize)
    -> (r: Option<(Operator, usize)>)
    requires
        1 <= LEN <= 3,
        pos <= inp@.len(),
    ensures
        match r {
            Some((op, p)) => sp_arith(inp@, pos as int, LEN as int)
                == Some((crate::ast::v_operator(op), p as int)) && pos < p <= inp@.len(),
            None => sp_arith(inp@, pos as int, LEN as int) is None,
        },
{
    if LEN == 1 {
        match atoms::symbol(inp, pos) {
            Some((sym, p)) => Some((Operator::Basic { symbol: sym, twice: false, equal: false }, p)),
            None => None,
        }
    } else if LEN == 2 {
        let r1 = atoms::symbol(inp, pos);
        if r1.is_none() {
            return None;
        }
        let (s1, p1) = r1.unwrap();
        let r2 = atoms::symbol(inp, p1);
        if r2.is_none() {
            return None;
        }
        let (s2, p) = r2.unwrap();
        if s2 == Symbol::AssignEq {
            Some((Operator::Basic { symbol: s1, twice: false, equal: true }, p))
        } else if s1 == s2 {
            Some((Operator::Basic { symbol: s1, twice: true, equal: false }, p))
        } else if s1 == Symbol::SubNeg && s2 == Symbol::Greater {
            Some((Operator::Deref { star: false }, p))
        } else {
            None
        }
    } else {
        let r1 = atoms::symbol(inp, pos);
        if r1.is_none() {
            return None;
        }
        let (s1, p1) = r1.unwrap();
        let r2 = atoms::symbol(inp, p1);
        if r2.is_none() {
            return None;
        }
        let (s2, p2) = r2.unwrap();
        let r3 = atoms::symbol(inp, p2);
        if r3.is_none() {
            return None;
        }
        let (s3, p) = r3.unwrap();
        if s1 == s2 && s3 == Symbol::AssignEq {
            Some((Operator::Basic { symbol: s1, twice: true, equal: true }, p))
        } else if s1 == Symbol::SubNeg && s2 == Symbol::Greater && s3 == Symbol::MulDeref {
            Some((Operator::Deref { star: true }, p))
        } else if s1 == Symbol::Less && s2 == Symbol::AssignEq && s3 == Symbol::Greater {
            Some((Operator::Spaceship, p))
        } else {
            None
        }
    }
}

/// Whether a one-symbol operator may stand between two expressions
pub open spec fn sp_binary_len1_ok(sym: Symbol, allow_comma: bool, allow_greater: bool) -> bool {
    match sym {
        Symbol::BitNot | Symbol::Not => false,
        Symbol::Comma => allow_comma,
        Symbol::Greater => allow_greater,
        _ => true,
    }
}

/// Whether a two-symbol operator may stand between two expressions
pub open spec fn sp_binary_len2_ok(op: OperatorV, allow_greater: bool) -> bool {
    match op {
        OperatorV::Basic { symbol, twice: true, equal: false } => match symbol {
            Symbol::AddPlus | Symbol::SubNeg => false,
            Symbol::AndRef | Symbol::Or | Symbol::AssignEq | Symbol::Less => true,
            Symbol::Greater => allow_greater,
            _ => false,
        },
        _ => true,
    }
}

/// Parse a binary operator that can be put between two expressions: length 3,
/// then 2, then 1, with the unary-only, increment/decrement, comma and
/// greater-than spellings filtered out as the flags direct.
pub open spec fn sp_binary_expr_middle(
    s: Seq<char>,
    pos: int,
    allow_comma: bool,
    allow_greater: bool,
) -> Option<(OperatorV, int)> {
    match sp_arith(s, pos, 3) {
        Some(r) => Some(r),
        None => match sp_arith(s, pos, 2) {
            Some((op, p)) => if sp_binary_len2_ok(op, allow_greater) {
                Some((op, p))
            } else {
                None
            },
            None => match sp_arith(s, pos, 1) {
                Some((op, p)) => {
                    if op matches OperatorV::Basic { symbol, twice: false, equal: false }
                        && sp_binary_len1_ok(op->Basic_symbol, allow_comma, allow_greater) {
                        Some((op, p))
                    } else {
                        None
                    }
                },
                None => None,
            },
        },
    }
}

/// Parser for binary operators between two expressions
pub fn binary_expr_middle<const ALLOW_COMMA: bool, const ALLOW_GREATER: bool>(
    inp: &Vec<char>,
    pos: usize,
) -> (r: Option<(Operator, usize)>)
    requires
        pos <= inp@.len(),
    ensures
        match r {
            Some((op, p)) => sp_binary_expr_middle(inp@, pos as int, ALLOW_COMMA, ALLOW_GREATER)
                == Some((crate::ast::v_operator(op), p as int)) && pos < p <= inp@.len(),
            None => sp_binary_expr_middle(inp@, pos as int, ALLOW_COMMA, ALLOW_GREATER) is None,
        },
{
    if let Some((op, p)) = arithmetic_or_comparison::<3>(inp, pos) {
        return Some((op, p));
    }
    if let Some((op, p)) = arithmetic_or_comparison::<2>(inp, pos) {
        let ok = match op {
            Operator::Basic { symbol, twice: true, equal: false } => match symbol {
                Symbol::AddPlus | Symbol::SubNeg => false,
                Symbol::AndRef | Symbol::Or | Symbol::AssignEq | Symbol::Less => true,
                Symbol::Greater => ALLOW_GREATER,
                _ => false,
            },
            _ => true,
        };
        if ok {
            return Some((op, p));
        } else {
            return None;
        }
    }
    if let Some((op, p)) = arithmetic_or_comparison::<1>(inp, pos) {
        let ok = match op {
            Operator::Basic { symbol, twice: false, equal: false } => match symbol {
                Symbol::BitNot | Symbol::Not => false,
                Symbol::Comma => ALLOW_COMMA,
                Symbol::Greater => ALLOW_GREATER,
                _ => true,
            },
            _ => false,
        };
        if ok {
            return Some((op, p));
        } else {
            return None;
        }
    }
    None
}

/// Parse bracket pair operators: calling `()` and array indexing `[]`
pub open spec fn sp_call_or_index(s: Seq<char>, pos: int) -> Option<(OperatorV, int)> {
    if atoms::sp_lit_at(s, pos, "()"@) {
        Some((OperatorV::CallIndex { is_index: false }, pos + 2))
    } else if atoms::sp_lit_at(s, pos, "[]"@) {
        Some((OperatorV::CallIndex { is_index: true }, pos + 2))
    } else {
        None
    }
}

/// Parser for bracket pair operators
pub fn call_or_index(inp: &Vec<char>, pos: usize) -> (r: Option<(Operator, usize)>)
    requires
        pos <= inp@.len(),
    ensures
        match r {
            Some((op, p)) => sp_call_or_index(inp@, pos as int)
                == Some((crate::ast::v_operator(op), p as int)) && pos < p <= inp@.len(),
            None => sp_call_or_index(inp@, pos as int) is None,
        },
{
    proof {
        reveal_strlit("()");
        reveal_strlit("[]");
    }
    let n = inp.len();
    if atoms::lit_at(inp, pos, "()") {
        assert(pos + 2 <= n);
        Some((Operator::CallIndex { is_index: false }, pos + 2))
    } else if atoms::lit_at(inp, pos, "[]") {
        assert(pos + 2 <= n);
        Some((Operator::CallIndex { is_index: true }, pos + 2))
    } else {
        None
    }
}

/// Parse a custom-literal operator name: `""`, optional blanks, then the
/// suffix identifier.
pub open spec fn sp_custom_literal(s: Seq<char>, pos: int) -> Option<(OperatorV, int)> {
    if atoms::sp_lit_at(s, pos, "\"\""@) {
        let q = atoms::sp_space_end(s, pos + 2);
        match atoms::sp_identifier(s, q) {
            Some((id, p)) => Some((OperatorV::CustomLiteral(id), p)),
            None => None,
        }
    } else {
        None
    }
}

/// Parser for custom-literal operator names
pub fn custom_literal(inp: &Vec<char>, pos: usize) -> (r: Option<(Operator, usize)>)
    requires
        pos <= inp@.len(),
    ensures
        match r {
            Some((op, p)) => sp_custom_literal(inp@, pos as int)
                == Some((crate::ast::v_operator(op), p as int)) && pos < p <= inp@.len(),
            None => sp_custom_literal(inp@, pos as int) is None,
        },
{
    proof {
        reveal_strlit("\"\"");
    }
    let n = inp.len();
    if atoms::lit_at(inp, pos, "\"\"") {
        assert(pos + 2 <= n);
        let q = atoms::space0(inp, pos + 2);
        match atoms::identifier(inp, q) {
            Some((id, p)) => {
                let name = text::string_from_chars(id);
                Some((Operator::CustomLiteral(name), p))
            },
            None => None,
        }
    } else {
        None
    }
}

/// Parse allocation and deallocation functions: `new`, `delete`, and their
/// array forms.
pub open spec fn sp_new_or_delete(s: Seq<char>, pos: int) -> Option<(OperatorV, int)> {
    let kw = if atoms::sp_keyword(s, pos, "new"@) is Some {
        Some((false, atoms::sp_keyword(s, pos, "new"@).unwrap()))
    } else if atoms::sp_keyword(s, pos, "delete"@) is Some {
        Some((true, atoms::sp_keyword(s, pos, "delete"@).unwrap()))
    } else {
        None
    };
    match kw {
        Some((is_delete, p)) => {
            if atoms::sp_lit_at(s, p, "[]"@) {
                Some((OperatorV::NewDelete { is_delete, array: true }, p + 2))
            } else {
                Some((OperatorV::NewDelete { is_delete, array: false }, p))
            }
        },
        None => None,
    }
}

/// Parser for allocation and deallocation functions
pub fn new_or_delete(inp: &Vec<char>, pos: usize) -> (r: Option<(Operator, usize)>)
    requires
        pos <= inp@.len(),
    ensures
        match r {
            Some((op, p)) => sp_new_or_delete(inp@, pos as int)
                == Some((crate::ast::v_operator(op), p as int)) && pos < p <= inp@.len(),
            None => sp_new_or_delete(inp@, pos as int) is None,
        },
{
    proof {
        reveal_strlit("new");
        reveal_strlit("delete");
        reveal_strlit("[]");
    }
    let n = inp.len();
    let kw = if let Some(p) = atoms::keyword(inp, pos, "new") {
        Some((false, p))
    } else if let Some(p) = atoms::keyword(inp, pos, "delete") {
        Some((true, p))
    } else {
        None
    };
    match kw {
        Some((is_delete, p)) => {
            if atoms::lit_at(inp, p, "[]") {
                assert(p + 2 <= n);
                Some((Operator::NewDelete { is_delete, array: true }, p + 2))
            } else {
                Some((Operator::NewDelete { is_delete, array: false }, p))
            }
        },
        None => None,
    }
}

/// Parse a deallocation function name: `delete` or `delete[]`.
pub open spec fn sp_delete(s: Seq<char>, pos: int) -> Option<(OperatorV, int)> {
    match sp_new_or_delete(s, pos) {
        Some((op, p)) => {
            if op matches OperatorV::NewDelete { is_delete: true, .. } {
                Some((op, p))
            } else {
                None
            }
        },
        None => None,
    }
}

/// Parser for deallocation function names
pub fn delete(inp: &Vec<char>, pos: usize) -> (r: Option<(Operator, usize)>)
    requires
        pos <= inp@.len(),
    ensures
        match r {
            Some((op, p)) => sp_delete(inp@, pos as int)
                == Some((crate::ast::v_operator(op), p as int)) && pos < p <= inp@.len(),
            None => sp_delete(inp@, pos as int) is None,
        },
{
    match new_or_delete(inp, pos) {
        Some((op, p)) => {
            let is_del = match op {
                Operator::NewDelete { is_delete, .. } => is_delete,
                _ => false,
            };
            if is_del {
                Some((op, p))
            } else {
                None
            }
        },
        None => None,
    }
}

/// Parse the `co_await` operator name.
pub open spec fn sp_co_await(s: Seq<char>, pos: int) -> Option<(OperatorV, int)> {
    match atoms::sp_keyword(s, pos, "co_await"@) {
        Some(p) => Some((OperatorV::CoAwait, p)),
        None => None,
    }
}

/// Parser for the `co_await` operator name
pub fn co_await(inp: &Vec<char>, pos: usize) -> (r: Option<(Operator, usize)>)
    requires
        pos <= inp@.len(),
    ensures
        match r {
            Some((op, p)) => sp_co_await(inp@, pos as int)
                == Some((crate::ast::v_operator(op), p as int)) && pos < p <= inp@.len(),
            None => sp_co_await(inp@, pos as int) is None,
        },
{
    proof {
        reveal_strlit("co_await");
    }
    match atoms::keyword(inp, pos, "co_await") {
        Some(p) => Some((Operator::CoAwait, p)),
        None => None,
    }
}

} // verus!
