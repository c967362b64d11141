//! Operator parsing: symbols, arithmetic/comparison spellings, bracket
//! pairs, allocation functions, full overload names, and the unary/binary
//! operator positions.

use cpparser::ast::{Operator, TemplateParameter, TemplateParameters, TypeLike};
use cpparser::atoms::Symbol;
use cpparser::atoms::symbol;
use cpparser::grammar::type_like;
use cpparser::operators::arithmetic_or_comparison;

fn cv(s: &str) -> Vec<char> {
    s.chars().collect()
}

fn force_parse_type(s: &str) -> TypeLike {
    let inp = cv(s);
    let (t, p) = type_like(&inp, 0).expect("type must parse");
    assert_eq!(p, inp.len(), "type must consume all input");
    t
}

fn basic(symbol: Symbol, twice: bool, equal: bool) -> Operator {
    Operator::Basic { symbol, twice, equal }
}

#[test]
fn mod_symbol() {
    assert_eq!(symbol(&cv("+"), 0), Some((Symbol::AddPlus, 1)));
    assert_eq!(symbol(&cv("-"), 0), Some((Symbol::SubNeg, 1)));
    assert_eq!(symbol(&cv("*"), 0), Some((Symbol::MulDeref, 1)));
    assert_eq!(symbol(&cv("/"), 0), Some((Symbol::Div, 1)));
    assert_eq!(symbol(&cv("%"), 0), Some((Symbol::Mod, 1)));
    assert_eq!(symbol(&cv("^"), 0), Some((Symbol::Xor, 1)));
    assert_eq!(symbol(&cv("&"), 0), Some((Symbol::AndRef, 1)));
    assert_eq!(symbol(&cv("|"), 0), Some((Symbol::Or, 1)));
    assert_eq!(symbol(&cv("~"), 0), Some((Symbol::BitNot, 1)));
    assert_eq!(symbol(&cv("!"), 0), Some((Symbol::Not, 1)));
    assert_eq!(symbol(&cv("="), 0), Some((Symbol::AssignEq, 1)));
    assert_eq!(symbol(&cv("<"), 0), Some((Symbol::Less, 1)));
    assert_eq!(symbol(&cv(">"), 0), Some((Symbol::Greater, 1)));
    assert_eq!(symbol(&cv(","), 0), Some((Symbol::Comma, 1)));
}

#[test]
fn operators_symbol() {
    // The same table, exercised at a nonzero start position and on failures
    assert_eq!(symbol(&cv("x+"), 1), Some((Symbol::AddPlus, 2)));
    assert_eq!(symbol(&cv("a"), 0), None);
    assert_eq!(symbol(&cv(""), 0), None);
    assert_eq!(symbol(&cv(" "), 0), None);
}

#[test]
fn mod_arithmetic_or_comparison() {
    // Lone symbol
    assert_eq!(
        arithmetic_or_comparison::<1>(&cv("+"), 0),
        Some((basic(Symbol::AddPlus, false, false), 1))
    );
    // Symbol with equal sign: length 1 leaves the `=` unconsumed
    assert_eq!(
        arithmetic_or_comparison::<1>(&cv("-="), 0),
        Some((basic(Symbol::SubNeg, false, false), 1))
    );
    assert_eq!(
        arithmetic_or_comparison::<2>(&cv("-="), 0),
        Some((basic(Symbol::SubNeg, false, true), 2))
    );
    // Duplicated symbol
    assert_eq!(
        arithmetic_or_comparison::<1>(&cv("<<"), 0),
        Some((basic(Symbol::Less, false, false), 1))
    );
    assert_eq!(
        arithmetic_or_comparison::<2>(&cv("<<"), 0),
        Some((basic(Symbol::Less, true, false), 2))
    );
    // Duplicated symbol with equal sign
    assert_eq!(
        arithmetic_or_comparison::<1>(&cv(">>="), 0),
        Some((basic(Symbol::Greater, false, false), 1))
    );
    assert_eq!(
        arithmetic_or_comparison::<2>(&cv(">>="), 0),
        Some((basic(Symbol::Greater, true, false), 2))
    );
    assert_eq!(
        arithmetic_or_comparison::<3>(&cv(">>="), 0),
        Some((basic(Symbol::Greater, true, true), 3))
    );
    // Equality is parsed as `=` with an equal sign, for consistency with
    // the other comparison operators
    assert_eq!(
        arithmetic_or_comparison::<2>(&cv("=="), 0),
        Some((basic(Symbol::AssignEq, false, true), 2))
    );
    // Spaceship and dereference get their own variants
    assert_eq!(
        arithmetic_or_comparison::<3>(&cv("<=>"), 0),
        Some((Operator::Spaceship, 3))
    );
    assert_eq!(
        arithmetic_or_comparison::<1>(&cv("->"), 0),
        Some((basic(Symbol::SubNeg, false, false), 1))
    );
    assert_eq!(
        arithmetic_or_comparison::<2>(&cv("->"), 0),
        Some((Operator::Deref { star: false }, 2))
    );
    assert_eq!(
        arithmetic_or_comparison::<3>(&cv("->*"), 0),
        Some((Operator::Deref { star: true }, 3))
    );
}

#[test]
fn operators_arithmetic_or_comparison() {
    // Rejections at each length
    assert_eq!(arithmetic_or_comparison::<2>(&cv("+-"), 0), None);
    assert_eq!(arithmetic_or_comparison::<3>(&cv("+++"), 0), None);
    assert_eq!(arithmetic_or_comparison::<1>(&cv("a"), 0), None);
    assert_eq!(arithmetic_or_comparison::<2>(&cv("+"), 0), None);
}

#[test]
fn delete() {
    assert_eq!(
        cpparser::operators::delete(&cv("delete"), 0),
        Some((Operator::NewDelete { is_delete: true, array: false }, 6))
    );
    assert_eq!(
        cpparser::operators::delete(&cv("delete[]"), 0),
        Some((Operator::NewDelete { is_delete: true, array: true }, 8))
    );
    assert_eq!(cpparser::operators::delete(&cv("new"), 0), None);
}

#[test]
fn call_or_index() {
    assert_eq!(
        cpparser::operators::call_or_index(&cv("()"), 0),
        Some((Operator::CallIndex { is_index: false }, 2))
    );
    assert_eq!(
        cpparser::operators::call_or_index(&cv("[]"), 0),
        Some((Operator::CallIndex { is_index: true }, 2))
    );
}

#[test]
fn custom_literal() {
    assert_eq!(
        cpparser::operators::custom_literal(&cv("\"\" _whatever"), 0),
        Some((Operator::CustomLiteral(String::from("_whatever")), 12))
    );
}

#[test]
fn new_or_delete() {
    assert_eq!(
        cpparser::operators::new_or_delete(&cv("new"), 0),
        Some((Operator::NewDelete { is_delete: false, array: false }, 3))
    );
    assert_eq!(
        cpparser::operators::new_or_delete(&cv("new[]"), 0),
        Some((Operator::NewDelete { is_delete: false, array: true }, 5))
    );
    assert_eq!(
        cpparser::operators::new_or_delete(&cv("delete"), 0),
        Some((Operator::NewDelete { is_delete: true, array: false }, 6))
    );
    assert_eq!(
        cpparser::operators::new_or_delete(&cv("delete[]"), 0),
        Some((Operator::NewDelete { is_delete: true, array: true }, 8))
    );
}

#[test]
fn co_await() {
    assert_eq!(cpparser::operators::co_await(&cv("co_await"), 0), Some((Operator::CoAwait, 8)));
}

#[test]
fn operator_overload() {
    // Symbol-based operators don't need spaces
    assert_eq!(
        cpparser::grammar::operator_overload(&cv("operator*="), 0),
        Some(((basic(Symbol::MulDeref, false, true), None), 10))
    );
    assert_eq!(
        cpparser::grammar::operator_overload(&cv("operator[]"), 0),
        Some(((Operator::CallIndex { is_index: true }, None), 10))
    );
    assert_eq!(
        cpparser::grammar::operator_overload(&cv("operator\"\" _stuff"), 0),
        Some(((Operator::CustomLiteral(String::from("_stuff")), None), 17))
    );
    // Keyword-based operators need spaces
    assert_eq!(
        cpparser::grammar::operator_overload(&cv("operator new[]"), 0),
        Some(((Operator::NewDelete { is_delete: false, array: true }, None), 14))
    );
    assert_eq!(
        cpparser::grammar::operator_overload(&cv("operator co_await"), 0),
        Some(((Operator::CoAwait, None), 17))
    );
    // Type conversion operator
    assert_eq!(
        cpparser::grammar::operator_overload(&cv("operator unsigned long long"), 0),
        Some((
            (
                Operator::Conversion(Box::new(force_parse_type("unsigned long long"))),
                None
            ),
            27
        ))
    );
    // Ambiguities between template and operator syntax are handled well
    assert_eq!(
        cpparser::grammar::operator_overload(&cv("operator<<>"), 0),
        Some((
            (
                basic(Symbol::Less, false, false),
                Some(TemplateParameters::Resolved(vec![]))
            ),
            11
        ))
    );
    assert_eq!(
        cpparser::grammar::operator_overload(&cv("operator<<void>"), 0),
        Some((
            (
                basic(Symbol::Less, false, false),
                Some(TemplateParameters::Resolved(vec![TemplateParameter::TypeLike(
                    force_parse_type("void")
                )]))
            ),
            15
        ))
    );
    // `operator<<` in isolation is the doubled symbol
    assert_eq!(
        cpparser::grammar::operator_overload(&cv("operator<<"), 0),
        Some(((basic(Symbol::Less, true, false), None), 10))
    );
    assert_eq!(
        cpparser::grammar::operator_overload(&cv("operator=="), 0),
        Some(((basic(Symbol::AssignEq, false, true), None), 10))
    );
}

#[test]
fn unary_expr_prefix() {
    // Lone symbols, with trailing whitespace consumed
    assert_eq!(
        cpparser::grammar::unary_expr_prefix(&cv("+"), 0),
        Some((basic(Symbol::AddPlus, false, false), 1))
    );
    assert_eq!(
        cpparser::grammar::unary_expr_prefix(&cv("- "), 0),
        Some((basic(Symbol::SubNeg, false, false), 2))
    );
    assert_eq!(
        cpparser::grammar::unary_expr_prefix(&cv("*"), 0),
        Some((basic(Symbol::MulDeref, false, false), 1))
    );
    assert_eq!(
        cpparser::grammar::unary_expr_prefix(&cv("& "), 0),
        Some((basic(Symbol::AndRef, false, false), 2))
    );
    assert_eq!(
        cpparser::grammar::unary_expr_prefix(&cv("~"), 0),
        Some((basic(Symbol::BitNot, false, false), 1))
    );
    assert_eq!(
        cpparser::grammar::unary_expr_prefix(&cv("!"), 0),
        Some((basic(Symbol::Not, false, false), 1))
    );
    // Increment and decrement
    assert_eq!(
        cpparser::grammar::unary_expr_prefix(&cv("++"), 0),
        Some((basic(Symbol::AddPlus, true, false), 2))
    );
    assert_eq!(
        cpparser::grammar::unary_expr_prefix(&cv("--"), 0),
        Some((basic(Symbol::SubNeg, true, false), 2))
    );
    // Casts
    assert_eq!(
        cpparser::grammar::unary_expr_prefix(&cv("(float)"), 0),
        Some((Operator::Conversion(Box::new(force_parse_type("float"))), 7))
    );
    // co_await
    assert_eq!(
        cpparser::grammar::unary_expr_prefix(&cv("co_await  "), 0),
        Some((Operator::CoAwait, 10))
    );
    // delete
    assert_eq!(
        cpparser::grammar::unary_expr_prefix(&cv("delete[] "), 0),
        Some((Operator::NewDelete { is_delete: true, array: true }, 9))
    );
}

#[test]
fn binary_expr_middle() {
    // Lone symbol, other than not
    assert_eq!(
        cpparser::operators::binary_expr_middle::<false, false>(&cv("="), 0),
        Some((basic(Symbol::AssignEq, false, false), 1))
    );
    // Two characters, other than increment/decrement
    assert_eq!(
        cpparser::operators::binary_expr_middle::<false, false>(&cv("+="), 0),
        Some((basic(Symbol::AddPlus, false, true), 2))
    );
    // Three characters
    assert_eq!(
        cpparser::operators::binary_expr_middle::<false, false>(&cv("<=>"), 0),
        Some((Operator::Spaceship, 3))
    );
    // Comma only when allowed
    assert_eq!(cpparser::operators::binary_expr_middle::<false, false>(&cv(","), 0), None);
    assert_eq!(
        cpparser::operators::binary_expr_middle::<true, false>(&cv(","), 0),
        Some((basic(Symbol::Comma, false, false), 1))
    );
    // Greater only when allowed
    assert_eq!(cpparser::operators::binary_expr_middle::<false, false>(&cv(">"), 0), None);
    assert_eq!(cpparser::operators::binary_expr_middle::<false, false>(&cv(">>"), 0), None);
    assert_eq!(
        cpparser::operators::binary_expr_middle::<false, true>(&cv(">"), 0),
        Some((basic(Symbol::Greater, false, false), 1))
    );
    assert_eq!(
        cpparser::operators::binary_expr_middle::<false, true>(&cv(">>"), 0),
        Some((basic(Symbol::Greater, true, false), 2))
    );
}
