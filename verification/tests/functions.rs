//! Function signatures: parameter lists, CV and reference qualifiers, and
//! the `noexcept` qualifier with its optional argument.

use cpparser::ast::{FunctionSignature, TypeLike, ValueLike};
use cpparser::atoms::{ConstVolatile, Reference};
use cpparser::grammar::type_like;
use cpparser::literals::{Literal, LiteralValue};

fn cv(s: &str) -> Vec<char> {
    s.chars().collect()
}

fn cv_none() -> ConstVolatile {
    ConstVolatile { is_const: false, is_volatile: false }
}

fn empty_sig() -> FunctionSignature {
    FunctionSignature {
        parameters: vec![],
        cv: cv_none(),
        reference: Reference::NoRef,
        noexcept: None,
    }
}

fn force_parse_type(s: &str) -> TypeLike {
    let inp = cv(s);
    let (t, p) = type_like(&inp, 0).expect("type must parse");
    assert_eq!(p, inp.len());
    t
}

fn int_value(i: i64) -> ValueLike {
    ValueLike::Literal(Literal { value: LiteralValue::I64(i), custom_suffix: None })
}

#[test]
fn noexcept() {
    assert_eq!(cpparser::grammar::noexcept(&cv("noexcept"), 0), Some((None, 8)));
    assert_eq!(
        cpparser::grammar::noexcept(&cv("noexcept(123)"), 0),
        Some((Some(int_value(123)), 13))
    );
}

#[test]
fn function_signature() {
    assert_eq!(
        cpparser::grammar::function_signature(&cv("()"), 0),
        Some((empty_sig(), 2))
    );
    assert_eq!(
        cpparser::grammar::function_signature(&cv("() const"), 0),
        Some((
            FunctionSignature {
                cv: ConstVolatile { is_const: true, is_volatile: false },
                ..empty_sig()
            },
            8
        ))
    );
    assert_eq!(
        cpparser::grammar::function_signature(&cv("() &&"), 0),
        Some((FunctionSignature { reference: Reference::RValue, ..empty_sig() }, 5))
    );
    assert_eq!(
        cpparser::grammar::function_signature(&cv("() noexcept"), 0),
        Some((FunctionSignature { noexcept: Some(None), ..empty_sig() }, 11))
    );
    assert_eq!(
        cpparser::grammar::function_signature(&cv("() volatile &"), 0),
        Some((
            FunctionSignature {
                cv: ConstVolatile { is_const: false, is_volatile: true },
                reference: Reference::LValue,
                ..empty_sig()
            },
            13
        ))
    );
    assert_eq!(
        cpparser::grammar::function_signature(&cv("() volatile const noexcept"), 0),
        Some((
            FunctionSignature {
                cv: ConstVolatile { is_const: true, is_volatile: true },
                noexcept: Some(None),
                ..empty_sig()
            },
            26
        ))
    );
    assert_eq!(
        cpparser::grammar::function_signature(&cv("() && noexcept(456)"), 0),
        Some((
            FunctionSignature {
                reference: Reference::RValue,
                noexcept: Some(Some(int_value(456))),
                ..empty_sig()
            },
            19
        ))
    );
    // The signature of a const rvalue-qualified function with a noexcept
    // argument combines every qualifier
    assert_eq!(
        cpparser::grammar::function_signature(&cv("() const && noexcept(456)"), 0),
        Some((
            FunctionSignature {
                parameters: vec![],
                cv: ConstVolatile { is_const: true, is_volatile: false },
                reference: Reference::RValue,
                noexcept: Some(Some(int_value(456))),
            },
            25
        ))
    );
}

#[test]
fn function_parameters() {
    assert_eq!(
        cpparser::grammar::function_parameters(&cv("()"), 0),
        Some((vec![], 2))
    );
    let inp = cv("(signed char*)");
    assert_eq!(
        cpparser::grammar::function_parameters(&inp, 0),
        Some((vec![force_parse_type("signed char*")], inp.len()))
    );
    let inp = cv("(charamel<lol>&, T)");
    assert_eq!(
        cpparser::grammar::function_parameters(&inp, 0),
        Some((
            vec![force_parse_type("charamel<lol>&"), force_parse_type("T")],
            inp.len()
        ))
    );
}
