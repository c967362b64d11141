//! Type parsing: specifiers with CV qualifiers, legacy primitive names, and
//! elaborated id-expressions.

use cpparser::ast::{SimpleType, TypeSpecifier, UnqualifiedId};
use cpparser::atoms::ConstVolatile;
use cpparser::legacy::LegacyName;

fn cv(s: &str) -> Vec<char> {
    s.chars().collect()
}

fn cv_none() -> ConstVolatile {
    ConstVolatile { is_const: false, is_volatile: false }
}

fn named(s: &str) -> SimpleType {
    match cpparser::grammar::type_specifier(&cv(s), 0) {
        Some((t, _)) => t.simple_type,
        None => panic!("specifier must parse"),
    }
}

#[test]
fn type_specifier() {
    // Normal branch
    let (t, p) = cpparser::grammar::type_specifier(&cv("whatever"), 0).unwrap();
    assert_eq!(p, 8);
    assert_eq!(t.cv, cv_none());
    match &t.simple_type {
        SimpleType::IdExpression(i) => {
            assert_eq!(i.scopes.len(), 0);
            match &i.id {
                UnqualifiedId::Named { id, template_parameters } => {
                    assert_eq!(id, "whatever");
                    assert!(template_parameters.is_none());
                }
                other => panic!("expected a named id, got {other:?}"),
            }
        }
        other => panic!("expected an id-expression, got {other:?}"),
    }

    // Legacy primitive branch
    assert_eq!(
        cpparser::grammar::type_specifier(&cv("unsigned int"), 0),
        Some((
            TypeSpecifier {
                cv: cv_none(),
                simple_type: SimpleType::LegacyName(LegacyName::UnsignedInt)
            },
            12
        ))
    );

    // CV qualifiers are accepted before and after
    assert_eq!(
        cpparser::grammar::type_specifier(&cv("const unsigned long volatile"), 0),
        Some((
            TypeSpecifier {
                cv: ConstVolatile { is_const: true, is_volatile: true },
                simple_type: SimpleType::LegacyName(LegacyName::UnsignedLong)
            },
            28
        ))
    );

    // And we can live with the occasional keyword
    let (t, p) = cpparser::grammar::type_specifier(&cv("const class MyClass"), 0).unwrap();
    assert_eq!(p, 19);
    assert_eq!(t.cv, ConstVolatile { is_const: true, is_volatile: false });
    assert_eq!(t.simple_type, named("MyClass"));
}

#[test]
fn legacy_names() {
    assert_eq!(cpparser::legacy::legacy_name(&cv("void"), 0), Some((LegacyName::Void, 4)));
    assert_eq!(
        cpparser::legacy::legacy_name(&cv("unsigned long long int"), 0),
        Some((LegacyName::UnsignedLongLong, 22))
    );
    assert_eq!(
        cpparser::legacy::legacy_name(&cv("long long unsigned"), 0),
        Some((LegacyName::UnsignedLongLong, 18))
    );
    assert_eq!(cpparser::legacy::legacy_name(&cv("signed"), 0), Some((LegacyName::Int, 6)));
    assert_eq!(
        cpparser::legacy::legacy_name(&cv("long double"), 0),
        Some((LegacyName::LongDouble, 11))
    );
    assert_eq!(
        cpparser::legacy::legacy_name(&cv("signed char"), 0),
        Some((LegacyName::SignedChar, 11))
    );
    // Combinations C++ rejects fail
    assert_eq!(cpparser::legacy::legacy_name(&cv("char char"), 0), None);
    assert_eq!(cpparser::legacy::legacy_name(&cv("short long"), 0), None);
    // Identifiers that merely start like a keyword are not primitives
    assert_eq!(cpparser::legacy::legacy_name(&cv("charamel"), 0), None);
}
