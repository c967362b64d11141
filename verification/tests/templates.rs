//! Template-parameter lists, including the `<, void>` ambiguity sentinel.

use cpparser::ast::{TemplateParameter, TemplateParameters, TypeLike, ValueLike};
use cpparser::grammar::type_like;
use cpparser::literals::{Literal, LiteralValue};

fn cv(s: &str) -> Vec<char> {
    s.chars().collect()
}

fn force_parse_type(s: &str) -> TypeLike {
    let inp = cv(s);
    let (t, p) = type_like(&inp, 0).expect("type must parse");
    assert_eq!(p, inp.len());
    t
}

#[test]
fn template_parameter() {
    fn test_template_parameter_sep(text_wo_sep: &str, sep: &str, expected: TemplateParameter) {
        let mut text = text_wo_sep.to_owned();
        text.push_str(sep);
        let inp: Vec<char> = text.chars().collect();
        let consumed: usize = text_wo_sep.chars().count();
        assert_eq!(
            cpparser::grammar::template_parameter(&inp, 0),
            Some((expected, consumed))
        );
    }
    fn test_template_parameter(text_wo_sep: &str, expected: TemplateParameter) {
        test_template_parameter_sep(text_wo_sep, ",", expected);
    }
    let min = i64::MIN.to_string();
    test_template_parameter(
        &min,
        TemplateParameter::ValueLike(ValueLike::Literal(Literal {
            value: LiteralValue::I64(i64::MIN),
            custom_suffix: None,
        })),
    );
    fn test_type_parameter(s: &str) {
        let expected = TemplateParameter::TypeLike(force_parse_type(s));
        let mut text = s.to_owned();
        text.push(',');
        let inp: Vec<char> = text.chars().collect();
        let consumed: usize = s.chars().count();
        assert_eq!(
            cpparser::grammar::template_parameter(&inp, 0),
            Some((expected, consumed))
        );
        let expected = TemplateParameter::TypeLike(force_parse_type(s));
        let mut text = s.to_owned();
        text.push('>');
        let inp: Vec<char> = text.chars().collect();
        assert_eq!(
            cpparser::grammar::template_parameter(&inp, 0),
            Some((expected, consumed))
        );
    }
    test_type_parameter("signed char*");
    test_type_parameter("charamel<lol>&");
}

#[test]
fn template_parameters() {
    assert_eq!(
        cpparser::grammar::template_parameters(&cv("<>"), 0),
        Some((TemplateParameters::Resolved(vec![]), 2))
    );
    assert_eq!(
        cpparser::grammar::template_parameters(&cv("<T>"), 0),
        Some((
            TemplateParameters::Resolved(vec![TemplateParameter::TypeLike(force_parse_type("T"))]),
            3
        ))
    );
    let inp = cv("<char, stuff>");
    assert_eq!(
        cpparser::grammar::template_parameters(&inp, 0),
        Some((
            TemplateParameters::Resolved(vec![
                TemplateParameter::TypeLike(force_parse_type("char")),
                TemplateParameter::TypeLike(force_parse_type("stuff")),
            ]),
            inp.len()
        ))
    );
    // The `<, void>` pattern that clang occasionally emits is recognized as
    // the designated sentinel, never as a type list
    assert_eq!(
        cpparser::grammar::template_parameters(&cv("<, void>"), 0),
        Some((TemplateParameters::Ambiguous, 8))
    );
}
