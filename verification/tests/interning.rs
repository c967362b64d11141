//! The interning store: handle stability, idempotence, and structural
//! sharing across spellings.

use cpparser::intern::{EntityParser, ILiteral, ParseError};
use cpparser::literals::LiteralValue;

#[test]
fn interning_idempotence() {
    // Parsing the same string twice yields the same handle
    let mut parser = EntityParser::new();
    let k1 = parser.parse_entity("std::vector<int>").unwrap();
    let k2 = parser.parse_entity("std::vector<int>").unwrap();
    assert_eq!(k1, k2);
    // And the store did not grow on the second parse
    let n = parser.num_entities();
    let k3 = parser.parse_entity("std::vector<int>").unwrap();
    assert_eq!(k1, k3);
    assert_eq!(parser.num_entities(), n);
}

#[test]
fn structural_equality() {
    // A redundant elaborated-type prefix parses to the same structure and
    // receives the same handle
    let mut parser = EntityParser::new();
    let k1 = parser.parse_entity("MyClass").unwrap();
    let k2 = parser.parse_entity("class MyClass").unwrap();
    assert_eq!(k1, k2);
    let k3 = parser.parse_entity("struct MyClass").unwrap();
    assert_eq!(k1, k3);
    // Extra whitespace inside a type does not change the structure
    let p1 = parser.parse_entity("int*").unwrap();
    let p2 = parser.parse_entity("int *").unwrap();
    assert_eq!(p1, p2);
    assert_ne!(k1, p1);
}

#[test]
fn structural_sharing() {
    // Substructures are shared: interning a second entity that reuses a
    // substructure must not re-store the substructure
    let mut parser = EntityParser::new();
    parser.parse_entity("std::vector<int>").unwrap();
    let n = parser.num_entities();
    parser.parse_entity("std::list<int>").unwrap();
    // `int` and its type entry already existed; only the new list and its
    // wrappers were added
    assert!(parser.num_entities() > n);
    let m = parser.num_entities();
    parser.parse_entity("std::vector<int>").unwrap();
    assert_eq!(parser.num_entities(), m);
}

#[test]
fn parse_errors() {
    let mut parser = EntityParser::new();
    // A trailing fragment is reported, with the tail
    match parser.parse_entity("int ??") {
        Err(ParseError::Incomplete(tail)) => assert_eq!(tail, "??"),
        other => panic!("expected an incomplete parse, got {other:?}"),
    }
    // An unparseable head is a syntax error at the start
    match parser.parse_entity("??") {
        Err(ParseError::Syntax(p)) => assert_eq!(p, 0),
        other => panic!("expected a syntax error, got {other:?}"),
    }
}

#[test]
fn parse_literal() {
    let mut parser = EntityParser::new();
    let (lit, consumed) = parser.parse_literal("42_m").unwrap();
    assert_eq!(lit.value, LiteralValue::I64(42));
    assert_eq!(consumed, 4);
    assert!(lit.custom_suffix.is_some());
    // The suffix handle is stable
    let (lit2, _) = parser.parse_literal("7_m").unwrap();
    assert_eq!(lit.custom_suffix, lit2.custom_suffix);
    let plain: Option<(ILiteral, usize)> = parser.parse_literal("'x'");
    let (lit3, consumed3) = plain.unwrap();
    assert_eq!(lit3.value, LiteralValue::Char('x'));
    assert_eq!(consumed3, 3);
    assert_eq!(lit3.custom_suffix, None);
}

#[test]
fn finalize() {
    // Freezing keeps every handle meaningful for read-only sharing
    let mut parser = EntityParser::new();
    let k = parser.parse_entity("std::vector<int>").unwrap();
    let frozen = parser.finalize();
    assert_eq!(
        frozen.parser().bounded_display(k, 100).unwrap(),
        "std::vector<int>"
    );
    assert_eq!(frozen.parser().display_width(k), 16);
}

#[test]
fn parse_type_specifier() {
    let parser = EntityParser::new();
    let (t, p) = parser.parse_type_specifier("const unsigned long volatile").unwrap();
    assert_eq!(p, 28);
    assert!(t.cv.is_const && t.cv.is_volatile);
}
