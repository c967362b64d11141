//! Clang-specific anonymous entity names: `<unknown>`, lambdas with their
//! source location, and `(anonymous ...)`.

use cpparser::ast::Lambda;

fn cv(s: &str) -> Vec<char> {
    s.chars().collect()
}

#[test]
fn unknown_entity() {
    assert_eq!(cpparser::grammar::unknown_entity(&cv("<unknown>"), 0), Some(9));
    assert_eq!(cpparser::grammar::unknown_entity(&cv("<known>"), 0), None);
}

#[test]
fn lambda() {
    let inp = cv("(lambda at /path/to/source.cpp:123:45)");
    assert_eq!(
        cpparser::grammar::lambda(&inp, 0),
        Some((
            Lambda { file: String::from("/path/to/source.cpp"), line: 123, col: 45 },
            inp.len()
        ))
    );
    // A Windows-style disk designator is allowed at the start of the path
    let inp = cv("(lambda at C:/a/b.cpp:12:34)");
    assert_eq!(
        cpparser::grammar::lambda(&inp, 0),
        Some((
            Lambda { file: String::from("C:/a/b.cpp"), line: 12, col: 34 },
            inp.len()
        ))
    );
    // Other inner colons cannot be handled
    assert_eq!(
        cpparser::grammar::lambda(&cv("(lambda at /a:b.cpp:12:34)"), 0),
        None
    );
}

#[test]
fn anonymous() {
    assert_eq!(cpparser::grammar::anonymous(&cv("(anonymous)"), 0), Some((None, 11)));
    let inp = cv("(anonymous class)");
    assert_eq!(
        cpparser::grammar::anonymous(&inp, 0),
        Some((Some(String::from("class")), inp.len()))
    );
    let inp = cv("(anonymous namespace)");
    assert_eq!(
        cpparser::grammar::anonymous(&inp, 0),
        Some((Some(String::from("namespace")), inp.len()))
    );
}
