//! Width-bounded display: full renderings, the elision chain, string
//! truncation, and activity descriptions.

use cpparser::display::{truncate_string, ActivityArgument, ActivityDescError, DisplayError};
use cpparser::intern::EntityParser;
use unicode_width::UnicodeWidthStr;

fn parse(parser: &mut EntityParser, s: &str) -> cpparser::intern::TypeKey {
    parser.parse_entity(s).expect("entity must parse")
}

#[test]
fn full_renderings() {
    let mut parser = EntityParser::new();
    let k = parse(&mut parser, "const unsigned long volatile");
    // Round trip to an equivalent canonical spelling
    assert_eq!(
        parser.bounded_display(k, 100).unwrap(),
        "const volatile unsigned long"
    );
    let k = parse(&mut parser, "std::vector<int>");
    assert_eq!(parser.bounded_display(k, 100).unwrap(), "std::vector<int>");
    let k = parse(&mut parser, "operator<<void>");
    assert_eq!(parser.bounded_display(k, 100).unwrap(), "operator<<void>");
    let k = parse(&mut parser, "(lambda at /a/b.cpp:12:34)");
    assert_eq!(
        parser.bounded_display(k, 100).unwrap(),
        "(lambda at /a/b.cpp:12:34)"
    );
    let k = parse(&mut parser, "foo(int, char)::Local");
    assert_eq!(parser.bounded_display(k, 100).unwrap(), "foo(int, char)::Local");
}

#[test]
fn display_width() {
    let mut parser = EntityParser::new();
    let k = parse(&mut parser, "std::vector<int>");
    assert_eq!(parser.display_width(k), 16);
    // A user-defined literal occupies at least its digits and suffix
    let k = parse(&mut parser, "A<42_m>");
    assert!(parser.display_width(k) >= 4);
}

#[test]
fn scope_elision() {
    let mut parser = EntityParser::new();
    let k = parse(&mut parser, "std::vector<std::allocator<int>>::iterator");
    // Wide enough: everything is shown
    assert_eq!(
        parser.bounded_display(k, 100).unwrap(),
        "std::vector<std::allocator<int>>::iterator"
    );
    // At a budget of 20, template arguments and inner scopes are elided
    let narrow = parser.bounded_display(k, 20).unwrap();
    assert_eq!(narrow, "std::…::iterator");
    assert!(narrow.width() <= 20);
    // Narrower still: all scopes go
    let tiny = parser.bounded_display(k, 12).unwrap();
    assert!(tiny.width() <= 12);
    // The minimum budget always renders something
    assert_eq!(parser.bounded_display(k, 1).unwrap(), "…");
    // Only a zero budget fails
    assert_eq!(parser.bounded_display(k, 0), Err(DisplayError::TooNarrow));
}

#[test]
fn width_always_honored() {
    let mut parser = EntityParser::new();
    let k = parse(
        &mut parser,
        "ns::outer<int, long>::inner<char>::method_name(unsigned long, float)::Local",
    );
    let mut n: u16 = 1;
    while n <= 90 {
        let out = parser.bounded_display(k, n).unwrap();
        assert!(
            out.width() <= n as usize,
            "budget {n} exceeded by {out:?} ({})",
            out.width()
        );
        n += 1;
    }
}

#[test]
fn truncation_monotonicity() {
    // Shrinking the budget never brings information back: once a token has
    // been elided at some budget, it stays elided at every smaller budget
    let mut parser = EntityParser::new();
    let k = parse(&mut parser, "std::vector<std::allocator<int>>::iterator");
    let mut seen_without_allocator = false;
    let mut seen_without_vector = false;
    let mut seen_without_iterator = false;
    let mut n: u16 = 60;
    while n >= 1 {
        let out = parser.bounded_display(k, n).unwrap();
        if seen_without_allocator {
            assert!(!out.contains("allocator"), "allocator reappeared at budget {n}");
        }
        if seen_without_vector {
            assert!(!out.contains("vector"), "vector reappeared at budget {n}");
        }
        if seen_without_iterator {
            assert!(!out.contains("iterator"), "iterator reappeared at budget {n}");
        }
        seen_without_allocator = seen_without_allocator || !out.contains("allocator");
        seen_without_vector = seen_without_vector || !out.contains("vector");
        seen_without_iterator = seen_without_iterator || !out.contains("iterator");
        n -= 1;
    }
    // And the elision order is as documented: template arguments go before
    // the scopes, the scopes before the final name
    assert!(seen_without_allocator && seen_without_vector && seen_without_iterator);
}

#[test]
fn truncate_strings() {
    // Header gets the larger half of the remaining columns
    assert_eq!(truncate_string("hello world", 5), "he…ld");
    assert_eq!(truncate_string("hello world", 6), "hel…ld");
    assert_eq!(truncate_string("abcdef", 1), "…");
    let t = truncate_string("日本語のテキスト", 7);
    assert!(t.width() <= 7);
    assert!(t.contains('…'));
}

#[test]
fn activity_descriptions() {
    let mut parser = EntityParser::new();
    // Too narrow for the name
    assert_eq!(
        parser.display_activity_desc("ExecuteCompiler", &ActivityArgument::Nothing, 14),
        Err(ActivityDescError::NotEnoughCols(14))
    );
    assert_eq!(
        parser
            .display_activity_desc("ExecuteCompiler", &ActivityArgument::Nothing, 15)
            .unwrap(),
        "ExecuteCompiler"
    );
    // String arguments are truncated into the remaining space
    let arg = ActivityArgument::TextArg(String::from("Loop Pass Manager"));
    assert_eq!(
        parser.display_activity_desc("RunPass", &arg, 9),
        Err(ActivityDescError::NotEnoughCols(9))
    );
    assert_eq!(
        parser.display_activity_desc("RunPass", &arg, 10).unwrap(),
        "RunPass(…)"
    );
    assert_eq!(
        parser.display_activity_desc("RunPass", &arg, 26).unwrap(),
        "RunPass(Loop Pass Manager)"
    );
    // At budget 25 the argument gets 16 columns: an 8-column header, the
    // ellipsis, and a 7-column trailer
    assert_eq!(
        parser.display_activity_desc("RunPass", &arg, 25).unwrap(),
        "RunPass(Loop Pas…Manager)"
    );
    // Entity arguments go through the bounded display
    let k = parse(&mut parser, "std::char_traits");
    let arg = ActivityArgument::CppEntity(k);
    assert_eq!(
        parser.display_activity_desc("ParseClass", &arg, 28).unwrap(),
        "ParseClass(std::char_traits)"
    );
    // At budget 26 the argument gets 14 columns: the scopes are elided
    assert_eq!(
        parser.display_activity_desc("ParseClass", &arg, 26).unwrap(),
        "ParseClass(…::char_traits)"
    );
    assert_eq!(
        parser.display_activity_desc("ParseClass", &arg, 13).unwrap(),
        "ParseClass(…)"
    );
}

#[test]
fn realistic_entities() {
    // A handful of realistic demangled names parse and round-trip
    let mut parser = EntityParser::new();
    for name in [
        "TrackFittingGainMatrixSmoother::Smooth::test_method()",
        "std::vector<std::bitset<36>, std::allocator<std::bitset<36> > >::push_back",
        "boost::unit_test::basic_cstring<char const>",
        "operator new[]",
        "~Widget",
        "decltype(auto)",
        "foo(int, char**)::Local<unsigned>",
        "void (int, char)",
        "std::array<int, 10ul>",
        "<unknown>",
    ] {
        let k = parser
            .parse_entity(name)
            .unwrap_or_else(|e| panic!("{name:?} failed to parse: {e:?}"));
        let shown = parser.bounded_display(k, 200).unwrap();
        assert!(shown.len() > 0, "{name:?} rendered to nothing");
    }
}

#[test]
fn entity_argument_elision() {
    // The scope-elided form shows through an activity description too: at an
    // inner budget of 20 columns the iterator renders as "std::…::iterator"
    let mut parser = EntityParser::new();
    let k = parse(&mut parser, "std::vector<std::allocator<int>>::iterator");
    let arg = ActivityArgument::CppEntity(k);
    assert_eq!(
        parser.display_activity_desc("X", &arg, 23).unwrap(),
        "X(std::…::iterator)"
    );
}

#[test]
fn rendering_round_trip() {
    // A rendered type specifier parses back to the same structural value,
    // witnessed by an equal handle
    let mut parser = EntityParser::new();
    let k1 = parse(&mut parser, "const unsigned long volatile");
    let shown = parser.bounded_display(k1, 100).unwrap();
    assert_eq!(shown, "const volatile unsigned long");
    let k2 = parse(&mut parser, &shown);
    assert_eq!(k1, k2);
    // The same round trip holds for a scoped template name
    let k1 = parse(&mut parser, "std::vector<unsigned long long>");
    let shown = parser.bounded_display(k1, 100).unwrap();
    let k2 = parse(&mut parser, &shown);
    assert_eq!(k1, k2);
}
