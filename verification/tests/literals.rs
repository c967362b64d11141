//! Literal parsing: integers with size suffixes, character literals with
//! prefixes and escapes, and user-defined suffixes.

use cpparser::literals::{Literal, LiteralValue};

fn cv(s: &str) -> Vec<char> {
    s.chars().collect()
}

#[test]
fn integer() {
    fn test_integer(num: i128) {
        let num_str = num.to_string();
        for unsigned_suffix in ["", "U"] {
            for size_suffix in ["", "L", "LL", "Z"] {
                for lowercase in [false, true] {
                    for size_first in [false, true] {
                        let suffix: Vec<char> = if size_first {
                            size_suffix.chars().chain(unsigned_suffix.chars()).collect()
                        } else {
                            unsigned_suffix.chars().chain(size_suffix.chars()).collect()
                        };
                        let case = |c: char| {
                            if lowercase {
                                c.to_ascii_lowercase()
                            } else {
                                c
                            }
                        };
                        let mut text = num_str.clone();
                        for c in suffix.into_iter().map(case) {
                            text.push(c);
                        }
                        let inp = cv(&text);
                        let result: Option<(i128, usize)> = match cpparser::literals::integer(&inp, 0) {
                            Some((LiteralValue::I64(i), p)) => Some((i as i128, p)),
                            Some((LiteralValue::U64(u), p)) => Some((u as i128, p)),
                            Some((LiteralValue::Char(c), _)) => {
                                panic!("unexpected char {c} in integer parser output")
                            }
                            None => None,
                        };
                        assert_eq!(result, Some((num, inp.len())));
                    }
                }
            }
        }
    }
    test_integer(i64::MIN as i128);
    test_integer(u64::MAX as i128);
}

#[test]
fn character() {
    fn test_character_str(c: char) {
        for prefix in ["", "u8", "u", "U", "L"] {
            let char_str = format!("{}'{}'", prefix, c.escape_default());
            println!("{char_str}");
            let inp = cv(&char_str);
            assert_eq!(cpparser::literals::character(&inp, 0), Some((c, inp.len())));
        }
    }
    test_character_str('x');
    test_character_str('\t');
    test_character_str('\n');
    test_character_str('\'');
}

#[test]
fn literal_value() {
    assert_eq!(
        cpparser::literals::literal_value(&cv("-123"), 0),
        Some((LiteralValue::I64(-123), 4))
    );
    assert_eq!(
        cpparser::literals::literal_value(&cv("'c'"), 0),
        Some((LiteralValue::Char('c'), 3))
    );
}

#[test]
fn literal() {
    assert_eq!(
        cpparser::literals::literal(&cv("'x'"), 0),
        Some((
            Literal { value: LiteralValue::Char('x'), custom_suffix: None },
            3
        ))
    );
    assert_eq!(
        cpparser::literals::literal(&cv("42_m"), 0),
        Some((
            Literal {
                value: LiteralValue::I64(42),
                custom_suffix: Some(String::from("_m"))
            },
            4
        ))
    );
}
