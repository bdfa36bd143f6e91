//! Scanning: runs, identifiers, numbers.

use avro_idl::ast::Decimal;
use avro_idl::scan::{CharClass, Source};

fn source(text: &str) -> Source {
    Source::new(text.to_string())
}

#[test]
fn characters_by_position() {
    let src = source("aé\u{3000}z");
    assert_eq!(src.len(), 4);
    assert_eq!(src.at(1), 'é');
    assert!(src.has(3, 'z'));
    assert!(!src.has(4, 'z'));
    assert!(!src.has(0, 'z'));
    assert_eq!(src.slice(1, 3), "é\u{3000}");
    assert_eq!(src.slice(2, 2), "");
    assert_eq!(source("").len(), 0);
}

#[test]
fn classes_of_characters() {
    for c in [
        '\t', '\n', '\u{b}', '\u{c}', '\r', ' ', '\u{85}', '\u{a0}', '\u{1680}', '\u{2000}',
        '\u{2005}', '\u{200a}', '\u{2028}', '\u{2029}', '\u{202f}', '\u{205f}', '\u{3000}',
    ] {
        assert!(CharClass::Whitespace.test(c), "{:?}", c);
        assert!(c.is_whitespace());
    }
    for c in ['a', '_', '0', '\u{8}', '\u{e}', '\u{200b}', '\u{feff}', '\u{1f}', '\u{180e}'] {
        assert!(!CharClass::Whitespace.test(c), "{:?}", c);
        assert!(!c.is_whitespace());
    }
    for c in ['0', '5', '9'] {
        assert!(CharClass::Digit.test(c));
    }
    for c in ['/', ':', 'a', '٣'] {
        assert!(!CharClass::Digit.test(c));
    }
    for c in ['a', 'z', 'A', 'Z', '_', '0', '9'] {
        assert!(CharClass::IdentPart.test(c));
    }
    for c in ['-', ' ', 'é', '$', '@', '[', '`', '{'] {
        assert!(!CharClass::IdentPart.test(c));
    }
    assert!(CharClass::NotQuote.test('\''));
    assert!(!CharClass::NotQuote.test('"'));
}

#[test]
fn whitespace_agrees_with_the_standard_library_on_every_character() {
    let mut code = 0u32;
    while code <= 0x10ffff {
        if let Some(c) = char::from_u32(code) {
            assert_eq!(CharClass::Whitespace.test(c), c.is_whitespace(), "{:x}", code);
            assert_eq!(CharClass::Digit.test(c), c.is_digit(10), "{:x}", code);
            assert_eq!(
                CharClass::IdentPart.test(c),
                c.is_ascii_alphanumeric() || c == '_',
                "{:x}",
                code
            );
        }
        code += 1;
    }
}

#[test]
fn runs() {
    let src = source("  \t12ab_9 \"q");
    assert_eq!(src.run(0, CharClass::Whitespace), 3);
    assert_eq!(src.skip(0), 3);
    assert_eq!(src.skip(3), 3);
    assert_eq!(src.run(3, CharClass::Digit), 5);
    assert_eq!(src.run(3, CharClass::IdentPart), 9);
    assert_eq!(src.run(0, CharClass::NotQuote), 10);
    assert_eq!(src.run(12, CharClass::NotQuote), 12);
    assert_eq!(src.skip(12), 12);
}

#[test]
fn identifiers_and_keywords() {
    let src = source("ab_9 9a _x int? integer");
    assert_eq!(src.ident(0), Some(4));
    assert_eq!(src.ident(5), None);
    assert_eq!(src.ident(6), Some(7));
    assert_eq!(src.ident(8), Some(10));
    assert_eq!(src.ident(4), None);
    assert_eq!(src.ident(23), None);
    assert_eq!(src.keyword(11, "int"), Some(14));
    assert_eq!(src.keyword(16, "int"), None);
    assert_eq!(src.keyword(16, "integer"), Some(23));
    assert_eq!(src.keyword(11, "in"), None);
    assert_eq!(src.keyword(11, "inte"), None);
    assert!(src.matches_word(11, 14, "int"));
    assert!(!src.matches_word(11, 14, "ins"));
    assert!(!src.matches_word(11, 13, "int"));
    assert!(src.matches_word(3, 3, ""));
}

#[test]
fn numbers() {
    let src = source("007 120.5 0.25 -3.0 4. .5 -x 00.1");
    assert_eq!(src.digits(0), Some(3));
    assert_eq!(src.whole(0), Some(1));
    assert_eq!(src.whole(4), Some(7));
    assert_eq!(src.decimal(0), None);
    assert_eq!(src.decimal(4), Some(9));
    assert_eq!(src.decimal(10), Some(14));
    assert_eq!(src.decimal(15), Some(19));
    assert_eq!(src.decimal(20), None);
    assert_eq!(src.decimal(23), None);
    assert_eq!(src.decimal(26), None);
    assert_eq!(src.decimal(29), None);
    assert_eq!(src.decimal(30), Some(33));
    assert_eq!(src.digits(3), None);
    assert_eq!(src.number(0, 3, 10), Some(7));
    assert_eq!(src.number(4, 7, 120), Some(120));
    assert_eq!(src.number(4, 7, 119), None);
    assert_eq!(src.number(4, 4, 0), Some(0));
    let big = source("18446744073709551615 18446744073709551616");
    assert_eq!(big.number(0, 20, u64::MAX), Some(u64::MAX));
    assert_eq!(big.number(21, 41, u64::MAX), None);
    assert_eq!(
        Decimal::from_source(&src, 15, 19),
        Decimal::new("-3.0").unwrap()
    );
}

#[test]
fn quoted_text_and_comments() {
    let src = source("\"a b\" \"\" \"open /* x */ **/");
    assert_eq!(src.quoted(0), Some(5));
    assert_eq!(src.quoted(6), Some(8));
    assert_eq!(src.quoted(9), None);
    assert_eq!(src.quoted(1), None);
    assert_eq!(src.find_comment_close(0), Some(20));
    assert_eq!(src.find_comment_close(21), Some(24));
    assert_eq!(src.find_comment_close(25), None);
    assert_eq!(src.find_comment_close(26), None);
}

#[test]
fn trimming() {
    let src = source("[ \u{a0}two  words\n\t]");
    assert_eq!(src.trimmed_slice(1, 15), "two  words");
    assert_eq!(src.trimmed_slice(1, 3), "");
    assert_eq!(src.trimmed_slice(3, 3), "");
    assert_eq!(src.trimmed_slice(0, 16), "[ \u{a0}two  words\n\t]");
    assert_eq!(src.trimmed_slice(3, 13), "two  words".trim());
}
