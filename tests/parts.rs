use hex_to_raw::block::bytes::parser::{
    decode_number, decode_string, parse_bytes, resize_anchored_left, resize_anchored_right,
    BytesItem,
};
use hex_to_raw::block::bytes::translate::{
    byte_from_binary_digit, byte_from_hexadecimal_digit, bytes_from_binary, bytes_from_decimal,
    bytes_from_hexadecimal, bytes_from_number, integer_from_binary, integer_from_decimal,
    integer_from_hexadecimal, integer_from_number,
};
use hex_to_raw::block::Block;
use hex_to_raw::debug::{debug_bytes, encode_digit};
use hex_to_raw::error::{AnonymousEvaluationError, ErrorKind, EvaluationError};
use hex_to_raw::evaluator::expansion::{Expansion, InlineExpansion};
use hex_to_raw::evaluator::scope::EvaluatorScope;
use hex_to_raw::evaluator::{evaluate, reverse_tail, Evaluator};
use hex_to_raw::parser::cursor::ParserCursor;
use hex_to_raw::parser::indentation::{Indentation, ParserIndentation};
use hex_to_raw::parser::{parse, tokenize_macro, ParseOutcome};

fn kind<T>(r: Result<T, AnonymousEvaluationError>) -> ErrorKind {
    match r {
        Ok(_) => panic!("expected an error"),
        Err(e) => e.what,
    }
}

#[test]
fn hexadecimal_digits() {
    assert_eq!(byte_from_hexadecimal_digit('7').ok(), Some(7));
    assert_eq!(byte_from_hexadecimal_digit('b').ok(), Some(11));
    assert_eq!(byte_from_hexadecimal_digit('F').ok(), Some(15));
    assert_eq!(kind(byte_from_hexadecimal_digit('g')), ErrorKind::InvalidHexDigit("g".to_string()));
}

#[test]
fn binary_digits() {
    assert_eq!(byte_from_binary_digit('1').ok(), Some(1));
    assert_eq!(kind(byte_from_binary_digit('2')), ErrorKind::InvalidBinaryDigit("2".to_string()));
}

#[test]
fn hexadecimal_words() {
    assert_eq!(integer_from_hexadecimal("ff").ok(), Some(255));
    assert_eq!(integer_from_hexadecimal("").ok(), Some(0));
    assert_eq!(kind(integer_from_hexadecimal("fffffffffffffffff")), ErrorKind::NumberTooLarge("fffffffffffffffff".to_string()));
    assert_eq!(bytes_from_hexadecimal("abc", false).ok(), Some(vec![0x0A, 0xBC]));
    assert_eq!(kind(bytes_from_hexadecimal("abc", true)), ErrorKind::OddHexLength("abc".to_string()));
    assert_eq!(kind(bytes_from_hexadecimal("zz", true)), ErrorKind::InvalidHexDigit("zz".to_string()));
}

#[test]
fn decimal_words() {
    assert_eq!(integer_from_decimal("+12").ok(), Some(12));
    assert_eq!(kind(integer_from_decimal("")), ErrorKind::InvalidDecimal(String::new()));
    assert_eq!(kind(integer_from_decimal("-1")), ErrorKind::InvalidDecimal("-1".to_string()));
    assert_eq!(kind(integer_from_decimal("99999999999999999999999")),
        ErrorKind::DecimalTooLarge("99999999999999999999999".to_string())
    );
    assert_eq!(bytes_from_decimal("0").ok(), Some(Vec::new()));
    assert_eq!(bytes_from_decimal("256").ok(), Some(vec![0x01, 0x00]));
    assert_eq!(bytes_from_decimal("65535").ok(), Some(vec![0xFF, 0xFF]));
}

#[test]
fn binary_words() {
    assert_eq!(integer_from_binary("101").ok(), Some(5));
    assert_eq!(bytes_from_binary("0000000100000010", true).ok(), Some(vec![0x01, 0x02]));
    assert_eq!(bytes_from_binary("1", false).ok(), Some(vec![0x01]));
    assert_eq!(kind(bytes_from_binary("1", true)), ErrorKind::BinaryLength("1".to_string()));
    assert_eq!(kind(bytes_from_binary("00000002", true)), ErrorKind::InvalidBinaryDigit("00000002".to_string()));
}

#[test]
fn numbers_by_prefix() {
    assert_eq!(bytes_from_number("0x0102", true).ok(), Some(vec![1, 2]));
    assert_eq!(bytes_from_number("0d258", true).ok(), Some(vec![1, 2]));
    assert_eq!(bytes_from_number("0b11111111", true).ok(), Some(vec![0xFF]));
    assert_eq!(bytes_from_number("0102", true).ok(), Some(vec![1, 2]));
    assert_eq!(integer_from_number("0x10").ok(), Some(16));
    assert_eq!(integer_from_number("0d10").ok(), Some(10));
    assert_eq!(integer_from_number("0b10").ok(), Some(2));
    assert_eq!(integer_from_number("10").ok(), Some(16));
}

#[test]
fn number_items() {
    assert_eq!(decode_number("[4]0x1").ok(), Some(vec![0, 0, 0, 1]));
    assert_eq!(decode_number("0x1[4]").ok(), Some(vec![1, 0, 0, 0]));
    assert_eq!(decode_number("[0d3]0b1").ok(), Some(vec![0, 0, 1]));
    assert_eq!(kind(decode_number("[4")), ErrorKind::InvalidPadding("[4".to_string()));
    assert_eq!(kind(decode_number("4]")), ErrorKind::InvalidPadding("4]".to_string()));
    assert_eq!(kind(decode_number("0x1")), ErrorKind::OddHexLength("1".to_string()));
}

#[test]
fn string_characters() {
    assert_eq!(decode_string("Az").ok(), Some(vec![0x41, 0x7A]));
    assert_eq!(decode_string("\u{FF}").ok(), Some(vec![0xFF]));
    assert_eq!(kind(decode_string("a\u{263A}")), ErrorKind::InvalidCharacter(1));
}

#[test]
fn anchored_resizes() {
    let mut v = vec![1, 2, 3];
    resize_anchored_right(&mut v, 5);
    assert_eq!(v, vec![0, 0, 1, 2, 3]);
    resize_anchored_right(&mut v, 2);
    assert_eq!(v, vec![2, 3]);
    let mut w = vec![1, 2, 3];
    resize_anchored_left(&mut w, 5);
    assert_eq!(w, vec![1, 2, 3, 0, 0]);
    resize_anchored_left(&mut w, 1);
    assert_eq!(w, vec![1]);
}

#[test]
fn reversing_a_tail() {
    let mut v = vec![1, 2, 3, 4];
    reverse_tail(&mut v, 1);
    assert_eq!(v, vec![1, 4, 3, 2]);
    reverse_tail(&mut v, 9);
    assert_eq!(v, vec![1, 4, 3, 2]);
}

#[test]
fn byte_line_items() {
    let items = match parse_bytes("01 < \"a\" > $f(02)() # c") {
        Ok(items) => items,
        Err(e) => panic!("unexpected error {:?}", e),
    };
    assert_eq!(items.len(), 5);
    assert!(matches!(&items[0], BytesItem::Literal(b) if *b == vec![1]));
    assert!(matches!(&items[1], BytesItem::Left));
    assert!(matches!(&items[2], BytesItem::Literal(b) if *b == vec![0x61]));
    assert!(matches!(&items[3], BytesItem::Right));
    match &items[4] {
        BytesItem::Expansion(name, args) => {
            assert_eq!(name, "f");
            assert_eq!(args.len(), 2);
            assert_eq!(args[1].len(), 0);
        }
        _ => panic!("expected an expansion"),
    }
    assert_eq!(kind(parse_bytes("$")), ErrorKind::MissingExpansionName);
    assert_eq!(kind(parse_bytes("01)")), ErrorKind::UnexpectedCharacter(')'));
}

#[test]
fn macro_words() {
    let line: Vec<char> = "@define add x y # sum".chars().collect();
    assert_eq!(tokenize_macro(&line), vec!["@define", "add", "x", "y"]);
    let empty: Vec<char> = "# only".chars().collect();
    assert_eq!(tokenize_macro(&empty).len(), 0);
}

#[test]
fn indentation_unit() {
    let mut ind = ParserIndentation::new();
    let plain: Vec<char> = "01".chars().collect();
    assert_eq!(ind.determine(&plain).ok(), Some(0));
    assert_eq!(ind.indentation, None);
    let four: Vec<char> = "    01".chars().collect();
    assert_eq!(ind.determine(&four).ok(), Some(1));
    assert_eq!(ind.indentation, Some(Indentation::Spaces(4)));
    let eight: Vec<char> = "        01".chars().collect();
    assert_eq!(ind.determine(&eight).ok(), Some(2));
    assert_eq!(ind.trim(&eight, 1), "    01".chars().collect::<Vec<char>>());
    let six: Vec<char> = "      01".chars().collect();
    assert_eq!(kind(ind.determine(&six)), ErrorKind::UnevenIndentation);
    let tab: Vec<char> = "\t01".chars().collect();
    assert_eq!(kind(ind.determine(&tab)), ErrorKind::MixedIndentation);
    assert_eq!(kind(ind.eq(&eight, 1)), ErrorKind::UnexpectedIndentation);
    assert_eq!(ind.eq(&four, 1).ok(), Some(true));
    assert_eq!(ind.eq(&plain, 1).ok(), Some(false));
    assert_eq!(ind.ge(&eight, 1).ok(), Some(true));

    let mut tabs = ParserIndentation::new();
    let two_tabs: Vec<char> = "\t\t01".chars().collect();
    assert_eq!(tabs.determine(&two_tabs).ok(), Some(2));
    assert_eq!(tabs.indentation, Some(Indentation::Tabs));
}

#[test]
fn scope_lookup() {
    let mut scope = EvaluatorScope::new();
    let name = "x".to_string();
    scope.set(0, &name, Expansion::Inline(InlineExpansion::new(name.clone(), vec![1])));
    let child = scope.child(0);
    assert_eq!(child, 1);
    let value = |s: &EvaluatorScope, frame: usize| match s.get(frame, &name) {
        Some(Expansion::Inline(i)) => Some(i.value.clone()),
        Some(_) => panic!("expected an inline expansion"),
        None => None,
    };
    assert_eq!(value(&scope, 1), Some(vec![1]));
    scope.set(1, &name, Expansion::Inline(InlineExpansion::new(name.clone(), vec![2])));
    assert_eq!(value(&scope, 1), Some(vec![2]));
    assert_eq!(value(&scope, 0), Some(vec![1]));
    let mark = (1, 1);
    scope.release(mark);
    assert_eq!(value(&scope, 1), None);
    assert_eq!(value(&scope, 0), Some(vec![1]));
}

#[test]
fn inline_expansion_arity() {
    let x = InlineExpansion::new("v".to_string(), vec![9]);
    assert_eq!(x.expand(&Vec::new()).ok(), Some(vec![9]));
    assert_eq!(kind(x.expand(&vec![vec![1]])), ErrorKind::ArityMismatch("v".to_string(), 0, 1));
}

#[test]
fn parse_then_evaluate() {
    let lines: Vec<String> = vec!["@define p".to_string(), "  0102".to_string(), "$p $p".to_string()];
    let blocks: Vec<Block> = match parse(&lines, false, &Vec::new()) {
        ParseOutcome::Parsed(b) => b,
        _ => panic!("expected blocks"),
    };
    assert_eq!(blocks.len(), 2);
    assert!(matches!(&blocks[0], Block::Define(_)));
    assert_eq!(evaluate(&blocks).ok(), Some(vec![1, 2, 1, 2]));
}

#[test]
fn hex_dump() {
    assert_eq!(encode_digit(0), '0');
    assert_eq!(encode_digit(10), 'A');
    assert_eq!(encode_digit(16), '?');
    let bytes: Vec<u8> = (0..17).collect();
    assert_eq!(
        debug_bytes(&bytes),
        "00 01 02 03 04 05 06 07  08 09 0A 0B 0C 0D 0E 0F\n10 "
    );
    assert_eq!(debug_bytes(&vec![0xAB]), "AB ");
}

#[test]
fn error_messages() {
    let e = EvaluationError::new(3, ErrorKind::ArityMismatch("add".to_string(), 2, 1));
    assert_eq!(e.message(), "Runtime error on line 3: expansion $add expected 2 args, got 1");
    let e = AnonymousEvaluationError::new(ErrorKind::UnknownMacro("@x".to_string())).at(12);
    assert_eq!(e.line, 12);
    assert_eq!(e.message(), "Runtime error on line 12: unknown macro: @x");
    assert_eq!(ErrorKind::InvalidEscape('q').describe(), "invalid escape sequence \\q");
    assert_eq!(ErrorKind::Tooling("gcc failed".to_string()).describe(), "gcc failed");
    assert_eq!(
        ErrorKind::DecimalTooLarge("99999999999999999999".to_string()).describe(),
        "invalid decimal format: number too large to fit in target type: 99999999999999999999"
    );
    assert_eq!(
        ErrorKind::OddHexLength("1".to_string()).describe(),
        "length of hexadecimal word must be divisible by two: 1"
    );
    assert_eq!(ErrorKind::FileUnreadable.describe(), "error reading file!");
}

#[test]
fn evaluator_runs_keep_no_definitions() {
    let define: Vec<String> = vec!["@define k".to_string(), "  0A".to_string(), "$k".to_string()];
    let blocks = match parse(&define, false, &Vec::new()) {
        ParseOutcome::Parsed(b) => b,
        _ => panic!("expected blocks"),
    };
    let mut evaluator = Evaluator::new();
    assert_eq!(evaluator.evaluate(&blocks).ok(), Some(vec![0x0A]));
    let call: Vec<String> = vec!["$k".to_string()];
    let again = match parse(&call, false, &Vec::new()) {
        ParseOutcome::Parsed(b) => b,
        _ => panic!("expected blocks"),
    };
    match evaluator.evaluate(&again) {
        Err(e) => assert_eq!(e.what, ErrorKind::UndefinedVariable("k".to_string())),
        Ok(b) => panic!("expected an error, got {:?}", b),
    }
}

#[test]
fn cursor_walks_lines() {
    let lines: Vec<String> = vec!["ab".to_string(), "c".to_string()];
    let mut cursor = ParserCursor::new(&lines, true);
    assert_eq!(cursor.has_line().ok(), Some(true));
    assert_eq!(cursor.get_line_number(), 1);
    assert_eq!(cursor.get_line(), &vec!['a', 'b']);
    cursor.advance();
    assert_eq!(cursor.get_line(), &vec!['c']);
    cursor.advance();
    match cursor.has_line() {
        Err(e) => {
            assert_eq!(e.line, 2);
            assert_eq!(e.what, ErrorKind::ReadFailure);
        }
        Ok(b) => panic!("expected a read error, got {}", b),
    }
}
