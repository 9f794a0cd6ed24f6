use lume::parser::strings::{
    decode_string_contents, encode_string_literal, find_interpolated_expr_end,
    is_multiline_string, parse_interpolated_string_parts, starts_lower, string_has_interpolation,
};
use lume::syntax::strings::{
    is_ascii_identifier_continue, is_ascii_identifier_start,
    parse_interpolated_string_parts as parse_body_parts, string_literal,
};
use lume::text::{starts_upper, usize_to_string};

#[test]
fn decodes_supported_escapes() {
    assert_eq!(decode_string_contents("a\\nb\\t\\\\\\\"\\$").unwrap(), "a\nb\t\\\"$");
    assert_eq!(decode_string_contents("plain").unwrap(), "plain");
}

#[test]
fn rejects_dangling_and_unknown_escapes() {
    assert_eq!(decode_string_contents("oops\\").unwrap_err(), "dangling escape");
    assert_eq!(decode_string_contents("\\q").unwrap_err(), "unsupported escape \\q");
}

#[test]
fn encodes_with_quotes_and_escapes() {
    assert_eq!(encode_string_literal("say \"hi\"\n"), "\"say \\\"hi\\\"\\n\"");
    assert_eq!(encode_string_literal(""), "\"\"");
    assert_eq!(encode_string_literal("$x"), "\"$x\"");
}

#[test]
fn decoding_an_encoded_value_gives_it_back() {
    for value in ["", "plain", "tab\there", "quote\"back\\slash", "line\nbreak\r", "cost $5"] {
        let encoded = encode_string_literal(value);
        let inner = &encoded[1..encoded.len() - 1];
        assert_eq!(decode_string_contents(inner).unwrap(), value);
        let literal = string_literal(&encoded).expect("regular literal");
        assert!(!literal.is_raw);
        assert_eq!(literal.body, inner);
    }
}

#[test]
fn detects_interpolation_and_multiline_literals() {
    assert!(string_has_interpolation("\"a $b\""));
    assert!(!string_has_interpolation("a$"));
    assert!(!string_has_interpolation("\"plain\""));
    assert!(is_multiline_string("\"\"\"x\"\"\""));
    assert!(!is_multiline_string("\"x\""));
}

#[test]
fn splits_quoted_interpolations() {
    let parts = parse_interpolated_string_parts("\"hi $name, ${a + b}!\"").unwrap();
    let shape: Vec<(bool, &str)> = parts.iter().map(|p| (p.is_literal, p.text.as_str())).collect();
    assert_eq!(shape, vec![(true, "hi "), (false, "name"), (true, ", "), (false, "a + b"), (true, "!")]);
    assert_eq!(parse_interpolated_string_parts("\"x $\"").unwrap_err(), "dangling '$'");
    assert_eq!(parse_interpolated_string_parts("\"${}\"").unwrap_err(), "empty interpolation");
    assert!(parse_interpolated_string_parts("no quotes").is_err());
}

#[test]
fn splits_body_interpolations_with_escaped_dollar() {
    let parts = parse_body_parts("cost \\$5 for $_item1").unwrap();
    let shape: Vec<(bool, &str)> = parts.iter().map(|p| (p.is_literal, p.text.as_str())).collect();
    assert_eq!(shape, vec![(true, "cost $5 for "), (false, "_item1")]);
    assert_eq!(parse_body_parts("a $").unwrap_err(), "dangling '$'");
    assert_eq!(parse_body_parts("$1").unwrap_err(), "expected identifier or '{' after '$'");
    assert_eq!(parse_body_parts("${f(\"}\")}").unwrap()[0].text, "f(\"}\")");
    assert_eq!(parse_body_parts("${\"open").unwrap_err(), "unterminated string inside interpolation");
}

#[test]
fn finds_the_closing_brace_of_an_interpolation() {
    let runes: Vec<char> = "${a{b}c}d".chars().collect();
    assert_eq!(find_interpolated_expr_end(&runes, 2, runes.len()).unwrap(), 7);
    let runes: Vec<char> = "${'}'}".chars().collect();
    assert_eq!(find_interpolated_expr_end(&runes, 2, runes.len()).unwrap(), 5);
    let runes: Vec<char> = "${abc".chars().collect();
    assert_eq!(find_interpolated_expr_end(&runes, 2, runes.len()).unwrap_err(), "unterminated '${...}'");
}

#[test]
fn reads_string_literal_bodies() {
    let lit = string_literal("raw\"a\\b\"").unwrap();
    assert!(lit.is_raw);
    assert_eq!(lit.body, "a\\b");
    let lit = string_literal("\"\"\"multi\nline\"\"\"").unwrap();
    assert!(!lit.is_raw);
    assert_eq!(lit.body, "multi\nline");
    assert!(string_literal("\"").is_none());
    assert!(string_literal("bare").is_none());
}

#[test]
fn classifies_identifier_characters_and_initials() {
    assert!(is_ascii_identifier_start('_'));
    assert!(is_ascii_identifier_start('Q'));
    assert!(!is_ascii_identifier_start('7'));
    assert!(is_ascii_identifier_continue('7'));
    assert!(!is_ascii_identifier_continue('-'));
    assert!(starts_lower("std"));
    assert!(!starts_lower("Std"));
    assert!(starts_upper("Std"));
    assert!(!starts_upper(""));
}

#[test]
fn writes_decimal_numbers() {
    assert_eq!(usize_to_string(0), "0");
    assert_eq!(usize_to_string(7), "7");
    assert_eq!(usize_to_string(1204), "1204");
}

#[test]
fn names_end_at_the_first_character_that_cannot_continue_them() {
    let parts = parse_interpolated_string_parts("\"$a_b \\\\n ${x}${y}\"").unwrap();
    let shape: Vec<(bool, &str)> = parts.iter().map(|p| (p.is_literal, p.text.as_str())).collect();
    assert_eq!(shape, vec![(false, "a"), (true, "_b \\\\n "), (false, "x"), (false, "y")]);
    let parts = parse_body_parts("$a_b.c").unwrap();
    let shape: Vec<(bool, &str)> = parts.iter().map(|p| (p.is_literal, p.text.as_str())).collect();
    assert_eq!(shape, vec![(false, "a_b"), (true, ".c")]);
    let runes: Vec<char> = "${\"a\\\"}\"}".chars().collect();
    assert_eq!(find_interpolated_expr_end(&runes, 2, runes.len()).unwrap(), 8);
}
