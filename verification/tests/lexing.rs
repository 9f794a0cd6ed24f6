use lume::lexer::{keyword_in, lex, lex_str, Keyword, TokenKind};
use lume::source::{Position, SourceFile, Span};

fn kinds(text: &str) -> Vec<TokenKind> {
    lex_str(text).tokens.iter().map(|t| t.kind).collect()
}

#[test]
fn lexes_keywords_identifiers_and_numbers() {
    let result = lex_str("def run(x Int) = 42 + 3.5");
    assert!(!result.has_errors());
    assert_eq!(
        kinds("def run(x Int) = 42 + 3.5"),
        vec![
            TokenKind::Keyword(Keyword::Def),
            TokenKind::Identifier,
            TokenKind::LParen,
            TokenKind::Identifier,
            TokenKind::Identifier,
            TokenKind::RParen,
            TokenKind::Eq,
            TokenKind::Integer,
            TokenKind::Plus,
            TokenKind::Float,
            TokenKind::Eof,
        ]
    );
    let lexemes: Vec<&str> = result.tokens.iter().map(|t| t.lexeme.as_str()).collect();
    assert_eq!(lexemes, vec!["def", "run", "(", "x", "Int", ")", "=", "42", "+", "3.5", ""]);
}

#[test]
fn lexes_longest_operators_first() {
    assert_eq!(
        kinds("a ?? b .-> c :< d %= e ... f"),
        vec![
            TokenKind::Identifier,
            TokenKind::QuestionQuestion,
            TokenKind::Identifier,
            TokenKind::DotArrow,
            TokenKind::Identifier,
            TokenKind::ColonLess,
            TokenKind::Identifier,
            TokenKind::PercentEq,
            TokenKind::Identifier,
            TokenKind::Ellipsis,
            TokenKind::Identifier,
            TokenKind::Eof,
        ]
    );
    assert_eq!(
        kinds("<- => -> := == !="),
        vec![
            TokenKind::LeftArrow,
            TokenKind::FatArrow,
            TokenKind::Arrow,
            TokenKind::ColonAssign,
            TokenKind::EqEq,
            TokenKind::NotEq,
            TokenKind::Eof,
        ]
    );
}

#[test]
fn lexes_strings_raw_strings_and_comments() {
    let result = lex_str("x = \"a\\\"b\" # trailing comment\ny = raw\"c\\d\"\n");
    assert!(!result.has_errors());
    let lexemes: Vec<&str> = result.tokens.iter().map(|t| t.lexeme.as_str()).collect();
    assert_eq!(lexemes, vec!["x", "=", "\"a\\\"b\"", "\n", "y", "=", "raw\"c\\d\"", "\n", ""]);
    let strings: Vec<TokenKind> = result.tokens.iter().map(|t| t.kind).filter(|k| *k == TokenKind::String).collect();
    assert_eq!(strings.len(), 2);
}

#[test]
fn lexes_triple_quoted_strings_across_lines() {
    let result = lex_str("s = \"\"\"one\ntwo\"\"\"");
    assert!(!result.has_errors());
    assert_eq!(result.tokens[2].kind, TokenKind::String);
    assert_eq!(result.tokens[2].lexeme, "\"\"\"one\ntwo\"\"\"");
    assert_eq!(result.tokens[3].kind, TokenKind::Eof);
}

#[test]
fn reports_unterminated_strings_and_unknown_characters() {
    let result = lex_str("\"open");
    assert!(result.has_errors());
    assert_eq!(result.diagnostics[0].code, "lex_error");
    assert_eq!(result.diagnostics[0].message, "unterminated string");
    let result = lex_str("a ~ b");
    assert_eq!(result.diagnostics.len(), 1);
    assert_eq!(result.diagnostics[0].message, "unexpected character");
    assert_eq!(result.diagnostics[0].span.start, 2);
}

#[test]
fn token_spans_cover_their_lexemes_and_track_lines() {
    let file = SourceFile::new("t.lum", "a\n  bc");
    let result = lex(&file);
    let bc = &result.tokens[2];
    assert_eq!(bc.lexeme, "bc");
    assert_eq!((bc.span.start, bc.span.end), (4, 6));
    assert_eq!(bc.span.start_pos, Position { line: 2, column: 3 });
    let eof = result.tokens.last().unwrap();
    assert_eq!(eof.kind, TokenKind::Eof);
    assert_eq!(eof.span.start, 6);
}

#[test]
fn empty_text_gives_only_the_end_marker() {
    let result = lex_str("");
    assert_eq!(result.tokens.len(), 1);
    assert_eq!(result.tokens[0].kind, TokenKind::Eof);
    assert!(!result.has_errors());
}

#[test]
fn recognises_keywords_of_both_grammars() {
    let chars: Vec<char> = "shape single defer expect use vararg import record".chars().collect();
    assert_eq!(keyword_in(&chars, 0, 5), Some(Keyword::Shape));
    assert_eq!(keyword_in(&chars, 6, 12), Some(Keyword::Single));
    assert_eq!(keyword_in(&chars, 13, 18), Some(Keyword::Defer));
    assert_eq!(keyword_in(&chars, 19, 25), Some(Keyword::Expect));
    assert_eq!(keyword_in(&chars, 26, 29), Some(Keyword::Use));
    assert_eq!(keyword_in(&chars, 30, 36), Some(Keyword::Vararg));
    assert_eq!(keyword_in(&chars, 37, 43), Some(Keyword::Import));
    assert_eq!(keyword_in(&chars, 44, 50), Some(Keyword::Record));
    assert_eq!(keyword_in(&chars, 0, 4), None);
}

#[test]
fn cover_encloses_both_spans() {
    let a = Span::new(3, 5, Position { line: 1, column: 4 }, Position { line: 1, column: 6 });
    let b = Span::new(8, 12, Position { line: 2, column: 1 }, Position { line: 2, column: 5 });
    let c = a.cover(b);
    assert_eq!((c.start, c.end), (3, 12));
    assert_eq!(c.start_pos, a.start_pos);
    assert_eq!(c.end_pos, b.end_pos);
    let d = b.cover(a);
    assert_eq!((d.start, d.end), (3, 12));
    assert_eq!(a.cover(a), a);
}

#[test]
fn skips_blanks_and_comments_between_tokens() {
    let result = lex_str("a \t # note\r\n  b");
    assert!(!result.has_errors());
    let lexemes: Vec<&str> = result.tokens.iter().map(|t| t.lexeme.as_str()).collect();
    assert_eq!(lexemes, vec!["a", "\n", "b", ""]);
    assert_eq!(result.tokens[1].span.start, 11);
}

#[test]
fn words_and_numbers_run_as_far_as_they_can() {
    let result = lex_str("ab1_c 12.5 7.x iffy if");
    assert!(!result.has_errors());
    let lexemes: Vec<&str> = result.tokens.iter().map(|t| t.lexeme.as_str()).collect();
    assert_eq!(lexemes, vec!["ab1_c", "12.5", "7", ".", "x", "iffy", "if", ""]);
    assert_eq!(
        kinds("ab1_c 12.5 7.x iffy if"),
        vec![
            TokenKind::Identifier,
            TokenKind::Float,
            TokenKind::Integer,
            TokenKind::Dot,
            TokenKind::Identifier,
            TokenKind::Identifier,
            TokenKind::Keyword(Keyword::If),
            TokenKind::Eof,
        ]
    );
}

#[test]
fn unterminated_strings_stop_at_the_end_of_their_line() {
    let result = lex_str("x = \"abc\ny = raw\"\"\"never");
    assert_eq!(result.diagnostics.len(), 2);
    let first = &result.diagnostics[0];
    assert_eq!(first.message, "unterminated string");
    assert_eq!((first.span.start, first.span.end), (4, 8));
    assert_eq!((first.span.start_pos.line, first.span.start_pos.column), (1, 5));
    let second = &result.diagnostics[1];
    assert_eq!(second.message, "unterminated multiline string");
    assert_eq!((second.span.start, second.span.end), (13, 24));
    assert_eq!((second.span.end_pos.line, second.span.end_pos.column), (2, 16));
}

#[test]
fn a_string_token_ends_just_past_its_closing_quote() {
    let file = SourceFile::new("s.lum", "x = \"a\\\"b\" + raw\"c\\\" d\n\"open");
    let lexed = lex(&file);
    let strings: Vec<&str> = lexed
        .tokens
        .iter()
        .filter(|t| t.kind == TokenKind::String)
        .map(|t| t.lexeme.as_str())
        .collect();
    assert_eq!(strings, vec!["\"a\\\"b\"", "raw\"c\\\"", "\"open"]);
}
