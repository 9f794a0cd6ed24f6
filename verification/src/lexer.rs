//! Turns source text into tokens.
use vstd::prelude::*;
use crate::diagnostic::Diagnostic;
use crate::source::{Position, SourceFile, Span};
use crate::text::{
    chars_of, char_is_alnum, char_is_alpha, char_is_digit, is_ascii_alpha, is_ascii_digit,
    range_is, string_from_range,
};

verus! {

#[derive(Debug, Clone, Copy, PartialEq, Eq, Structural)]
pub enum Keyword {
    Annotation,
    As,
    Break,
    Case,
    Class,
    Continue,
    Def,
    Defer,
    Else,
    Enum,
    Expect,
    Ext,
    False,
    Fn,
    For,
    Hidden,
    If,
    Impl,
    Import,
    Interface,
    Is,
    Let,
    Match,
    Module,
    Object,
    Partial,
    Public,
    Record,
    Reified,
    Return,
    Shape,
    Single,
    Then,
    True,
    Try,
    Unwrap,
    Use,
    Var,
    Vararg,
    While,
    With,
    Yield,
}

#[derive(Debug, Clone, Copy, PartialEq, Eq, Structural)]
pub enum TokenKind {
    Identifier,
    Integer,
    Float,
    String,
    Keyword(Keyword),
    Newline,
    Eof,
    LParen,
    RParen,
    LBrace,
    RBrace,
    LBracket,
    RBracket,
    Comma,
    Dot,
    DotArrow,
    Ellipsis,
    Colon,
    ColonAssign,
    ColonPlus,
    ColonMinus,
    ColonLess,
    At,
    Question,
    QuestionQuestion,
    Eq,
    EqEq,
    FatArrow,
    Bang,
    NotEq,
    Less,
    LessEq,
    LeftArrow,
    Greater,
    GreaterEq,
    Plus,
    PlusPlus,
    PlusEq,
    Minus,
    MinusMinus,
    MinusEq,
    Arrow,
    Star,
    StarEq,
    Slash,
    SlashEq,
    Percent,
    PercentEq,
    Ampersand,
    AndAnd,
    Pipe,
    OrOr,
}

#[derive(Debug)]
pub struct Token {
    pub kind: TokenKind,
    pub lexeme: String,
    pub span: Span,
}

pub struct LexResult {
    pub tokens: Vec<Token>,
    pub diagnostics: Vec<Diagnostic>,
}

impl LexResult {
    pub fn has_errors(&self) -> (b: bool)
        ensures
            b == (self.diagnostics@.len() > 0),
    {
        self.diagnostics.len() > 0
    }
}

/// The keyword spelled by `s`, if any.
pub open spec fn keyword_of(s: Seq<char>) -> Option<Keyword> {
    if s == "annotation"@ { Some(Keyword::Annotation) }
    else if s == "as"@ { Some(Keyword::As) }
    else if s == "break"@ { Some(Keyword::Break) }
    else if s == "case"@ { Some(Keyword::Case) }
    else if s == "class"@ { Some(Keyword::Class) }
    else if s == "continue"@ { Some(Keyword::Continue) }
    else if s == "def"@ { Some(Keyword::Def) }
    else if s == "defer"@ { Some(Keyword::Defer) }
    else if s == "else"@ { Some(Keyword::Else) }
    else if s == "enum"@ { Some(Keyword::Enum) }
    else if s == "expect"@ { Some(Keyword::Expect) }
    else if s == "ext"@ { Some(Keyword::Ext) }
    else if s == "false"@ { Some(Keyword::False) }
    else if s == "fn"@ { Some(Keyword::Fn) }
    else if s == "for"@ { Some(Keyword::For) }
    else if s == "hidden"@ { Some(Keyword::Hidden) }
    else if s == "if"@ { Some(Keyword::If) }
    else if s == "impl"@ { Some(Keyword::Impl) }
    else if s == "import"@ { Some(Keyword::Import) }
    else if s == "interface"@ { Some(Keyword::Interface) }
    else if s == "is"@ { Some(Keyword::Is) }
    else if s == "let"@ { Some(Keyword::Let) }
    else if s == "match"@ { Some(Keyword::Match) }
    else if s == "module"@ { Some(Keyword::Module) }
    else if s == "object"@ { Some(Keyword::Object) }
    else if s == "partial"@ { Some(Keyword::Partial) }
    else if s == "public"@ { Some(Keyword::Public) }
    else if s == "record"@ { Some(Keyword::Record) }
    else if s == "reified"@ { Some(Keyword::Reified) }
    else if s == "return"@ { Some(Keyword::Return) }
    else if s == "shape"@ { Some(Keyword::Shape) }
    else if s == "single"@ { Some(Keyword::Single) }
    else if s == "then"@ { Some(Keyword::Then) }
    else if s == "true"@ { Some(Keyword::True) }
    else if s == "try"@ { Some(Keyword::Try) }
    else if s == "unwrap"@ { Some(Keyword::Unwrap) }
    else if s == "use"@ { Some(Keyword::Use) }
    else if s == "var"@ { Some(Keyword::Var) }
    else if s == "vararg"@ { Some(Keyword::Vararg) }
    else if s == "while"@ { Some(Keyword::While) }
    else if s == "with"@ { Some(Keyword::With) }
    else if s == "yield"@ { Some(Keyword::Yield) }
    else { None }
}

/// The keyword spelled by `chars[start..end]`, if any.
pub fn keyword_in(chars: &Vec<char>, start: usize, end: usize) -> (k: Option<Keyword>)
    requires
        start <= end <= chars@.len(),
    ensures
        k == keyword_of(chars@.subrange(start as int, end as int)),
{
    if range_is(chars, start, end, "annotation") { Some(Keyword::Annotation) }
    else if range_is(chars, start, end, "as") { Some(Keyword::As) }
    else if range_is(chars, start, end, "break") { Some(Keyword::Break) }
    else if range_is(chars, start, end, "case") { Some(Keyword::Case) }
    else if range_is(chars, start, end, "class") { Some(Keyword::Class) }
    else if range_is(chars, start, end, "continue") { Some(Keyword::Continue) }
    else if range_is(chars, start, end, "def") { Some(Keyword::Def) }
    else if range_is(chars, start, end, "defer") { Some(Keyword::Defer) }
    else if range_is(chars, start, end, "else") { Some(Keyword::Else) }
    else if range_is(chars, start, end, "enum") { Some(Keyword::Enum) }
    else if range_is(chars, start, end, "expect") { Some(Keyword::Expect) }
    else if range_is(chars, start, end, "ext") { Some(Keyword::Ext) }
    else if range_is(chars, start, end, "false") { Some(Keyword::False) }
    else if range_is(chars, start, end, "fn") { Some(Keyword::Fn) }
    else if range_is(chars, start, end, "for") { Some(Keyword::For) }
    else if range_is(chars, start, end, "hidden") { Some(Keyword::Hidden) }
    else if range_is(chars, start, end, "if") { Some(Keyword::If) }
    else if range_is(chars, start, end, "impl") { Some(Keyword::Impl) }
    else if range_is(chars, start, end, "import") { Some(Keyword::Import) }
    else if range_is(chars, start, end, "interface") { Some(Keyword::Interface) }
    else if range_is(chars, start, end, "is") { Some(Keyword::Is) }
    else if range_is(chars, start, end, "let") { Some(Keyword::Let) }
    else if range_is(chars, start, end, "match") { Some(Keyword::Match) }
    else if range_is(chars, start, end, "module") { Some(Keyword::Module) }
    else if range_is(chars, start, end, "object") { Some(Keyword::Object) }
    else if range_is(chars, start, end, "partial") { Some(Keyword::Partial) }
    else if range_is(chars, start, end, "public") { Some(Keyword::Public) }
    else if range_is(chars, start, end, "record") { Some(Keyword::Record) }
    else if range_is(chars, start, end, "reified") { Some(Keyword::Reified) }
    else if range_is(chars, start, end, "return") { Some(Keyword::Return) }
    else if range_is(chars, start, end, "shape") { Some(Keyword::Shape) }
    else if range_is(chars, start, end, "single") { Some(Keyword::Single) }
    else if range_is(chars, start, end, "then") { Some(Keyword::Then) }
    else if range_is(chars, start, end, "true") { Some(Keyword::True) }
    else if range_is(chars, start, end, "try") { Some(Keyword::Try) }
    else if range_is(chars, start, end, "unwrap") { Some(Keyword::Unwrap) }
    else if range_is(chars, start, end, "use") { Some(Keyword::Use) }
    else if range_is(chars, start, end, "var") { Some(Keyword::Var) }
    else if range_is(chars, start, end, "vararg") { Some(Keyword::Vararg) }
    else if range_is(chars, start, end, "while") { Some(Keyword::While) }
    else if range_is(chars, start, end, "with") { Some(Keyword::With) }
    else if range_is(chars, start, end, "yield") { Some(Keyword::Yield) }
    else { None }
}

pub open spec fn is_ident_start(c: char) -> bool {
    is_ascii_alpha(c) || c == '_'
}

pub open spec fn is_ident_continue(c: char) -> bool {
    is_ascii_alpha(c) || is_ascii_digit(c) || c == '_'
}

/// Every character of `s` is an ASCII digit.
pub open spec fn all_digits(s: Seq<char>) -> bool {
    forall|i: int| 0 <= i < s.len() ==> is_ascii_digit(#[trigger] s[i])
}

/// Every character of `s` may continue an identifier.
pub open spec fn all_ident_continue(s: Seq<char>) -> bool {
    forall|i: int| 0 <= i < s.len() ==> is_ident_continue(#[trigger] s[i])
}

/// `s` is digits, a `.` at `dot`, and digits again, with at least one digit on
/// each side.
pub open spec fn float_split(s: Seq<char>, dot: int) -> bool {
    &&& 0 < dot && dot + 1 < s.len()
    &&& s[dot] == '.'
    &&& all_digits(s.take(dot))
    &&& all_digits(s.skip(dot + 1))
}

/// How each punctuation token is spelled; empty for the other kinds.
pub open spec fn punct_spelling(kind: TokenKind) -> Seq<char> {
    match kind {
        TokenKind::LParen => seq!['('],
        TokenKind::RParen => seq![')'],
        TokenKind::LBrace => seq!['{'],
        TokenKind::RBrace => seq!['}'],
        TokenKind::LBracket => seq!['['],
        TokenKind::RBracket => seq![']'],
        TokenKind::Comma => seq![','],
        TokenKind::Dot => seq!['.'],
        TokenKind::DotArrow => seq!['.', '-', '>'],
        TokenKind::Ellipsis => seq!['.', '.', '.'],
        TokenKind::Colon => seq![':'],
        TokenKind::ColonAssign => seq![':', '='],
        TokenKind::ColonPlus => seq![':', '+'],
        TokenKind::ColonMinus => seq![':', '-'],
        TokenKind::ColonLess => seq![':', '<'],
        TokenKind::At => seq!['@'],
        TokenKind::Question => seq!['?'],
        TokenKind::QuestionQuestion => seq!['?', '?'],
        TokenKind::Eq => seq!['='],
        TokenKind::EqEq => seq!['=', '='],
        TokenKind::FatArrow => seq!['=', '>'],
        TokenKind::Bang => seq!['!'],
        TokenKind::NotEq => seq!['!', '='],
        TokenKind::Less => seq!['<'],
        TokenKind::LessEq => seq!['<', '='],
        TokenKind::LeftArrow => seq!['<', '-'],
        TokenKind::Greater => seq!['>'],
        TokenKind::GreaterEq => seq!['>', '='],
        TokenKind::Plus => seq!['+'],
        TokenKind::PlusPlus => seq!['+', '+'],
        TokenKind::PlusEq => seq!['+', '='],
        TokenKind::Minus => seq!['-'],
        TokenKind::MinusMinus => seq!['-', '-'],
        TokenKind::MinusEq => seq!['-', '='],
        TokenKind::Arrow => seq!['-', '>'],
        TokenKind::Star => seq!['*'],
        TokenKind::StarEq => seq!['*', '='],
        TokenKind::Slash => seq!['/'],
        TokenKind::SlashEq => seq!['/', '='],
        TokenKind::Percent => seq!['%'],
        TokenKind::PercentEq => seq!['%', '='],
        TokenKind::Ampersand => seq!['&'],
        TokenKind::AndAnd => seq!['&', '&'],
        TokenKind::Pipe => seq!['|'],
        TokenKind::OrOr => seq!['|', '|'],
        _ => Seq::empty(),
    }
}

/// What a lexeme of each kind looks like: identifiers are identifier
/// characters that spell no keyword, keywords spell their keyword, integers
/// are digits, floats are digits around one `.`, strings open with `"` or
/// `raw"`, a newline token is the newline itself, the end marker is empty and
/// punctuation is spelled as `punct_spelling` says.
pub open spec fn token_shape(kind: TokenKind, lexeme: Seq<char>) -> bool {
    match kind {
        TokenKind::Identifier => {
            &&& lexeme.len() > 0
            &&& is_ident_start(lexeme[0])
            &&& all_ident_continue(lexeme)
            &&& keyword_of(lexeme) is None
        },
        TokenKind::Keyword(k) => keyword_of(lexeme) == Some(k),
        TokenKind::Integer => lexeme.len() > 0 && all_digits(lexeme),
        TokenKind::Float => exists|dot: int| #[trigger] float_split(lexeme, dot),
        TokenKind::String => {
            ||| lexeme.len() > 0 && lexeme[0] == '"'
            ||| lexeme.len() > 3 && lexeme.take(4) == seq!['r', 'a', 'w', '"']
        },
        TokenKind::Newline => lexeme == seq!['\n'],
        TokenKind::Eof => lexeme.len() == 0,
        _ => lexeme == punct_spelling(kind),
    }
}

/// The character at `i`, if `text` has one there.
pub open spec fn char_at(text: Seq<char>, i: int) -> Option<char> {
    if 0 <= i < text.len() { Some(text[i]) } else { None }
}

/// Whether the one-character punctuation `kind`, followed by `a` and then
/// `b`, would begin a longer punctuation token.
pub open spec fn punct_extends(kind: TokenKind, a: Option<char>, b: Option<char>) -> bool {
    match kind {
        TokenKind::Question => a == Some('?'),
        TokenKind::Percent => a == Some('='),
        TokenKind::Dot => (a == Some('.') && b == Some('.')) || (a == Some('-') && b == Some('>')),
        TokenKind::Colon => a == Some('=') || a == Some('+') || a == Some('-') || a == Some('<'),
        TokenKind::Eq => a == Some('=') || a == Some('>'),
        TokenKind::Bang => a == Some('='),
        TokenKind::Less => a == Some('-') || a == Some('='),
        TokenKind::Greater => a == Some('='),
        TokenKind::Minus => a == Some('>') || a == Some('-') || a == Some('='),
        TokenKind::Plus => a == Some('+') || a == Some('='),
        TokenKind::Star => a == Some('='),
        TokenKind::Slash => a == Some('='),
        TokenKind::Ampersand => a == Some('&'),
        TokenKind::Pipe => a == Some('|'),
        _ => false,
    }
}

/// A token stops only where the text cannot continue it: an identifier or
/// keyword where no identifier character follows, an integer where neither a
/// digit nor a `.` followed by a digit follows, a float where no digit
/// follows, and punctuation where it does not begin a longer punctuation
/// token.
pub open spec fn ends_maximally(kind: TokenKind, text: Seq<char>, end: int) -> bool {
    match kind {
        TokenKind::Identifier | TokenKind::Keyword(_) => end == text.len() || !is_ident_continue(text[end]),
        TokenKind::Integer => end == text.len() || (!is_ascii_digit(text[end]) && !(text[end] == '.'
            && end + 1 < text.len() && is_ascii_digit(text[end + 1]))),
        TokenKind::Float => end == text.len() || !is_ascii_digit(text[end]),
        _ => !punct_extends(kind, char_at(text, end), char_at(text, end + 1)),
    }
}

/// The line of offset `i` in `text`, counted from 1: one more than the
/// newlines before it.
pub open spec fn line_at(text: Seq<char>, i: int) -> int
    decreases i,
{
    if i <= 0 {
        1
    } else {
        line_at(text, i - 1) + (if text[i - 1] == '\n' { 1int } else { 0int })
    }
}

/// The column of offset `i` in `text`, counted from 1: one more than the
/// characters since the last newline before it.
pub open spec fn column_at(text: Seq<char>, i: int) -> int
    decreases i,
{
    if i <= 0 {
        1
    } else if text[i - 1] == '\n' {
        1
    } else {
        column_at(text, i - 1) + 1
    }
}

/// `p` is the line and column of offset `i` in `text`.
pub open spec fn position_of(p: Position, text: Seq<char>, i: int) -> bool {
    p.line == line_at(text, i) && p.column == column_at(text, i)
}

/// A span whose line/column positions are those of its offsets in `text`.
pub open spec fn span_positions_match(span: Span, text: Seq<char>) -> bool {
    &&& position_of(span.start_pos, text, span.start as int)
    &&& position_of(span.end_pos, text, span.end as int)
}

/// Where the body of a one-line string that is read from `i` ends: just past
/// the closing `"`, or at the line break or the end of the text when none
/// comes; outside raw strings a backslash takes the character after it along,
/// unless that is a line break.
pub open spec fn line_string_end(text: Seq<char>, i: int, raw: bool) -> int
    decreases text.len() - i,
{
    if i < 0 || i >= text.len() || text[i] == '\n' {
        i
    } else if text[i] == '\\' && !raw {
        if i + 1 < text.len() && text[i + 1] != '\n' {
            line_string_end(text, i + 2, raw)
        } else {
            line_string_end(text, i + 1, raw)
        }
    } else if text[i] == '"' {
        i + 1
    } else {
        line_string_end(text, i + 1, raw)
    }
}

/// Where the body of a triple-quoted string that is read from `i` ends: just
/// past the first `"""`, or at the end of the text when none comes.
pub open spec fn triple_string_end(text: Seq<char>, i: int) -> int
    decreases text.len() - i,
{
    if i < 0 || i >= text.len() {
        i
    } else if i + 2 < text.len() && text[i] == '"' && text[i + 1] == '"' && text[i + 2] == '"' {
        i + 3
    } else {
        triple_string_end(text, i + 1)
    }
}

/// Where a string token that starts at `start` ends: after `raw` (if it is
/// there) comes the opening quote; three quotes open a triple-quoted string,
/// one a one-line string.
pub open spec fn string_token_end(text: Seq<char>, start: int) -> int {
    let raw = raw_prefix_at(text, start);
    let q = if raw { start + 3 } else { start };
    if q + 2 < text.len() && text[q + 1] == '"' && text[q + 2] == '"' {
        triple_string_end(text, q + 3)
    } else {
        line_string_end(text, q + 1, raw)
    }
}

/// A token whose lexeme is exactly the text its span covers, shaped as its
/// kind requires and as long as the text allows, with the line and column of
/// both ends of its span.
pub open spec fn token_matches_text(t: Token, text: Seq<char>) -> bool {
    &&& t.span.start <= t.span.end <= text.len()
    &&& t.lexeme@ == text.subrange(t.span.start as int, t.span.end as int)
    &&& token_shape(t.kind, t.lexeme@)
    &&& ends_maximally(t.kind, text, t.span.end as int)
    &&& t.kind == TokenKind::String ==> t.span.end == string_token_end(text, t.span.start as int)
    &&& span_positions_match(t.span, text)
}

/// Tokens in source order, each one spelling the text it covers, none of them
/// the end marker, all within the first `limit` characters.
pub open spec fn tokens_in_order(tokens: Seq<Token>, text: Seq<char>, limit: int) -> bool {
    &&& forall|i: int| 0 <= i < tokens.len() ==> token_matches_text(#[trigger] tokens[i], text)
    &&& forall|i: int| 0 <= i < tokens.len() ==> #[trigger] tokens[i].span.end <= limit
    &&& forall|i: int| 0 <= i < tokens.len() ==> (#[trigger] tokens[i]).kind != TokenKind::Eof
    &&& forall|i: int, j: int|
        0 <= i < j < tokens.len() ==> #[trigger] tokens[i].span.end <= #[trigger] tokens[j].span.start
}

/// What `lex` promises of its tokens: each spells the text it covers, they
/// appear in source order, and exactly the last one is the end marker, sitting
/// at the end of the text.
pub open spec fn well_lexed(tokens: Seq<Token>, text: Seq<char>) -> bool {
    &&& tokens.len() > 0
    &&& tokens_in_order(tokens.drop_last(), text, text.len() as int)
    &&& tokens.last().kind == TokenKind::Eof
    &&& tokens.last().span.start == text.len()
    &&& token_matches_text(tokens.last(), text)
}

/// A character that begins some punctuation token.
pub open spec fn is_punct_start(c: char) -> bool {
    c == '(' || c == ')' || c == '{' || c == '}' || c == '[' || c == ']' || c == ',' || c == '@'
        || c == '?' || c == '%' || c == '.' || c == ':' || c == '=' || c == '!' || c == '<'
        || c == '>' || c == '-' || c == '+' || c == '*' || c == '/' || c == '&' || c == '|'
}

/// A character that can begin a token, or that the lexer skips.
pub open spec fn is_known_start(c: char) -> bool {
    is_blank(c) || c == '#' || c == '\n' || is_ident_start(c) || is_ascii_digit(c) || c == '"'
        || is_punct_start(c)
}

/// A `lex_error` whose span lies within the first `limit` characters of
/// `text`, with the line and column of both its ends, and which says what
/// went wrong: a single character that begins no token, or a string literal
/// (opened by `"` or `raw"`) that runs into the end of its line or of the text
/// before it is closed.
pub open spec fn lex_error_within(d: Diagnostic, text: Seq<char>, limit: int) -> bool {
    &&& d.span.start <= d.span.end <= limit
    &&& d.code@ == "lex_error"@
    &&& span_positions_match(d.span, text)
    &&& {
        ||| d.message@ == "unexpected character"@ && d.span.end == d.span.start + 1
            && !is_known_start(text[d.span.start as int])
        ||| (d.message@ == "unterminated string"@ || d.message@ == "unterminated multiline string"@)
            && d.span.start < d.span.end
            && (text[d.span.start as int] == '"' || raw_prefix_at(text, d.span.start as int))
            && (d.span.end == text.len() || text[d.span.end as int] == '\n')
    }
}

/// Every diagnostic is a `lex_error` whose span lies within the first `limit`
/// characters of `text`, with the line and column of both its ends.
pub open spec fn diagnostics_within(diagnostics: Seq<Diagnostic>, text: Seq<char>, limit: int) -> bool {
    forall|i: int| 0 <= i < diagnostics.len() ==> lex_error_within(#[trigger] diagnostics[i], text, limit)
}

/// A character the lexer skips between tokens: space, tab or carriage return.
pub open spec fn is_blank(c: char) -> bool {
    c == ' ' || c == '\t' || c == '\r'
}

/// `text[from..to]` is blanks up to `comment`, and from there (when
/// `comment < to`) a `#` comment that does not reach a newline.
pub open spec fn blanks_then_comment(text: Seq<char>, from: int, comment: int, to: int) -> bool {
    &&& from <= comment <= to
    &&& forall|i: int| from <= i < comment ==> is_blank(#[trigger] text[i])
    &&& comment < to ==> text[comment] == '#'
    &&& forall|i: int| comment <= i < to ==> #[trigger] text[i] != '\n'
}

/// `text[from..to]` holds nothing but blanks and at most one trailing comment.
pub open spec fn skippable(text: Seq<char>, from: int, to: int) -> bool {
    exists|comment: int| #[trigger] blanks_then_comment(text, from, comment, to)
}

/// Where the text before token `i` begins: at the start of the text, or where
/// the previous token ends.
pub open spec fn gap_start(tokens: Seq<Token>, i: int) -> int {
    if i == 0 { 0 } else { tokens[i - 1].span.end as int }
}

/// Between consecutive tokens (and before the first) there is only skippable
/// text.
pub open spec fn gaps_skippable(tokens: Seq<Token>, text: Seq<char>) -> bool {
    forall|i: int| 0 <= i < tokens.len() ==> skippable(text, gap_start(tokens, i), #[trigger] tokens[i].span.start as int)
}

struct Lexer {
    chars: Vec<char>,
    pos: usize,
    line: usize,
    column: usize,
    tokens: Vec<Token>,
    diagnostics: Vec<Diagnostic>,
}

impl Lexer {
    spec fn wf(&self) -> bool {
        &&& self.chars@.len() < usize::MAX - 2
        &&& self.pos <= self.chars@.len()
        &&& 1 <= self.line <= self.pos + 1
        &&& 1 <= self.column <= self.pos + 1
        &&& tokens_in_order(self.tokens@, self.chars@, self.pos as int)
        &&& diagnostics_within(self.diagnostics@, self.chars@, self.pos as int)
        &&& self.line == line_at(self.chars@, self.pos as int)
        &&& self.column == column_at(self.chars@, self.pos as int)
    }

    fn position(&self) -> (p: Position)
        ensures
            p == (Position { line: self.line, column: self.column }),
    {
        Position { line: self.line, column: self.column }
    }

    fn at_end(&self) -> (b: bool)
        ensures
            b == (self.pos >= self.chars@.len()),
    {
        self.pos >= self.chars.len()
    }

    /// The character `offset` places ahead of the cursor, if there is one.
    fn peek_at(&self, offset: usize) -> (c: Option<char>)
        requires
            self.wf(),
            offset <= 3,
        ensures
            self.pos + offset < self.chars@.len() ==> c == Some(self.chars@[self.pos + offset]),
            self.pos + offset >= self.chars@.len() ==> c is None,
    {
        if self.pos + offset < self.chars.len() {
            Some(self.chars[self.pos + offset])
        } else {
            None
        }
    }

    /// Moves past one character, keeping line and column up to date.
    fn bump(&mut self)
        requires
            old(self).wf(),
            old(self).pos < old(self).chars@.len(),
        ensures
            final(self).wf(),
            final(self).pos == old(self).pos + 1,
            final(self).chars == old(self).chars,
            final(self).tokens == old(self).tokens,
            final(self).diagnostics == old(self).diagnostics,
    {
        if self.chars[self.pos] == '\n' {
            self.line = self.line + 1;
            self.column = 1;
        } else {
            self.column = self.column + 1;
        }
        self.pos = self.pos + 1;
        proof {
            let ts = self.tokens@;
            assert forall|i: int| 0 <= i < ts.len() implies #[trigger] ts[i].span.end <= self.pos by {}
            let ds = self.diagnostics@;
            assert forall|i: int| 0 <= i < ds.len() implies lex_error_within(#[trigger] ds[i], self.chars@, self.pos as int) by {
                assert(lex_error_within(ds[i], self.chars@, self.pos - 1));
            }
        }
    }

    /// Records a token covering `start..pos`.
    fn push_token(&mut self, kind: TokenKind, start: usize, start_pos: Position)
        requires
            old(self).wf(),
            kind != TokenKind::Eof,
            start <= old(self).pos,
            position_of(start_pos, old(self).chars@, start as int),
            token_shape(kind, old(self).chars@.subrange(start as int, old(self).pos as int)),
            ends_maximally(kind, old(self).chars@, old(self).pos as int),
            kind == TokenKind::String ==> old(self).pos == string_token_end(old(self).chars@, start as int),
            forall|i: int|
                0 <= i < old(self).tokens@.len() ==> #[trigger] old(self).tokens@[i].span.end <= start,
        ensures
            final(self).wf(),
            final(self).pos == old(self).pos,
            final(self).chars == old(self).chars,
            final(self).diagnostics == old(self).diagnostics,
            final(self).tokens@.len() == old(self).tokens@.len() + 1,
            final(self).tokens@.drop_last() == old(self).tokens@,
            final(self).tokens@.last().span.start == start,
            final(self).tokens@.last().span.end == old(self).pos,
            final(self).tokens@.last().kind == kind,
    {
        let lexeme = string_from_range(&self.chars, start, self.pos);
        let span = Span { start, end: self.pos, start_pos, end_pos: self.position() };
        let ghost old_tokens = self.tokens@;
        self.tokens.push(Token { kind, lexeme, span });
        proof {
            let ts = self.tokens@;
            assert forall|i: int, j: int|
                0 <= i < j < ts.len() implies #[trigger] ts[i].span.end <= #[trigger] ts[j].span.start by {
                if j == ts.len() - 1 {
                    assert(ts[i] == old_tokens[i]);
                }
            }
            assert forall|i: int| 0 <= i < ts.len() implies token_matches_text(#[trigger] ts[i], self.chars@) by {
                if i < old_tokens.len() {
                    assert(ts[i] == old_tokens[i]);
                }
            }
            assert forall|i: int| 0 <= i < ts.len() implies #[trigger] ts[i].span.end <= self.pos by {
                if i < old_tokens.len() {
                    assert(ts[i] == old_tokens[i]);
                }
            }
            assert forall|i: int| 0 <= i < ts.len() implies (#[trigger] ts[i]).kind != TokenKind::Eof by {
                if i < old_tokens.len() {
                    assert(ts[i] == old_tokens[i]);
                }
            }
            assert(ts.drop_last() =~= old_tokens);
        }
    }

    fn error(&mut self, message: &str, start: usize, start_pos: Position)
        requires
            old(self).wf(),
            start <= old(self).pos,
            position_of(start_pos, old(self).chars@, start as int),
            message@ == "unexpected character"@ && old(self).pos == start + 1
                && !is_known_start(old(self).chars@[start as int])
            || (message@ == "unterminated string"@ || message@ == "unterminated multiline string"@)
                && start < old(self).pos
                && (old(self).chars@[start as int] == '"' || raw_prefix_at(old(self).chars@, start as int))
                && (old(self).pos == old(self).chars@.len() || old(self).chars@[old(self).pos as int] == '\n'),
        ensures
            final(self).wf(),
            final(self).pos == old(self).pos,
            final(self).chars == old(self).chars,
            final(self).tokens == old(self).tokens,
            final(self).diagnostics@.len() == old(self).diagnostics@.len() + 1,
    {
        let span = Span { start, end: self.pos, start_pos, end_pos: self.position() };
        let d = Diagnostic::error("lex_error", String::from_str(message), span);
        let ghost before = self.diagnostics@;
        self.diagnostics.push(d);
        proof {
            assert forall|i: int| 0 <= i < self.diagnostics@.len() implies
                lex_error_within(#[trigger] self.diagnostics@[i], self.chars@, self.pos as int) by {
                if i < before.len() {
                    assert(self.diagnostics@[i] == before[i]);
                }
            }
        }
    }

    /// Skips a `#` comment up to (not including) the end of the line.
    fn skip_comment(&mut self)
        requires
            old(self).wf(),
            old(self).pos < old(self).chars@.len(),
        ensures
            final(self).wf(),
            final(self).pos > old(self).pos,
            final(self).chars == old(self).chars,
            final(self).tokens == old(self).tokens,
            final(self).diagnostics == old(self).diagnostics,
            old(self).chars@[old(self).pos as int] != '\n' ==> forall|i: int|
                old(self).pos <= i < final(self).pos ==> #[trigger] old(self).chars@[i] != '\n',
    {
        self.bump();
        while self.pos < self.chars.len() && self.chars[self.pos] != '\n'
            invariant
                self.wf(),
                self.pos > old(self).pos,
                self.chars == old(self).chars,
                self.tokens == old(self).tokens,
                self.diagnostics == old(self).diagnostics,
                old(self).chars@[old(self).pos as int] != '\n' ==> forall|i: int|
                    old(self).pos <= i < self.pos ==> #[trigger] old(self).chars@[i] != '\n',
            decreases self.chars@.len() - self.pos,
        {
            self.bump();
        }
    }

    /// Moves past characters while they continue an identifier.
    fn bump_while_ident(&mut self)
        requires
            old(self).wf(),
        ensures
            final(self).wf(),
            final(self).pos >= old(self).pos,
            final(self).chars == old(self).chars,
            final(self).tokens == old(self).tokens,
            final(self).diagnostics == old(self).diagnostics,
            forall|i: int| old(self).pos <= i < final(self).pos ==> is_ident_continue(#[trigger] final(self).chars@[i]),
            final(self).pos == final(self).chars@.len() || !is_ident_continue(final(self).chars@[final(self).pos as int]),
    {
        while self.pos < self.chars.len()
            && (char_is_alnum(self.chars[self.pos]) || self.chars[self.pos] == '_')
            invariant
                self.wf(),
                self.pos >= old(self).pos,
                self.chars == old(self).chars,
                self.tokens == old(self).tokens,
                self.diagnostics == old(self).diagnostics,
                forall|i: int| old(self).pos <= i < self.pos ==> is_ident_continue(#[trigger] self.chars@[i]),
            decreases self.chars@.len() - self.pos,
        {
            self.bump();
        }
    }

    /// Moves past decimal digits.
    fn bump_while_digit(&mut self)
        requires
            old(self).wf(),
        ensures
            final(self).wf(),
            final(self).pos >= old(self).pos,
            final(self).chars == old(self).chars,
            final(self).tokens == old(self).tokens,
            final(self).diagnostics == old(self).diagnostics,
            forall|i: int| old(self).pos <= i < final(self).pos ==> is_ascii_digit(#[trigger] final(self).chars@[i]),
            final(self).pos == final(self).chars@.len() || !is_ascii_digit(final(self).chars@[final(self).pos as int]),
    {
        while self.pos < self.chars.len() && char_is_digit(self.chars[self.pos])
            invariant
                self.wf(),
                self.pos >= old(self).pos,
                self.chars == old(self).chars,
                self.tokens == old(self).tokens,
                self.diagnostics == old(self).diagnostics,
                forall|i: int| old(self).pos <= i < self.pos ==> is_ascii_digit(#[trigger] self.chars@[i]),
            decreases self.chars@.len() - self.pos,
        {
            self.bump();
        }
    }

    /// An identifier or keyword.
    fn lex_identifier(&mut self)
        requires
            old(self).wf(),
            old(self).pos < old(self).chars@.len(),
            is_ident_start(old(self).chars@[old(self).pos as int]),
            forall|i: int|
                0 <= i < old(self).tokens@.len() ==> #[trigger] old(self).tokens@[i].span.end <= old(self).pos,
        ensures
            final(self).wf(),
            final(self).pos > old(self).pos,
            final(self).chars == old(self).chars,
            final(self).diagnostics@.len() >= old(self).diagnostics@.len(),
            final(self).diagnostics@.len() == old(self).diagnostics@.len() ==> final(self).tokens@.len()
                == old(self).tokens@.len() + 1 && final(self).tokens@.drop_last() == old(self).tokens@
                && final(self).tokens@.last().span.start == old(self).pos
                && final(self).tokens@.last().span.end == final(self).pos,
    {
        let start = self.pos;
        let start_pos = self.position();
        self.bump();
        self.bump_while_ident();
        let kind = match keyword_in(&self.chars, start, self.pos) {
            Some(keyword) => TokenKind::Keyword(keyword),
            None => TokenKind::Identifier,
        };
        proof {
            let word = self.chars@.subrange(start as int, self.pos as int);
            assert forall|i: int| 0 <= i < word.len() implies is_ident_continue(#[trigger] word[i]) by {
                assert(word[i] == self.chars@[start + i]);
            }
            assert(word[0] == self.chars@[start as int]);
        }
        self.push_token(kind, start, start_pos);
    }

    /// An integer, or a float when a `.` and a digit follow the leading digits.
    fn lex_number(&mut self)
        requires
            old(self).wf(),
            old(self).pos < old(self).chars@.len(),
            is_ascii_digit(old(self).chars@[old(self).pos as int]),
            forall|i: int|
                0 <= i < old(self).tokens@.len() ==> #[trigger] old(self).tokens@[i].span.end <= old(self).pos,
        ensures
            final(self).wf(),
            final(self).pos > old(self).pos,
            final(self).chars == old(self).chars,
            final(self).diagnostics@.len() >= old(self).diagnostics@.len(),
            final(self).diagnostics@.len() == old(self).diagnostics@.len() ==> final(self).tokens@.len()
                == old(self).tokens@.len() + 1 && final(self).tokens@.drop_last() == old(self).tokens@
                && final(self).tokens@.last().span.start == old(self).pos
                && final(self).tokens@.last().span.end == final(self).pos,
    {
        let start = self.pos;
        let start_pos = self.position();
        self.bump();
        self.bump_while_digit();
        let dot = self.pos;
        let mut kind = TokenKind::Integer;
        if self.peek_at(0) == Some('.') {
            if let Some(next) = self.peek_at(1) {
                if char_is_digit(next) {
                    self.bump();
                    self.bump_while_digit();
                    kind = TokenKind::Float;
                }
            }
        }
        proof {
            let text = self.chars@;
            let lexeme = text.subrange(start as int, self.pos as int);
            if kind == TokenKind::Integer {
                assert forall|i: int| 0 <= i < lexeme.len() implies is_ascii_digit(#[trigger] lexeme[i]) by {
                    assert(lexeme[i] == text[start + i]);
                }
            } else {
                let d = dot - start;
                assert forall|i: int| 0 <= i < lexeme.take(d).len() implies is_ascii_digit(#[trigger] lexeme.take(d)[i]) by {
                    assert(lexeme.take(d)[i] == text[start + i]);
                }
                assert forall|i: int| 0 <= i < lexeme.skip(d + 1).len() implies is_ascii_digit(#[trigger] lexeme.skip(d + 1)[i]) by {
                    assert(lexeme.skip(d + 1)[i] == text[dot + 1 + i]);
                }
                assert(float_split(lexeme, d));
            }
        }
        self.push_token(kind, start, start_pos);
    }

    /// A string literal, after a prefix of `prefix` characters (`raw` for raw
    /// strings, whose backslashes are plain characters); its lexeme keeps the
    /// prefix, the quotes and the escapes.
    fn lex_string(&mut self, prefix: usize, raw: bool)
        requires
            old(self).wf(),
            prefix == 0 || (prefix == 3 && raw_prefix_at(old(self).chars@, old(self).pos as int)),
            raw == (prefix == 3),
            old(self).pos + prefix < old(self).chars@.len(),
            old(self).chars@[old(self).pos + prefix] == '"',
            forall|i: int|
                0 <= i < old(self).tokens@.len() ==> #[trigger] old(self).tokens@[i].span.end <= old(self).pos,
        ensures
            final(self).wf(),
            final(self).pos > old(self).pos,
            final(self).chars == old(self).chars,
            final(self).diagnostics@.len() >= old(self).diagnostics@.len(),
            final(self).diagnostics@.len() == old(self).diagnostics@.len() ==> final(self).tokens@.len()
                == old(self).tokens@.len() + 1 && final(self).tokens@.drop_last() == old(self).tokens@
                && final(self).tokens@.last().span.start == old(self).pos
                && final(self).tokens@.last().span.end == final(self).pos,
    {
        let start = self.pos;
        let start_pos = self.position();
        let mut skipped: usize = 0;
        while skipped < prefix
            invariant
                self.wf(),
                skipped <= prefix <= 3,
                self.pos == old(self).pos + skipped,
                old(self).pos + prefix < old(self).chars@.len(),
                self.chars == old(self).chars,
                self.tokens == old(self).tokens,
                self.diagnostics == old(self).diagnostics,
            decreases prefix - skipped,
        {
            self.bump();
            skipped = skipped + 1;
        }
        let ghost q = start + prefix;
        let ghost end = string_token_end(self.chars@, start as int);
        assert(raw_prefix_at(self.chars@, start as int) == raw);
        if self.peek_at(1) == Some('"') && self.peek_at(2) == Some('"') {
            self.bump();
            self.bump();
            self.bump();
            let mut closed = false;
            assert(end == triple_string_end(self.chars@, q + 3));
            while self.pos < self.chars.len() && !closed
                invariant
                    self.wf(),
                    self.pos > start + prefix,
                    start == old(self).pos,
                    self.chars == old(self).chars,
                    self.tokens == old(self).tokens,
                    self.diagnostics == old(self).diagnostics,
                    !closed ==> triple_string_end(self.chars@, self.pos as int) == end,
                    closed ==> self.pos == end,
                decreases self.chars@.len() - self.pos,
            {
                if self.peek_at(0) == Some('"') && self.peek_at(1) == Some('"')
                    && self.peek_at(2) == Some('"') {
                    self.bump();
                    self.bump();
                    self.bump();
                    closed = true;
                } else {
                    self.bump();
                }
            }
            if !closed {
                self.error("unterminated multiline string", start, start_pos);
            }
            proof {
                lemma_string_shape(self.chars@, start as int, self.pos as int, prefix as int);
            }
            self.push_token(TokenKind::String, start, start_pos);
            return;
        }
        self.bump();
        let mut closed = false;
        assert(end == line_string_end(self.chars@, q + 1, raw));
        while self.pos < self.chars.len() && !closed && self.chars[self.pos] != '\n'
            invariant
                self.wf(),
                self.pos > start + prefix,
                start == old(self).pos,
                self.chars == old(self).chars,
                self.tokens == old(self).tokens,
                self.diagnostics == old(self).diagnostics,
                !closed ==> line_string_end(self.chars@, self.pos as int, raw) == end,
                closed ==> self.pos == end,
            decreases self.chars@.len() - self.pos,
        {
            let c = self.chars[self.pos];
            self.bump();
            if c == '\\' && !raw {
                if self.pos < self.chars.len() && self.chars[self.pos] != '\n' {
                    self.bump();
                }
            } else if c == '"' {
                closed = true;
            }
        }
        if !closed {
            self.error("unterminated string", start, start_pos);
        }
        proof {
            lemma_string_shape(self.chars@, start as int, self.pos as int, prefix as int);
        }
        self.push_token(TokenKind::String, start, start_pos);
    }

    /// Punctuation and operators, longest match first; anything else is reported.
    fn lex_punct(&mut self)
        requires
            old(self).wf(),
            old(self).pos < old(self).chars@.len(),
            ({
                let c = old(self).chars@[old(self).pos as int];
                !is_blank(c) && c != '#' && c != '\n' && !is_ident_start(c) && !is_ascii_digit(c) && c != '"'
            }),
            forall|i: int|
                0 <= i < old(self).tokens@.len() ==> #[trigger] old(self).tokens@[i].span.end <= old(self).pos,
        ensures
            final(self).wf(),
            final(self).pos > old(self).pos,
            final(self).chars == old(self).chars,
            final(self).diagnostics@.len() >= old(self).diagnostics@.len(),
            final(self).diagnostics@.len() == old(self).diagnostics@.len() ==> final(self).tokens@.len()
                == old(self).tokens@.len() + 1 && final(self).tokens@.drop_last() == old(self).tokens@
                && final(self).tokens@.last().span.start == old(self).pos
                && final(self).tokens@.last().span.end == final(self).pos,
    {
        let start = self.pos;
        let start_pos = self.position();
        let c = self.chars[self.pos];
        let next = self.peek_at(1);
        let next2 = self.peek_at(2);
        let (kind, width) = punct_kind(c, next, next2);
        self.bump();
        if width >= 2 {
            self.bump();
        }
        if width >= 3 {
            self.bump();
        }
        proof {
            if let Some(k) = kind {
                let lexeme = self.chars@.subrange(start as int, self.pos as int);
                assert(lexeme =~= punct_spelling(k));
                if width == 1 {
                    assert(char_at(self.chars@, self.pos as int) == next);
                    assert(char_at(self.chars@, self.pos + 1) == next2);
                } else {
                    assert(!punct_extends(k, char_at(self.chars@, self.pos as int), char_at(self.chars@, self.pos + 1)));
                }
            }
        }
        match kind {
            Some(kind) => self.push_token(kind, start, start_pos),
            None => self.error("unexpected character", start, start_pos),
        }
    }

    fn run(&mut self)
        requires
            old(self).wf(),
            old(self).pos == 0,
            old(self).tokens@.len() == 0,
            old(self).diagnostics@.len() == 0,
        ensures
            final(self).chars == old(self).chars,
            well_lexed(final(self).tokens@, final(self).chars@),
            diagnostics_within(final(self).diagnostics@, final(self).chars@, final(self).chars@.len() as int),
            final(self).diagnostics@.len() == 0 ==> gaps_skippable(final(self).tokens@, final(self).chars@),
    {
        let ghost mut comment: int = 0;
        while self.pos < self.chars.len()
            invariant
                self.wf(),
                self.chars == old(self).chars,
                self.diagnostics@.len() == 0 ==> gaps_skippable(self.tokens@, self.chars@)
                    && blanks_then_comment(self.chars@, gap_start(self.tokens@, self.tokens@.len() as int),
                    comment, self.pos as int),
            decreases self.chars@.len() - self.pos,
        {
            proof {
                let ts = self.tokens@;
                assert forall|i: int| 0 <= i < ts.len() implies #[trigger] ts[i].span.end <= self.pos by {}
            }
            let ghost before = *self;
            let ghost from = gap_start(self.tokens@, self.tokens@.len() as int);
            let c = self.chars[self.pos];
            if c == ' ' || c == '\t' || c == '\r' {
                self.bump();
                proof {
                    if comment == before.pos {
                        comment = self.pos as int;
                    }
                }
            } else if c == '#' {
                self.skip_comment();
                proof {
                    if comment == before.pos {
                        comment = before.pos as int;
                    }
                }
            } else {
                if c == '\n' {
                    let start = self.pos;
                    let start_pos = self.position();
                    self.bump();
                    assert(self.chars@.subrange(start as int, self.pos as int) =~= seq!['\n']);
                    self.push_token(TokenKind::Newline, start, start_pos);
                } else if c == 'r' && self.peek_at(1) == Some('a') && self.peek_at(2) == Some('w')
                    && self.peek_at(3) == Some('"') {
                    self.lex_string(3, true);
                } else if char_is_alpha(c) || c == '_' {
                    self.lex_identifier();
                } else if char_is_digit(c) {
                    self.lex_number();
                } else if c == '"' {
                    self.lex_string(0, false);
                } else {
                    self.lex_punct();
                }
                proof {
                    if self.diagnostics@.len() == 0 {
                        lemma_gap_closed(before.tokens@, self.tokens@, self.chars@, from, comment, before.pos as int);
                    }
                    comment = self.pos as int;
                }
            }
        }
        let end = self.pos;
        let span = Span { start: end, end, start_pos: self.position(), end_pos: self.position() };
        let ghost body = self.tokens@;
        let ghost from = gap_start(self.tokens@, self.tokens@.len() as int);
        self.tokens.push(Token { kind: TokenKind::Eof, lexeme: String::new(), span });
        proof {
            assert(self.tokens@.drop_last() =~= body);
            assert(self.chars@.subrange(end as int, end as int) =~= Seq::<char>::empty());
            if self.diagnostics@.len() == 0 {
                lemma_gap_closed(body, self.tokens@, self.chars@, from, comment, end as int);
            }
        }
    }
}

/// The punctuation token that starts with `c`, given the two characters after
/// it, and how many characters it takes; `None` when no token starts with `c`.
fn punct_kind(c: char, next: Option<char>, next2: Option<char>) -> (r: (Option<TokenKind>, usize))
    ensures
        1 <= r.1 <= 3,
        r.0 is None <==> !is_punct_start(c),
        r.0 is None ==> r.1 == 1,
        r.0 matches Some(k) ==> punct_spelling(k).len() == r.1 && punct_spelling(k)[0] == c
            && (r.1 >= 2 ==> next == Some(punct_spelling(k)[1]))
            && (r.1 >= 3 ==> next2 == Some(punct_spelling(k)[2])),
        r.0 matches Some(k) ==> (r.1 == 1 ==> !punct_extends(k, next, next2))
            && (r.1 >= 2 ==> forall|a: Option<char>, b: Option<char>| !#[trigger] punct_extends(k, a, b)),
{
    match c {
        '(' => (Some(TokenKind::LParen), 1),
        ')' => (Some(TokenKind::RParen), 1),
        '{' => (Some(TokenKind::LBrace), 1),
        '}' => (Some(TokenKind::RBrace), 1),
        '[' => (Some(TokenKind::LBracket), 1),
        ']' => (Some(TokenKind::RBracket), 1),
        ',' => (Some(TokenKind::Comma), 1),
        '@' => (Some(TokenKind::At), 1),
        '?' => {
            if next == Some('?') {
                (Some(TokenKind::QuestionQuestion), 2)
            } else {
                (Some(TokenKind::Question), 1)
            }
        },
        '%' => {
            if next == Some('=') {
                (Some(TokenKind::PercentEq), 2)
            } else {
                (Some(TokenKind::Percent), 1)
            }
        },
        '.' => {
            if next == Some('.') && next2 == Some('.') {
                (Some(TokenKind::Ellipsis), 3)
            } else if next == Some('-') && next2 == Some('>') {
                (Some(TokenKind::DotArrow), 3)
            } else {
                (Some(TokenKind::Dot), 1)
            }
        },
        ':' => {
            if next == Some('=') {
                (Some(TokenKind::ColonAssign), 2)
            } else if next == Some('+') {
                (Some(TokenKind::ColonPlus), 2)
            } else if next == Some('-') {
                (Some(TokenKind::ColonMinus), 2)
            } else if next == Some('<') {
                (Some(TokenKind::ColonLess), 2)
            } else {
                (Some(TokenKind::Colon), 1)
            }
        },
        '=' => {
            if next == Some('=') {
                (Some(TokenKind::EqEq), 2)
            } else if next == Some('>') {
                (Some(TokenKind::FatArrow), 2)
            } else {
                (Some(TokenKind::Eq), 1)
            }
        },
        '!' => {
            if next == Some('=') {
                (Some(TokenKind::NotEq), 2)
            } else {
                (Some(TokenKind::Bang), 1)
            }
        },
        '<' => {
            if next == Some('-') {
                (Some(TokenKind::LeftArrow), 2)
            } else if next == Some('=') {
                (Some(TokenKind::LessEq), 2)
            } else {
                (Some(TokenKind::Less), 1)
            }
        },
        '>' => {
            if next == Some('=') {
                (Some(TokenKind::GreaterEq), 2)
            } else {
                (Some(TokenKind::Greater), 1)
            }
        },
        '-' => {
            if next == Some('>') {
                (Some(TokenKind::Arrow), 2)
            } else if next == Some('-') {
                (Some(TokenKind::MinusMinus), 2)
            } else if next == Some('=') {
                (Some(TokenKind::MinusEq), 2)
            } else {
                (Some(TokenKind::Minus), 1)
            }
        },
        '+' => {
            if next == Some('+') {
                (Some(TokenKind::PlusPlus), 2)
            } else if next == Some('=') {
                (Some(TokenKind::PlusEq), 2)
            } else {
                (Some(TokenKind::Plus), 1)
            }
        },
        '*' => {
            if next == Some('=') {
                (Some(TokenKind::StarEq), 2)
            } else {
                (Some(TokenKind::Star), 1)
            }
        },
        '/' => {
            if next == Some('=') {
                (Some(TokenKind::SlashEq), 2)
            } else {
                (Some(TokenKind::Slash), 1)
            }
        },
        '&' => {
            if next == Some('&') {
                (Some(TokenKind::AndAnd), 2)
            } else {
                (Some(TokenKind::Ampersand), 1)
            }
        },
        '|' => {
            if next == Some('|') {
                (Some(TokenKind::OrOr), 2)
            } else {
                (Some(TokenKind::Pipe), 1)
            }
        },
        _ => (None, 1),
    }
}

/// `text[at..]` starts with `raw`.
pub open spec fn raw_prefix_at(text: Seq<char>, at: int) -> bool {
    &&& 0 <= at && at + 2 < text.len()
    &&& text[at] == 'r' && text[at + 1] == 'a' && text[at + 2] == 'w'
}

/// A string literal's text opens with `"` or `raw"`.
proof fn lemma_string_shape(text: Seq<char>, start: int, end: int, prefix: int)
    requires
        0 <= start,
        start + prefix < end <= text.len(),
        text[start + prefix] == '"',
        prefix == 0 || (prefix == 3 && raw_prefix_at(text, start)),
    ensures
        token_shape(TokenKind::String, text.subrange(start, end)),
{
    let lexeme = text.subrange(start, end);
    if prefix == 0 {
        assert(lexeme[0] == text[start]);
    } else {
        assert(lexeme.take(4) =~= seq!['r', 'a', 'w', '"']);
    }
}

/// Closing the current gap with a new token keeps every gap skippable.
proof fn lemma_gap_closed(before: Seq<Token>, after: Seq<Token>, text: Seq<char>, from: int, comment: int, start: int)
    requires
        gaps_skippable(before, text),
        from == gap_start(before, before.len() as int),
        blanks_then_comment(text, from, comment, start),
        after.len() == before.len() + 1,
        after.drop_last() == before,
        after.last().span.start == start,
    ensures
        gaps_skippable(after, text),
{
    assert forall|i: int| 0 <= i < after.len() implies skippable(text, gap_start(after, i), #[trigger] after[i].span.start as int) by {
        if i < before.len() {
            assert(after[i] == before[i]);
            if i > 0 {
                assert(after[i - 1] == before[i - 1]);
            }
            assert(skippable(text, gap_start(before, i), before[i].span.start as int));
        } else {
            if i > 0 {
                assert(after[i - 1] == before[i - 1]);
            }
            assert(after[i] == after.last());
            assert(blanks_then_comment(text, gap_start(after, i), comment, after[i].span.start as int));
        }
    }
}

/// Splits the text of `file` into tokens, ending with an end-of-file token.
/// Unknown characters and unterminated strings are reported as diagnostics.
pub fn lex(file: &SourceFile) -> (r: LexResult)
    requires
        file.text@.len() < usize::MAX - 2,
    ensures
        well_lexed(r.tokens@, file.text@),
        r.diagnostics@.len() == 0 ==> gaps_skippable(r.tokens@, file.text@),
        diagnostics_within(r.diagnostics@, file.text@, file.text@.len() as int),
{
    lex_str(file.text.as_str())
}

/// Splits `text` into tokens, ending with an end-of-file token.
pub fn lex_str(text: &str) -> (r: LexResult)
    requires
        text@.len() < usize::MAX - 2,
    ensures
        well_lexed(r.tokens@, text@),
        r.diagnostics@.len() == 0 ==> gaps_skippable(r.tokens@, text@),
        diagnostics_within(r.diagnostics@, text@, text@.len() as int),
{
    let chars = chars_of(text);
    let mut lexer = Lexer {
        chars,
        pos: 0,
        line: 1,
        column: 1,
        tokens: Vec::new(),
        diagnostics: Vec::new(),
    };
    lexer.run();
    LexResult { tokens: lexer.tokens, diagnostics: lexer.diagnostics }
}

} // verus!
