//! Cursor movement, lookahead and error reporting shared by the parser.
use vstd::prelude::*;
use super::{Checkpoint, Parser};
use crate::diagnostic::Diagnostic;
use crate::lexer::{Keyword, Token, TokenKind};
use crate::source::Span;
use crate::text::{concat_str, concat_strings, decimal, string_is, usize_to_string};

verus! {

/// A token at which an `if` condition can end: a closing bracket, `{`, `&&`
/// or a newline.
pub open spec fn ends_if_condition(kind: TokenKind) -> bool {
    kind == TokenKind::RParen || kind == TokenKind::LBrace || kind == TokenKind::RBrace
        || kind == TokenKind::RBracket || kind == TokenKind::AndAnd || kind == TokenKind::Newline
}

/// Where recovery after a failed item stops, scanning from `i`: just past
/// the next newline, or on the end of input or a declaration keyword.
pub open spec fn item_sync_point(tokens: Seq<Token>, i: int) -> int
    decreases tokens.len() - i,
{
    if i < 0 || i >= tokens.len() {
        i
    } else {
        let k = tokens[i].kind;
        if k == TokenKind::Eof {
            i
        } else if k == TokenKind::Newline {
            i + 1
        } else if k == TokenKind::Keyword(Keyword::Annotation) || k == TokenKind::Keyword(Keyword::Def) || k == TokenKind::Keyword(Keyword::Class) || k == TokenKind::Keyword(Keyword::Shape) || k == TokenKind::Keyword(Keyword::Object) || k == TokenKind::Keyword(Keyword::Interface) || k == TokenKind::Keyword(Keyword::Enum) || k == TokenKind::Keyword(Keyword::Ext) {
            i
        } else {
            item_sync_point(tokens, i + 1)
        }
    }
}

/// The label that names a token kind in messages.
pub open spec fn kind_label(kind: TokenKind) -> Seq<char> {
    match kind {
        TokenKind::Identifier => "IDENT"@,
        TokenKind::Integer => "INT"@,
        TokenKind::Float => "FLOAT"@,
        TokenKind::String => "STRING"@,
        TokenKind::Keyword(Keyword::Case) => "CASE"@,
        TokenKind::Keyword(Keyword::If) => "IF"@,
        TokenKind::Keyword(Keyword::Else) => "ELSE"@,
        TokenKind::Keyword(Keyword::Match) => "MATCH"@,
        TokenKind::Keyword(Keyword::Partial) => "PARTIAL"@,
        TokenKind::Keyword(Keyword::Reified) => "REIFIED"@,
        TokenKind::Keyword(Keyword::Fn) => "FN"@,
        TokenKind::Keyword(Keyword::For) => "FOR"@,
        TokenKind::Keyword(Keyword::Yield) => "YIELD"@,
        TokenKind::Keyword(Keyword::Continue) => "CONTINUE"@,
        TokenKind::Keyword(Keyword::Annotation) => "ANNOTATION"@,
        TokenKind::Keyword(Keyword::Def) => "DEF"@,
        TokenKind::Keyword(Keyword::Class) => "CLASS"@,
        TokenKind::Keyword(Keyword::Shape) => "SHAPE"@,
        TokenKind::Keyword(Keyword::Object) => "OBJECT"@,
        TokenKind::Keyword(Keyword::Interface) => "INTERFACE"@,
        TokenKind::Keyword(Keyword::Enum) => "ENUM"@,
        TokenKind::Keyword(Keyword::Ext) => "EXT"@,
        TokenKind::Keyword(Keyword::Hidden) => "PRIVATE"@,
        TokenKind::Keyword(Keyword::Var) => "VAR"@,
        TokenKind::LBrace => "{"@,
        TokenKind::RBrace => "}"@,
        TokenKind::LParen => "("@,
        TokenKind::RParen => ")"@,
        TokenKind::LBracket => "["@,
        TokenKind::RBracket => "]"@,
        TokenKind::Eq => "="@,
        TokenKind::FatArrow => "=>"@,
        TokenKind::LeftArrow => "<-"@,
        TokenKind::Question => "?"@,
        TokenKind::QuestionQuestion => "??"@,
        TokenKind::PercentEq => "%="@,
        TokenKind::Newline => "NEWLINE"@,
        TokenKind::Eof => "EOF"@,
        _ => "TOKEN"@,
    }
}

/// How a token reads in messages: `LABEL("lexeme" @ line:column)`.
pub open spec fn token_like(token: Token) -> Seq<char> {
    kind_label(token.kind) + "(\""@ + token.lexeme@ + "\" @ "@ + decimal(token.span.start_pos.line as nat)
        + ":"@ + decimal(token.span.start_pos.column as nat) + ")"@
}


impl<'a> Parser<'a> {
    pub(crate) fn synchronize_item(&mut self)
        requires
            old(self).wf(),
        ensures
            final(self).follows(*old(self)),
            final(self).index == item_sync_point(old(self).tokens@, old(self).index as int),
            final(self).diagnostics == old(self).diagnostics,
    {
        while !self.at(TokenKind::Eof)
            invariant
                self.follows(*old(self)),
                item_sync_point(self.tokens@, self.index as int) == item_sync_point(old(self).tokens@, old(self).index as int),
                self.diagnostics == old(self).diagnostics,
            decreases self.remaining(),
        {
            if self.at(TokenKind::Newline) {
                self.advance();
                return;
            }
            match self.current_kind() {
                TokenKind::Keyword(Keyword::Annotation)
                | TokenKind::Keyword(Keyword::Def)
                | TokenKind::Keyword(Keyword::Class)
                | TokenKind::Keyword(Keyword::Shape)
                | TokenKind::Keyword(Keyword::Object)
                | TokenKind::Keyword(Keyword::Interface)
                | TokenKind::Keyword(Keyword::Enum)
                | TokenKind::Keyword(Keyword::Ext) => return,
                _ => self.advance(),
            }
        }
    }

    pub(crate) fn synchronize_member(&mut self)
        requires
            old(self).wf(),
        ensures
            final(self).follows(*old(self)),
            old(self).cur_kind() != TokenKind::Eof && old(self).cur_kind() != TokenKind::RBrace
                ==> final(self).index > old(self).index,
    {
        while !self.at(TokenKind::Eof) && !self.at(TokenKind::RBrace)
            invariant
                self.follows(*old(self)),
                old(self).cur_kind() != TokenKind::Eof && old(self).cur_kind() != TokenKind::RBrace
                    && self.index == old(self).index ==> self.cur_kind() == old(self).cur_kind(),
            decreases self.remaining(),
        {
            if self.at(TokenKind::Newline) {
                self.advance();
                return;
            }
            self.advance();
        }
    }

    pub(crate) fn synchronize_stmt(&mut self)
        requires
            old(self).wf(),
        ensures
            final(self).follows(*old(self)),
            old(self).cur_kind() != TokenKind::Eof && old(self).cur_kind() != TokenKind::RBrace
                ==> final(self).index > old(self).index,
    {
        while !self.at(TokenKind::Eof) && !self.at(TokenKind::RBrace)
            invariant
                self.follows(*old(self)),
                old(self).cur_kind() != TokenKind::Eof && old(self).cur_kind() != TokenKind::RBrace
                    && self.index == old(self).index ==> self.cur_kind() == old(self).cur_kind(),
            decreases self.remaining(),
        {
            if self.at(TokenKind::Newline) {
                self.advance();
                return;
            }
            self.advance();
        }
    }

    pub(crate) fn checkpoint(&self) -> (c: Checkpoint)
        ensures
            c.index == self.index,
            c.diagnostics_len == self.diagnostics@.len(),
    {
        Checkpoint {
            index: self.index,
            diagnostics_len: self.diagnostics.len(),
            allow_trailing_block_call: self.allow_trailing_block_call,
            allow_shape_update_operator: self.allow_shape_update_operator,
        }
    }

    /// Rewinds to a checkpoint, dropping the diagnostics reported since.
    pub(crate) fn restore(&mut self, checkpoint: Checkpoint)
        requires
            old(self).wf(),
            checkpoint.index < old(self).tokens@.len(),
        ensures
            final(self).wf(),
            final(self).tokens == old(self).tokens,
            final(self).bound == old(self).bound,
            final(self).silent_failures == old(self).silent_failures,
            final(self).index == checkpoint.index,
            checkpoint.diagnostics_len <= old(self).diagnostics@.len() ==> final(self).diagnostics@
                == old(self).diagnostics@.subrange(0, checkpoint.diagnostics_len as int),
            checkpoint.diagnostics_len > old(self).diagnostics@.len() ==> final(self).diagnostics@
                == old(self).diagnostics@,
            forall|i: int| 0 <= i < checkpoint.diagnostics_len && i < old(self).diagnostics@.len()
                ==> #[trigger] final(self).diagnostics@[i] == old(self).diagnostics@[i],
    {
        self.index = checkpoint.index;
        self.diagnostics.truncate(checkpoint.diagnostics_len);
        self.allow_trailing_block_call = checkpoint.allow_trailing_block_call;
        self.allow_shape_update_operator = checkpoint.allow_shape_update_operator;
    }

    pub(crate) fn skip_newlines(&mut self)
        requires
            old(self).wf(),
        ensures
            final(self).follows(*old(self)),
            final(self).cur_kind() != TokenKind::Newline,
            forall|j: int| old(self).index <= j < final(self).index ==> old(self).kind_at(j) == TokenKind::Newline,
            final(self).diagnostics == old(self).diagnostics,
            final(self).silent_failures == old(self).silent_failures,
            final(self).index == crate::parser::newline_run(old(self).tokens@, old(self).index as int),
    {
        while self.match_token(TokenKind::Newline)
            invariant
                self.follows(*old(self)),
                forall|j: int| old(self).index <= j < self.index ==> old(self).kind_at(j) == TokenKind::Newline,
                self.diagnostics == old(self).diagnostics,
                self.silent_failures == old(self).silent_failures,
            decreases self.remaining(),
        {
        }
        proof {
            assert forall|j: int| old(self).index <= j < self.index implies self.tokens@[j].kind == TokenKind::Newline by {
                assert(old(self).kind_at(j) == TokenKind::Newline);
            }
            crate::parser::lemma_newline_run(self.tokens@, old(self).index as int, self.index as int);
        }
    }

    /// Consumes a token of `kind`, or reports `message` and gives up.
    pub(crate) fn consume(&mut self, kind: TokenKind, message: &str) -> (r: Option<Span>)
        requires
            old(self).wf(),
            kind != TokenKind::Eof,
        ensures
            r is None ==> final(self).diagnostics@.len() > old(self).diagnostics@.len()
                || final(self).silent_failures@ > old(self).silent_failures@,
            final(self).follows(*old(self)),
            r is Some <==> old(self).cur_kind() == kind,
            r is Some ==> final(self).index == old(self).index + 1,
            r is Some ==> r == Some(old(self).tokens@[old(self).index as int].span),
            r is None ==> final(self).index == old(self).index,
            r is Some ==> final(self).diagnostics == old(self).diagnostics,
    {
        if self.match_token(kind) {
            Some(self.previous_span())
        } else {
            self.error_at_current("unexpected_token", message);
            None
        }
    }

    /// Consumes the keyword `keyword`, or reports `message` and gives up.
    pub(crate) fn consume_keyword(&mut self, keyword: Keyword, message: &str) -> (r: Option<Span>)
        requires
            old(self).wf(),
        ensures
            r is None ==> final(self).diagnostics@.len() > old(self).diagnostics@.len()
                || final(self).silent_failures@ > old(self).silent_failures@,
            final(self).follows(*old(self)),
            r is Some <==> old(self).cur_kind() == TokenKind::Keyword(keyword),
            r is Some ==> final(self).index == old(self).index + 1,
            r is Some ==> r == Some(old(self).tokens@[old(self).index as int].span),
            r is None ==> final(self).index == old(self).index,
            r is Some ==> final(self).diagnostics == old(self).diagnostics,
    {
        if self.match_keyword(keyword) {
            Some(self.previous_span())
        } else {
            self.error_at_current("unexpected_token", message);
            None
        }
    }

    /// Takes an identifier's text and span, or reports `message`.
    pub(crate) fn expect_identifier(&mut self, message: &str) -> (r: Option<(String, Span)>)
        requires
            old(self).wf(),
        ensures
            r is None ==> final(self).diagnostics@.len() > old(self).diagnostics@.len()
                || final(self).silent_failures@ > old(self).silent_failures@,
            final(self).follows(*old(self)),
            r is Some <==> old(self).cur_kind() == TokenKind::Identifier,
            r is Some ==> final(self).index == old(self).index + 1,
            r matches Some((name, span)) ==> name@ == old(self).tokens@[old(self).index as int].lexeme@
                && span == old(self).tokens@[old(self).index as int].span,
            r is None ==> final(self).index == old(self).index,
            r is Some ==> final(self).diagnostics == old(self).diagnostics,
    {
        if self.at(TokenKind::Identifier) {
            let token = self.current_token();
            self.advance();
            Some((token.lexeme, token.span))
        } else {
            self.error_at_current("expected_identifier", message);
            None
        }
    }

    pub(crate) fn expect_binding_name(&mut self, message: &str) -> (r: Option<(String, Span)>)
        requires
            old(self).wf(),
        ensures
            r is None ==> final(self).diagnostics@.len() > old(self).diagnostics@.len()
                || final(self).silent_failures@ > old(self).silent_failures@,
            final(self).follows(*old(self)),
            r is Some <==> old(self).cur_kind() == TokenKind::Identifier,
            r is Some ==> final(self).index == old(self).index + 1,
            r matches Some((name, span)) ==> name@ == old(self).tokens@[old(self).index as int].lexeme@,
            r is Some ==> final(self).diagnostics == old(self).diagnostics,
    {
        self.expect_identifier(message)
    }

    /// A function or method name: an identifier, `[]`, or an operator symbol.
    pub(crate) fn parse_callable_name(&mut self, message: &str) -> (r: Option<(String, Span)>)
        requires
            old(self).wf(),
        ensures
            r is None ==> final(self).diagnostics@.len() > old(self).diagnostics@.len()
                || final(self).silent_failures@ > old(self).silent_failures@,
            final(self).follows(*old(self)),
            r is Some ==> final(self).index > old(self).index,
            old(self).cur_kind() == TokenKind::Identifier ==> (r matches Some((name, span))
                && name@ == old(self).tokens@[old(self).index as int].lexeme@
                && span == old(self).tokens@[old(self).index as int].span && final(self).index == old(self).index + 1),
            old(self).cur_kind() == TokenKind::Identifier ==> final(self).diagnostics == old(self).diagnostics,
    {
        if self.at(TokenKind::Identifier) {
            return self.expect_identifier(message);
        }
        if self.at_keyword(Keyword::Annotation) || self.at_keyword(Keyword::Case) {
            let token = self.current_token();
            self.advance();
            return Some((token.lexeme, token.span));
        }
        if self.match_token(TokenKind::LBracket) {
            let start = self.previous_span();
            let end = self.consume(TokenKind::RBracket, "expected ']' in operator name")?;
            return Some((String::from_str("[]"), start.cover(end)));
        }
        let token = self.current_token();
        let name = match token.kind {
            TokenKind::Plus => "+",
            TokenKind::Minus => "-",
            TokenKind::Star => "*",
            TokenKind::Slash => "/",
            TokenKind::Percent => "%",
            _ => {
                self.error_at_current("expected_identifier", message);
                return None;
            },
        };
        self.advance();
        Some((String::from_str(name), token.span))
    }

    pub(crate) fn match_keyword(&mut self, keyword: Keyword) -> (b: bool)
        requires
            old(self).wf(),
        ensures
            final(self).follows(*old(self)),
            final(self).diagnostics == old(self).diagnostics,
            final(self).silent_failures == old(self).silent_failures,
            b <==> old(self).cur_kind() == TokenKind::Keyword(keyword),
            b ==> final(self).index == old(self).index + 1,
            !b ==> final(self).index == old(self).index,
    {
        if self.at_keyword(keyword) {
            self.advance();
            true
        } else {
            false
        }
    }

    pub(crate) fn at_keyword(&self, keyword: Keyword) -> (b: bool)
        requires
            self.wf(),
        ensures
            b <==> self.cur_kind() == TokenKind::Keyword(keyword),
    {
        match self.current_kind() {
            TokenKind::Keyword(k) => k == keyword,
            _ => false,
        }
    }

    pub(crate) fn match_token(&mut self, kind: TokenKind) -> (b: bool)
        requires
            old(self).wf(),
        ensures
            final(self).follows(*old(self)),
            final(self).diagnostics == old(self).diagnostics,
            final(self).silent_failures == old(self).silent_failures,
            b <==> old(self).cur_kind() == kind,
            b && kind != TokenKind::Eof ==> final(self).index == old(self).index + 1,
            !b || kind == TokenKind::Eof ==> final(self).index == old(self).index,
    {
        if self.at(kind) {
            self.advance();
            true
        } else {
            false
        }
    }

    pub(crate) fn at(&self, kind: TokenKind) -> (b: bool)
        requires
            self.wf(),
        ensures
            b <==> self.cur_kind() == kind,
    {
        self.current_kind() == kind
    }

    pub(crate) fn at_next(&self, kind: TokenKind) -> (b: bool)
        requires
            self.wf(),
        ensures
            b <==> (self.index + 1 < self.tokens@.len() && self.kind_at(self.index + 1) == kind),
    {
        if self.index + 1 < self.tokens.len() {
            self.tokens[self.index + 1].kind == kind
        } else {
            false
        }
    }

    pub(crate) fn binding_type_starts_on_same_line(&self, name_span: Span) -> (b: bool)
        requires
            self.wf(),
        ensures
            b == (self.tokens@[self.index as int].span.start_pos.line == name_span.end_pos.line),
    {
        self.current_span().start_pos.line == name_span.end_pos.line
    }

    pub(crate) fn is_placeholder_identifier(&self) -> (b: bool)
        requires
            self.wf(),
        ensures
            b == (self.cur_kind() == TokenKind::Identifier
                && self.tokens@[self.index as int].lexeme@ == "_"@),
    {
        self.at(TokenKind::Identifier) && string_is(&self.current().lexeme, "_")
    }

    pub(crate) fn current(&self) -> (t: &Token)
        requires
            self.wf(),
        ensures
            *t == self.tokens@[self.index as int],
    {
        let last = self.tokens.len() - 1;
        let i = if self.index < last { self.index } else { last };
        &self.tokens[i]
    }

    /// A copy of the current token.
    pub(crate) fn current_token(&self) -> (t: Token)
        requires
            self.wf(),
        ensures
            t.kind == self.cur_kind(),
            t.lexeme@ == self.tokens@[self.index as int].lexeme@,
            t.span == self.tokens@[self.index as int].span,
    {
        let token = self.current();
        Token { kind: token.kind, lexeme: token.lexeme.clone(), span: token.span }
    }

    pub(crate) fn current_kind(&self) -> (k: TokenKind)
        requires
            self.wf(),
        ensures
            k == self.cur_kind(),
    {
        self.current().kind
    }

    pub(crate) fn current_span(&self) -> (s: Span)
        requires
            self.wf(),
        ensures
            s == self.tokens@[self.index as int].span,
    {
        self.current().span
    }

    /// The span of the token before the cursor (the current one at the start).
    pub(crate) fn previous_span(&self) -> (s: Span)
        requires
            self.wf(),
        ensures
            self.index > 0 ==> s == self.tokens@[self.index - 1].span,
            self.index == 0 ==> s == self.tokens@[0].span,
    {
        if self.index > 0 {
            self.tokens[self.index - 1].span
        } else {
            self.current_span()
        }
    }

    /// The span of the last token before the cursor that is not a newline.
    pub(crate) fn last_non_newline_span(&self, fallback: Span) -> (s: Span)
        requires
            self.wf(),
        ensures
            (forall|i: int| 0 <= i < self.index ==> self.kind_at(i) == TokenKind::Newline)
                ==> s == fallback,
            s == (if crate::parser::last_non_newline(self.tokens@, self.index as int) >= 0 {
                self.tokens@[crate::parser::last_non_newline(self.tokens@, self.index as int)].span
            } else {
                fallback
            }),
    {
        let mut i = self.index;
        while i > 0
            invariant
                self.wf(),
                i <= self.index,
                forall|j: int| i <= j < self.index ==> self.kind_at(j) == TokenKind::Newline,
                crate::parser::last_non_newline(self.tokens@, i as int) == crate::parser::last_non_newline(self.tokens@, self.index as int),
            decreases i,
        {
            let token = &self.tokens[i - 1];
            if token.kind != TokenKind::Newline {
                assert(self.kind_at(i - 1) != TokenKind::Newline);
                return token.span;
            }
            i = i - 1;
        }
        fallback
    }

    /// The first token from the cursor on that is not a newline.
    pub(crate) fn next_significant_token(&self) -> (t: &Token)
        requires
            self.wf(),
        ensures
            (exists|j: int| self.index <= j < self.tokens@.len() && *t == self.tokens@[j]
                && t.kind != TokenKind::Newline
                && forall|k: int| self.index <= k < j ==> #[trigger] self.kind_at(k) == TokenKind::Newline)
            || ((forall|k: int| self.index <= k < self.tokens@.len() ==> #[trigger] self.kind_at(k) == TokenKind::Newline)
                && *t == self.tokens@[self.index as int]),
            *t == self.tokens@[crate::parser::newline_run(self.tokens@, self.index as int)],
    {
        let mut index = self.index;
        while index < self.tokens.len()
            invariant
                self.wf(),
                self.index <= index,
                forall|k: int| self.index <= k < index ==> #[trigger] self.kind_at(k) == TokenKind::Newline,
            decreases self.tokens@.len() - index,
        {
            let token = &self.tokens[index];
            if token.kind != TokenKind::Newline {
                proof {
                    assert forall|j: int| self.index <= j < index implies self.tokens@[j].kind == TokenKind::Newline by {
                        assert(self.kind_at(j) == TokenKind::Newline);
                    }
                    crate::parser::lemma_newline_run(self.tokens@, self.index as int, index as int);
                }
                return token;
            }
            index = index + 1;
        }
        proof {
            assert(self.kind_at(self.tokens@.len() - 1) == TokenKind::Newline);
        }
        self.current()
    }

    pub(crate) fn next_significant_token_string(&self) -> (s: String)
        requires
            self.wf(),
        ensures
            s@ == token_like(self.tokens@[crate::parser::newline_run(self.tokens@, self.index as int)]),
    {
        self.format_token_like(self.next_significant_token())
    }

    /// `LABEL("lexeme" @ line:column)`.
    pub(crate) fn format_token_like(&self, token: &Token) -> (s: String)
        ensures
            s@ == token_like(*token),
    {
        let mut s = String::from_str(self.token_kind_label(token.kind));
        s = concat_str(s, "(\"");
        s = concat_strings(s, &token.lexeme);
        s = concat_str(s, "\" @ ");
        s = concat_strings(s, &usize_to_string(token.span.start_pos.line));
        s = concat_str(s, ":");
        s = concat_strings(s, &usize_to_string(token.span.start_pos.column));
        concat_str(s, ")")
    }

    pub(crate) fn token_kind_label(&self, kind: TokenKind) -> (s: &'static str)
        ensures
            s@ == kind_label(kind),
    {
        match kind {
            TokenKind::Identifier => "IDENT",
            TokenKind::Integer => "INT",
            TokenKind::Float => "FLOAT",
            TokenKind::String => "STRING",
            TokenKind::Keyword(Keyword::Case) => "CASE",
            TokenKind::Keyword(Keyword::If) => "IF",
            TokenKind::Keyword(Keyword::Else) => "ELSE",
            TokenKind::Keyword(Keyword::Match) => "MATCH",
            TokenKind::Keyword(Keyword::Partial) => "PARTIAL",
            TokenKind::Keyword(Keyword::Reified) => "REIFIED",
            TokenKind::Keyword(Keyword::Fn) => "FN",
            TokenKind::Keyword(Keyword::For) => "FOR",
            TokenKind::Keyword(Keyword::Yield) => "YIELD",
            TokenKind::Keyword(Keyword::Continue) => "CONTINUE",
            TokenKind::Keyword(Keyword::Annotation) => "ANNOTATION",
            TokenKind::Keyword(Keyword::Def) => "DEF",
            TokenKind::Keyword(Keyword::Class) => "CLASS",
            TokenKind::Keyword(Keyword::Shape) => "SHAPE",
            TokenKind::Keyword(Keyword::Object) => "OBJECT",
            TokenKind::Keyword(Keyword::Interface) => "INTERFACE",
            TokenKind::Keyword(Keyword::Enum) => "ENUM",
            TokenKind::Keyword(Keyword::Ext) => "EXT",
            TokenKind::Keyword(Keyword::Hidden) => "PRIVATE",
            TokenKind::Keyword(Keyword::Var) => "VAR",
            TokenKind::LBrace => "{",
            TokenKind::RBrace => "}",
            TokenKind::LParen => "(",
            TokenKind::RParen => ")",
            TokenKind::LBracket => "[",
            TokenKind::RBracket => "]",
            TokenKind::Eq => "=",
            TokenKind::FatArrow => "=>",
            TokenKind::LeftArrow => "<-",
            TokenKind::Question => "?",
            TokenKind::QuestionQuestion => "??",
            TokenKind::PercentEq => "%=",
            TokenKind::Newline => "NEWLINE",
            TokenKind::Eof => "EOF",
            _ => "TOKEN",
        }
    }

    /// Moves to the next token; the end-of-file token is never passed.
    pub(crate) fn advance(&mut self)
        requires
            old(self).wf(),
        ensures
            final(self).follows(*old(self)),
            final(self).diagnostics == old(self).diagnostics,
            final(self).silent_failures == old(self).silent_failures,
            old(self).cur_kind() != TokenKind::Eof ==> final(self).index == old(self).index + 1,
            old(self).cur_kind() == TokenKind::Eof ==> final(self).index == old(self).index,
    {
        if !self.at(TokenKind::Eof) {
            self.index = self.index + 1;
        }
    }

    pub(crate) fn error_at_current(&mut self, code: &str, message: &str)
        requires
            old(self).wf(),
        ensures
            final(self).tokens == old(self).tokens,
            final(self).bound == old(self).bound,
            final(self).silent_failures == old(self).silent_failures,
            final(self).index == old(self).index,
            final(self).diagnostics@.len() == old(self).diagnostics@.len() + 1,
            final(self).diagnostics@.drop_last() == old(self).diagnostics@,
            forall|i: int| 0 <= i < old(self).diagnostics@.len() ==> #[trigger] final(self).diagnostics@[i] == old(self).diagnostics@[i],
    {
        self.error_at_current_owned(code, String::from_str(message));
    }

    pub(crate) fn error_at_current_owned(&mut self, code: &str, message: String)
        requires
            old(self).wf(),
        ensures
            final(self).tokens == old(self).tokens,
            final(self).bound == old(self).bound,
            final(self).silent_failures == old(self).silent_failures,
            final(self).index == old(self).index,
            final(self).diagnostics@.len() == old(self).diagnostics@.len() + 1,
            final(self).diagnostics@.drop_last() == old(self).diagnostics@,
            forall|i: int| 0 <= i < old(self).diagnostics@.len() ==> #[trigger] final(self).diagnostics@[i] == old(self).diagnostics@[i],
            final(self).diagnostics@.last().span == old(self).tokens@[old(self).index as int].span,
            final(self).diagnostics@.last().code@ == code@,
    {
        let span = self.current_span();
        self.diagnostics.push(Diagnostic::error(code, message, span));
    }

    /// Reports a `match` (or `partial match`) with no value before its `{`.
    pub(crate) fn error_missing_match_value(&mut self, partial: bool)
        requires
            old(self).wf(),
        ensures
            final(self).tokens == old(self).tokens,
            final(self).bound == old(self).bound,
            final(self).silent_failures == old(self).silent_failures,
            final(self).index == old(self).index,
            final(self).diagnostics@.len() == old(self).diagnostics@.len() + 1,
            final(self).diagnostics@.drop_last() == old(self).diagnostics@,
            forall|i: int| 0 <= i < old(self).diagnostics@.len() ==> #[trigger] final(self).diagnostics@[i] == old(self).diagnostics@[i],
    {
        let message = if partial {
            "partial match requires a value before '{'; use 'partial match value { ... }'"
        } else {
            "match requires a value before '{'; use 'match value { ... }'"
        };
        self.error_at_current("missing_match_value", message);
    }

    /// Where an `if` condition that starts at `start` ends: at the first `&&`,
    /// newline or opening `{` outside brackets, or at a closing bracket with no
    /// partner; the length of the stream if none comes.
    pub(crate) fn scan_if_condition_expr_end(&self, start: usize) -> (end: usize)
        requires
            self.wf(),
            start <= self.tokens@.len(),
        ensures
            start <= end <= self.tokens@.len(),
            end < self.tokens@.len() ==> ends_if_condition(self.kind_at(end as int)),
            end == start <==> (start == self.tokens@.len() || ends_if_condition(self.kind_at(start as int))),
    {
        let mut i = start;
        let mut paren_depth: usize = 0;
        let mut brace_depth: usize = 0;
        let mut bracket_depth: usize = 0;
        while i < self.tokens.len()
            invariant
                self.wf(),
                start <= i <= self.tokens@.len(),
                paren_depth <= i - start,
                brace_depth <= i - start,
                bracket_depth <= i - start,
                i == start ==> paren_depth == 0 && brace_depth == 0 && bracket_depth == 0,
                start < self.tokens@.len() && ends_if_condition(self.kind_at(start as int)) ==> i == start,
            ensures
                start < self.tokens@.len() && ends_if_condition(self.kind_at(start as int)) ==> i == start,
                start <= i <= self.tokens@.len(),
                i < self.tokens@.len() ==> ends_if_condition(self.kind_at(i as int)),
                i == start ==> (start == self.tokens@.len() || ends_if_condition(self.kind_at(start as int))),
            decreases self.tokens@.len() - i,
        {
            let kind = self.tokens[i].kind;
            let flat = paren_depth == 0 && brace_depth == 0 && bracket_depth == 0;
            match kind {
                TokenKind::LParen => paren_depth = paren_depth + 1,
                TokenKind::RParen => {
                    if paren_depth == 0 {
                        break;
                    }
                    paren_depth = paren_depth - 1;
                },
                TokenKind::LBrace => {
                    if flat {
                        break;
                    }
                    brace_depth = brace_depth + 1;
                },
                TokenKind::RBrace => {
                    if brace_depth == 0 {
                        break;
                    }
                    brace_depth = brace_depth - 1;
                },
                TokenKind::LBracket => bracket_depth = bracket_depth + 1,
                TokenKind::RBracket => {
                    if bracket_depth == 0 {
                        break;
                    }
                    bracket_depth = bracket_depth - 1;
                },
                TokenKind::AndAnd | TokenKind::Newline => {
                    if flat {
                        break;
                    }
                },
                _ => {},
            }
            i = i + 1;
        }
        i
    }

    /// Whether the cursor is on a `for` that builds a value with `yield`:
    /// either `for { ... } yield` or `for ... yield` on one line.
    pub(crate) fn is_for_yield_start(&self) -> (b: bool)
        requires
            self.wf(),
        ensures
            b ==> self.cur_kind() == TokenKind::Keyword(Keyword::For),
            self.cur_kind() == TokenKind::Keyword(Keyword::For) && !(self.index + 1 < self.tokens@.len()
                && self.kind_at(self.index + 1) == TokenKind::LBrace)
                ==> b == crate::parser::yield_on_line(self.tokens@, self.index + 1),
    {
        if !self.at_keyword(Keyword::For) {
            return false;
        }
        if self.index + 1 < self.tokens.len() && self.tokens[self.index + 1].kind == TokenKind::LBrace {
            let mut i = self.index + 1;
            let mut brace_depth: usize = 0;
            while i < self.tokens.len()
                invariant
                    self.wf(),
                    self.index + 1 <= i <= self.tokens@.len(),
                    brace_depth <= i - self.index - 1,
                    self.cur_kind() == TokenKind::Keyword(Keyword::For),
                    self.index + 1 < self.tokens@.len() && self.kind_at(self.index + 1) == TokenKind::LBrace,
                decreases self.tokens@.len() - i,
            {
                let kind = self.tokens[i].kind;
                if kind == TokenKind::LBrace {
                    brace_depth = brace_depth + 1;
                } else if kind == TokenKind::RBrace {
                    if brace_depth <= 1 {
                        i = i + 1;
                        break;
                    }
                    brace_depth = brace_depth - 1;
                } else if kind == TokenKind::Eof {
                    return false;
                }
                i = i + 1;
            }
            while i < self.tokens.len() && self.tokens[i].kind == TokenKind::Newline
                invariant
                    self.wf(),
                    self.cur_kind() == TokenKind::Keyword(Keyword::For),
                    i <= self.tokens@.len(),
                decreases self.tokens@.len() - i,
            {
                i = i + 1;
            }
            return i < self.tokens.len() && self.tokens[i].kind == TokenKind::Keyword(Keyword::Yield);
        }
        let mut i = self.index + 1;
        while i < self.tokens.len()
            invariant
                self.wf(),
                i <= self.tokens@.len(),
                self.cur_kind() == TokenKind::Keyword(Keyword::For),
                self.index + 1 <= i,
                crate::parser::yield_on_line(self.tokens@, i as int) == crate::parser::yield_on_line(self.tokens@, self.index + 1),
            decreases self.tokens@.len() - i,
        {
            match self.tokens[i].kind {
                TokenKind::Keyword(Keyword::Yield) => return true,
                TokenKind::LBrace | TokenKind::Newline | TokenKind::Eof => return false,
                _ => i = i + 1,
            }
        }
        false
    }

    pub(crate) fn current_token_string(&self) -> (s: String)
        requires
            self.wf(),
        ensures
            s@ == token_like(self.tokens@[self.index as int]),
    {
        self.format_token_like(self.current())
    }

    /// Whether a callable declaration `name[T](params)` (name, type
    /// parameters and parameter list written without spaces between them)
    /// starts at the cursor.
    pub(crate) fn starts_callable_decl(&self) -> (b: bool)
        requires
            self.wf(),
        ensures
            self.cur_kind() == TokenKind::Identifier && self.kind_at(self.index + 1) != TokenKind::LBracket
                && self.kind_at(self.index + 1) != TokenKind::LParen ==> !b,
            self.cur_kind() == TokenKind::Identifier && self.kind_at(self.index + 1) == TokenKind::LParen
                && self.tokens@[self.index as int].span.end == self.tokens@[self.index + 1].span.start
                && self.kind_at(crate::parser::newline_run(self.tokens@, self.index + 2)) == TokenKind::RParen ==> b,
    {
        self.starts_callable_decl_at(self.index)
    }

    /// Whether a callable head starts at `start`: a name, type parameters
    /// and a parameter list, each touching the one before.
    pub(crate) fn starts_callable_decl_at(&self, start: usize) -> (b: bool)
        requires
            self.wf(),
            start < self.tokens@.len(),
        ensures
            self.kind_at(start as int) == TokenKind::Identifier && self.kind_at(start + 1) != TokenKind::LBracket
                && self.kind_at(start + 1) != TokenKind::LParen ==> !b,
            self.kind_at(start as int) == TokenKind::Identifier && self.kind_at(start + 1) == TokenKind::LParen
                && self.tokens@[start as int].span.end == self.tokens@[start + 1].span.start
                && self.kind_at(crate::parser::newline_run(self.tokens@, start + 2)) == TokenKind::RParen ==> b,
    {
        let mut parser = self.lookahead_at(start);
        let name_span = match parser.parse_callable_name("expected callable name") {
            Some((_, span)) => span,
            None => return false,
        };
        let mut head_end = name_span;
        if parser.at(TokenKind::LBracket) {
            if !spans_touch(head_end, parser.current_span()) {
                return false;
            }
            if parser.parse_type_params().is_none() {
                return false;
            }
            head_end = parser.previous_span();
        }
        if !parser.at(TokenKind::LParen) || !spans_touch(head_end, parser.current_span()) {
            return false;
        }
        if parser.parse_param_list().is_none() {
            return false;
        }
        true
    }

    /// Whether a pattern starting at `start` is followed by `=` or `<-`.
    pub(crate) fn pattern_followed_by_refutable_operator(&self, start: usize) -> (b: bool)
        requires
            self.wf(),
            start < self.tokens@.len(),
        ensures
            b ==> super::pattern::starts_pattern(self.kind_at(crate::parser::newline_run(self.tokens@, start as int))),
    {
        let mut parser = self.lookahead_at(start);
        if parser.parse_pattern().is_none() {
            return false;
        }
        parser.at(TokenKind::Eq) || parser.at(TokenKind::LeftArrow)
    }

    /// Whether a local callable declaration starts at the cursor: a callable
    /// head whose parameter list parses cleanly, then, on the line of its
    /// `)`, `=`, a `{` that does not open a trailing lambda, or a return type
    /// followed by `=` or `{`.
    pub(crate) fn starts_local_callable_decl(&self) -> (b: bool)
        requires
            self.wf(),
        ensures
            self.cur_kind() == TokenKind::Identifier && self.kind_at(self.index + 1) != TokenKind::LBracket
                && self.kind_at(self.index + 1) != TokenKind::LParen ==> !b,
            self.cur_kind() == TokenKind::Identifier && self.kind_at(self.index + 1) == TokenKind::LParen
                && self.tokens@[self.index as int].span.end == self.tokens@[self.index + 1].span.start
                && self.kind_at(crate::parser::newline_run(self.tokens@, self.index + 2)) == TokenKind::RParen && self.kind_at(crate::parser::newline_run(self.tokens@, self.index + 2) + 1) == TokenKind::Eq
                && self.tokens@[crate::parser::newline_run(self.tokens@, self.index + 2) + 1].span.start_pos.line == self.tokens@[crate::parser::newline_run(self.tokens@, self.index + 2)].span.end_pos.line ==> b,
    {
        self.starts_local_callable_decl_at(self.index)
    }

    pub(crate) fn starts_local_callable_decl_at(&self, start: usize) -> (b: bool)
        requires
            self.wf(),
            start < self.tokens@.len(),
        ensures
            self.kind_at(start as int) == TokenKind::Identifier && self.kind_at(start + 1) != TokenKind::LBracket
                && self.kind_at(start + 1) != TokenKind::LParen ==> !b,
            self.kind_at(start as int) == TokenKind::Identifier && self.kind_at(start + 1) == TokenKind::LParen
                && self.tokens@[start as int].span.end == self.tokens@[start + 1].span.start
                && self.kind_at(crate::parser::newline_run(self.tokens@, start + 2)) == TokenKind::RParen && self.kind_at(crate::parser::newline_run(self.tokens@, start + 2) + 1) == TokenKind::Eq
                && self.tokens@[crate::parser::newline_run(self.tokens@, start + 2) + 1].span.start_pos.line == self.tokens@[crate::parser::newline_run(self.tokens@, start + 2)].span.end_pos.line ==> b,
    {
        let mut parser = self.lookahead_at(start);
        let name_span = match parser.parse_callable_name("expected callable name") {
            Some((_, span)) => span,
            None => return false,
        };
        let mut head_end = name_span;
        if parser.at(TokenKind::LBracket) {
            if !spans_touch(head_end, parser.current_span()) {
                return false;
            }
            if parser.parse_type_params().is_none() {
                return false;
            }
            head_end = parser.previous_span();
        }
        if !parser.at(TokenKind::LParen) || !spans_touch(head_end, parser.current_span()) {
            return false;
        }
        if parser.parse_param_list().is_none() || parser.diagnostics.len() > 0 {
            return false;
        }
        let close = parser.previous_span();
        if parser.current_span().start_pos.line != close.end_pos.line {
            return false;
        }
        if parser.at(TokenKind::Eq) {
            return true;
        }
        if parser.at(TokenKind::LBrace) {
            return !parser.looks_like_trailing_lambda_block_start();
        }
        if !parser.can_start_type_ref() || parser.parse_type_ref().is_none() {
            return false;
        }
        parser.skip_newlines();
        parser.at(TokenKind::Eq) || parser.at(TokenKind::LBrace)
    }

    /// Whether the `{` at the cursor opens a trailing lambda: a lambda head
    /// (`params =>`) starting on the same line as the `{`.
    pub(crate) fn looks_like_trailing_lambda_block_start(&self) -> (b: bool)
        requires
            self.wf(),
        ensures
            b ==> self.cur_kind() == TokenKind::LBrace && self.index + 1 < self.tokens@.len()
                && self.tokens@[self.index + 1].span.start_pos.line == self.tokens@[self.index as int].span.start_pos.line,
    {
        if !self.at(TokenKind::LBrace) {
            return false;
        }
        let open = self.current_span();
        let mut parser = self.lookahead_at(self.index);
        parser.advance();
        if parser.current_span().start_pos.line != open.start_pos.line {
            return false;
        }
        parser.parse_lambda_head().is_some()
    }
}

/// Whether `right` starts exactly where `left` ends, with nothing between.
pub(crate) fn spans_touch(left: Span, right: Span) -> (b: bool)
    ensures
        b == (left.end == right.start),
{
    left.end == right.start
}

} // verus!
