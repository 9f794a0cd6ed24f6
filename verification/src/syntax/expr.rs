//! Expressions that start with a keyword or a parameter list: lambdas,
//! `if`/`match`/`for ... yield` forms, brace construction, anonymous
//! interfaces, and the bodies that follow them.
use vstd::prelude::*;
use super::tree::{
    Binding, Block, CallArg, DestructureKind, ElseExprBranch, Expr, ExprStmt, ForBinding,
    LambdaBody, LambdaParam, LambdaParamDestructure, Pattern, Stmt, TypeRef,
};
use crate::diagnostic::Diagnostic;
use crate::lexer::{Keyword, Token, TokenKind};
use crate::parser::expr::owner_message;
use crate::source::{spec_cover, Span};
use crate::text::{concat_str, concat_strings, string_is, usize_to_string};
use super::Parser;

verus! {

/// One entry of a brace payload `{ ... }`, before it is known whether the
/// payload constructs fields or lists keyed entries.
pub(crate) enum RecordEntry {
    Field { name: String, ty: Option<TypeRef>, value: Expr, span: Span },
    Spread { value: Expr, span: Span },
    Keyed { key: Expr, value: Expr, span: Span },
    Positional { span: Span },
}

/// Whether some entry of `entries` names a field or spreads a value.
pub(crate) open spec fn has_named_entry(entries: Seq<RecordEntry>) -> bool {
    exists|i: int| 0 <= i < entries.len() && (entries[i] is Field || entries[i] is Spread)
}

/// Whether some entry of `entries` is a keyed entry.
pub(crate) open spec fn has_keyed_entry(entries: Seq<RecordEntry>) -> bool {
    exists|i: int| 0 <= i < entries.len() && entries[i] is Keyed
}

/// A token that ends a brace entry: `,` or the closing `}`.
pub open spec fn ends_brace_entry(tokens: Seq<Token>, j: int) -> bool {
    tokens[j].kind == TokenKind::Comma || tokens[j].kind == TokenKind::RBrace
}

/// The kind of a simple brace entry at `i` (0: `name: <integer>`, a field;
/// 1: `<integer>`, a positional value; 2: `[<integer>]: <integer>`, a keyed
/// entry) and where it ends, when one stands there directly followed by `,`
/// or `}`.
pub open spec fn simple_brace_entry(tokens: Seq<Token>, i: int) -> Option<(int, int)> {
    if tokens[i].kind == TokenKind::Identifier && tokens[i + 1].kind == TokenKind::Colon
        && tokens[i + 2].kind == TokenKind::Integer && ends_brace_entry(tokens, i + 3) {
        Some((0, i + 3))
    } else if tokens[i].kind == TokenKind::Integer && ends_brace_entry(tokens, i + 1) {
        Some((1, i + 1))
    } else if tokens[i].kind == TokenKind::LBracket && tokens[i + 1].kind == TokenKind::Integer
        && tokens[i + 2].kind == TokenKind::RBracket && tokens[i + 3].kind == TokenKind::Colon
        && tokens[i + 4].kind == TokenKind::Integer && ends_brace_entry(tokens, i + 5) {
        Some((2, i + 5))
    } else {
        None
    }
}

/// How many tokens the simple brace entry at `i` takes (0 when there is none).
pub open spec fn simple_brace_entry_width(tokens: Seq<Token>, i: int) -> int {
    match simple_brace_entry(tokens, i) {
        Some((_, end)) => end - i,
        None => 0,
    }
}

/// The simple entries of a brace payload from `i` up to its `}`, each as
/// (kind, first token), separated by `,` (a trailing `,` allowed), with
/// nothing else between: `None` when the payload is not made of them.
pub open spec fn simple_brace_entries(tokens: Seq<Token>, i: int) -> Option<Seq<(int, int)>>
    decreases tokens.len() - i,
{
    if !(0 <= i < tokens.len()) {
        None
    } else if tokens[i].kind == TokenKind::RBrace {
        Some(Seq::empty())
    } else if simple_brace_entry_width(tokens, i) <= 0 {
        None
    } else {
        let code = simple_brace_entry(tokens, i)->Some_0.0;
        let j = i + simple_brace_entry_width(tokens, i);
        if tokens[j].kind == TokenKind::RBrace {
            Some(seq![(code, i)])
        } else if j + 1 >= tokens.len() {
            None
        } else if tokens[j + 1].kind == TokenKind::RBrace {
            Some(seq![(code, i)])
        } else {
            match simple_brace_entries(tokens, j + 1) {
                Some(rest) => Some(seq![(code, i)] + rest),
                None => None,
            }
        }
    }
}

/// Where the `}` of a payload of simple entries `es` starting at `i` stands.
pub open spec fn simple_brace_close(tokens: Seq<Token>, i: int, es: Seq<(int, int)>) -> int {
    if es.len() == 0 {
        i
    } else {
        let s = es[es.len() - 1].1;
        let end = s + simple_brace_entry_width(tokens, s);
        if tokens[end].kind == TokenKind::RBrace { end } else { end + 1 }
    }
}

/// Whether the simple entries `es` include one of kind `code`.
pub open spec fn brace_entries_have(es: Seq<(int, int)>, code: int) -> bool {
    exists|k: int| 0 <= k < es.len() && #[trigger] es[k].0 == code
}

/// A parsed entry agrees with the simple entry `e` read from the tokens.
pub(crate) open spec fn entry_read(tokens: Seq<Token>, entry: RecordEntry, e: (int, int)) -> bool {
    &&& e.0 == 0 ==> (entry matches RecordEntry::Field { name, ty, value, .. } && name@ == tokens[e.1].lexeme@
        && ty is None && (value matches Expr::Integer { raw, .. } && raw@ == tokens[e.1 + 2].lexeme@))
    &&& e.0 == 1 ==> entry is Positional
    &&& e.0 == 2 ==> entry is Keyed
}

/// A field of a shape literal read from the simple entry `name: <integer>` at `i`.
pub open spec fn field_read(tokens: Seq<Token>, field: CallArg, i: int) -> bool {
    &&& field.name matches Some(name) && name@ == tokens[i].lexeme@
    &&& field.ty is None
    &&& field.value matches Expr::Integer { raw, .. } && raw@ == tokens[i + 2].lexeme@
}

/// Entry `k` of `es` is read at its start, with its kind.
pub open spec fn simple_entry_at(tokens: Seq<Token>, es: Seq<(int, int)>, k: int) -> bool {
    &&& simple_brace_entry(tokens, es[k].1) is Some
    &&& simple_brace_entry(tokens, es[k].1)->Some_0.0 == es[k].0
    &&& simple_brace_entry_width(tokens, es[k].1) > 0
}

/// Entry `k + 1` of `es` starts just after the `,` that ends entry `k`.
pub open spec fn simple_entries_linked(tokens: Seq<Token>, es: Seq<(int, int)>, k: int) -> bool {
    let e = es[k].1 + simple_brace_entry_width(tokens, es[k].1);
    tokens[e].kind == TokenKind::Comma && es[k + 1].1 == e + 1
}

/// How simple entries lie in the tokens: each is read at its start, the
/// first starts at `i`, each next one just after the `,` that ends the one
/// before, and the payload closes at `simple_brace_close`.
pub proof fn lemma_simple_brace_entries(tokens: Seq<Token>, i: int)
    requires
        simple_brace_entries(tokens, i) is Some,
        tokens.len() > 0 && tokens[tokens.len() - 1].kind == TokenKind::Eof,
    ensures
        ({
            let es = simple_brace_entries(tokens, i)->Some_0;
            &&& es.len() == 0 ==> tokens[i].kind == TokenKind::RBrace
            &&& es.len() > 0 ==> es[0].1 == i
            &&& forall|k: int| 0 <= k < es.len() ==> #[trigger] simple_entry_at(tokens, es, k)
            &&& forall|k: int| 0 <= k < es.len() - 1 ==> #[trigger] simple_entries_linked(tokens, es, k)
            &&& tokens[simple_brace_close(tokens, i, es)].kind == TokenKind::RBrace
            &&& es.len() > 0 ==> {
                let e = es[es.len() - 1].1 + simple_brace_entry_width(tokens, es[es.len() - 1].1);
                tokens[e].kind == TokenKind::RBrace
                    || (tokens[e].kind == TokenKind::Comma && tokens[e + 1].kind == TokenKind::RBrace)
            }
            &&& 0 <= i <= simple_brace_close(tokens, i, es) < tokens.len()
        }),
    decreases tokens.len() - i,
{
    let es = simple_brace_entries(tokens, i)->Some_0;
    if tokens[i].kind != TokenKind::RBrace {
        let j = i + simple_brace_entry_width(tokens, i);
        if tokens[j].kind != TokenKind::RBrace && tokens[j + 1].kind != TokenKind::RBrace {
            lemma_simple_brace_entries(tokens, j + 1);
            let rest = simple_brace_entries(tokens, j + 1)->Some_0;
            assert(es == seq![(simple_brace_entry(tokens, i)->Some_0.0, i)] + rest);
            assert forall|k: int| 0 <= k < es.len() implies #[trigger] simple_entry_at(tokens, es, k) by {
                if k > 0 {
                    assert(es[k] == rest[k - 1]);
                    assert(simple_entry_at(tokens, rest, k - 1));
                }
            }
            assert forall|k: int| 0 <= k < es.len() - 1 implies #[trigger] simple_entries_linked(tokens, es, k) by {
                if k > 0 {
                    assert(es[k] == rest[k - 1]);
                    assert(es[k + 1] == rest[k]);
                    assert(simple_entries_linked(tokens, rest, k - 1));
                } else {
                    if rest.len() > 0 {
                        assert(es[1] == rest[0]);
                    }
                }
            }
            if rest.len() > 0 {
                assert(es[es.len() - 1] == rest[rest.len() - 1]);
            }
        }
    }
}

/// A two-element tuple literal: one `(key, value)` entry of a keyed payload.
pub open spec fn is_pair(e: Expr) -> bool {
    e matches Expr::TupleLiteral { items, .. } && items@.len() == 2
}

/// What a brace payload becomes: a shape literal that holds construction
/// fields or `(key, value)` pairs, never both.
pub open spec fn brace_literal_shape(e: Expr) -> bool {
    &&& e is RecordLiteral
    &&& e->RecordLiteral_fields@.len() == 0 || e->RecordLiteral_values@.len() == 0
    &&& forall|i: int| 0 <= i < e->RecordLiteral_values@.len() ==> is_pair(#[trigger] e->RecordLiteral_values@[i])
}

impl<'a> Parser<'a> {
    /// Where the next token that is not a newline stands.
    pub(crate) open spec fn next_significant(self) -> int {
        crate::parser::newline_run(self.tokens@, self.index as int)
    }

    /// Where the newlines after the next significant token end.
    pub(crate) open spec fn after_next_significant(self) -> int {
        crate::parser::newline_run(self.tokens@, self.next_significant() + 1)
    }

    /// After any newlines, an integer that only newlines and then a token
    /// ending the expression follow: an expression made of that integer
    /// alone.
    pub(crate) open spec fn at_lone_integer(self) -> bool {
        crate::parser::lone_integer_from(self.tokens@, self.index as int)
    }

    /// A lone integer that no comma follows: a list of one expression.
    pub(crate) open spec fn at_listless_lone_integer(self) -> bool {
        crate::parser::listless_lone_integer_from(self.tokens@, self.index as int)
    }

    /// A lone integer that a closing token ends: a whole expression
    /// statement.
    pub(crate) open spec fn at_closed_lone_integer(self) -> bool {
        crate::parser::closed_lone_integer_from(self.tokens@, self.index as int)
    }

    /// `r` is the integer that `at_lone_integer` finds, `after` has moved
    /// past it, at most over the newlines behind it, and no diagnostic was
    /// added.
    pub(crate) open spec fn parsed_lone_integer(self, r: Option<Expr>, after: Parser<'a>) -> bool {
        let j = self.next_significant();
        &&& r matches Some(Expr::Integer { raw, span }) && raw@ == self.tokens@[j].lexeme@
            && span == self.tokens@[j].span
        &&& j < after.index <= self.after_next_significant()
        &&& after.diagnostics@ == self.diagnostics@
    }

    /// The lone integer and the end marker behind it lie inside the input.
    pub(crate) proof fn lemma_lone_integer_bounds(self)
        requires
            self.wf(),
            self.at_lone_integer(),
        ensures
            self.index <= self.next_significant(),
            self.next_significant() + 1 <= self.after_next_significant() < self.tokens@.len(),
    {
        let j = self.next_significant();
        crate::parser::lemma_newline_run_bounded(self.tokens@, self.index as int);
        assert(j + 1 < self.tokens@.len());
        crate::parser::lemma_newline_run_bounded(self.tokens@, j + 1);
    }

    /// From inside the newlines behind a lone integer, the input holds only
    /// newlines up to the token that ends it.
    pub(crate) proof fn lemma_lone_integer_rest(self, k: int)
        requires
            self.wf(),
            self.at_lone_integer(),
            self.next_significant() < k <= self.after_next_significant(),
        ensures
            crate::parser::newline_run(self.tokens@, k) == self.after_next_significant(),
            self.after_next_significant() < self.tokens@.len(),
            k < self.after_next_significant() ==> self.kind_at(k) == TokenKind::Newline,
            k < self.after_next_significant() ==> k + 1 <= self.after_next_significant(),
            crate::parser::ends_operand(self.kind_at(self.after_next_significant())),
    {
        self.lemma_lone_integer_bounds();
        crate::parser::lemma_newline_run_from_inside(self.tokens@, self.next_significant() + 1, k);
    }
}

impl<'a> Parser<'a> {
    pub(crate) fn parse_expr(&mut self) -> (r: Option<Expr>)
        requires
            old(self).wf(),
        ensures
            r is None ==> final(self).diagnostics@.len() > old(self).diagnostics@.len()
                || final(self).silent_failures@ > old(self).silent_failures@,
            final(self).follows(*old(self)),
            r is Some ==> final(self).index > old(self).index,
            old(self).at_lone_integer() ==> old(self).parsed_lone_integer(r, *final(self)),
        decreases old(self).bound@, old(self).remaining(), 23nat,
    {
        self.skip_newlines();
        if let Some(lambda) = self.try_parse_lambda_expr() {
            return Some(lambda);
        }
        if self.match_keyword(Keyword::If) {
            let start = self.previous_span();
            return self.parse_if_expr(start);
        }
        if self.at_keyword(Keyword::Match) {
            let start = self.consume_keyword(Keyword::Match, "expected 'match'")?;
            return self.parse_match_expr_after_keyword(start, false);
        }
        if self.at_keyword(Keyword::Partial) {
            let start = self.consume_keyword(Keyword::Partial, "expected 'partial'")?;
            return self.parse_partial_match_expr_after_partial(start);
        }
        if self.at_keyword(Keyword::For) {
            let start = self.consume_keyword(Keyword::For, "expected 'for'")?;
            return self.parse_for_yield_expr_after_start(start);
        }
        self.parse_extract_or_expr()
    }

    /// An expression in which a trailing `{ ... }` is not taken as a call
    /// argument (conditions, iterables, scrutinees).
    pub(crate) fn parse_expr_without_trailing_block_call(&mut self) -> (r: Option<Expr>)
        requires
            old(self).wf(),
        ensures
            r is None ==> final(self).diagnostics@.len() > old(self).diagnostics@.len()
                || final(self).silent_failures@ > old(self).silent_failures@,
            final(self).follows(*old(self)),
            r is Some ==> final(self).index > old(self).index,
            old(self).at_lone_integer() ==> old(self).parsed_lone_integer(r, *final(self)),
        decreases old(self).bound@, old(self).remaining(), 24nat,
    {
        let previous = self.allow_trailing_block_call;
        self.allow_trailing_block_call = false;
        let result = self.parse_expr();
        self.allow_trailing_block_call = previous;
        result
    }

    /// A lambda `params => body`; rewinds and gives up when no lambda head
    /// starts here.
    pub(crate) fn try_parse_lambda_expr(&mut self) -> (r: Option<Expr>)
        requires
            old(self).wf(),
        ensures
            final(self).follows(*old(self)),
            r is Some ==> final(self).index > old(self).index,
            old(self).cur_kind() != TokenKind::Keyword(Keyword::Let) && old(self).cur_kind() != TokenKind::Identifier
                && old(self).cur_kind() != TokenKind::LParen ==> r is None && final(self).index == old(self).index
                && final(self).diagnostics@ == old(self).diagnostics@,
            old(self).cur_kind() == TokenKind::Identifier && (old(self).kind_at(old(self).index + 1) == TokenKind::FatArrow
                || old(self).kind_at(old(self).index + 1) == TokenKind::Arrow)
                && crate::parser::closed_lone_integer_from(old(self).tokens@, old(self).index + 2)
                && old(self).tokens@[crate::parser::newline_run(old(self).tokens@,
                    crate::parser::newline_run(old(self).tokens@, old(self).index + 2) + 1)].kind != TokenKind::RBracket
                ==> (r matches Some(Expr::Lambda { params, .. }) && params@.len() == 1),
        decreases old(self).bound@, old(self).remaining(), 1nat,
    {
        let checkpoint = self.checkpoint();
        let (params, start) = match self.parse_lambda_head() {
            Some(head) => head,
            None => {
                self.restore(checkpoint);
                return None;
            },
        };
        let body = match self.parse_lambda_body() {
            Some(body) => body,
            None => {
                self.restore(checkpoint);
                return None;
            },
        };
        let end = body.span();
        Some(Expr::Lambda { params, body, span: start.cover(end) })
    }

    /// One parameter of a parenthesised lambda head: `name`, `name Type`, or
    /// a rejected `let` destructuring (reported, then parsed anyway).
    pub(crate) fn parse_lambda_param(&mut self, index: usize) -> (r: Option<LambdaParam>)
        requires
            old(self).wf(),
        ensures
            r is None ==> final(self).diagnostics@.len() > old(self).diagnostics@.len()
                || final(self).silent_failures@ > old(self).silent_failures@,
            final(self).follows(*old(self)),
            r is Some ==> final(self).index > old(self).index,
    {
        if self.match_keyword(Keyword::Let) {
            let start = self.previous_span();
            self.diagnostics.push(Diagnostic::error(
                "invalid_lambda_params",
                String::from_str(
                    "lambda parameters cannot use 'let' destructuring; name the parameter and destructure inside the lambda body",
                ),
                start,
            ));
            return self.parse_lambda_destructure_param(start, index);
        }
        let (name, start) = self.expect_identifier("expected lambda parameter")?;
        let ty = if self.can_start_type_ref() {
            Some(self.parse_type_ref()?)
        } else {
            None
        };
        let end = match &ty {
            Some(t) => t.span(),
            None => start,
        };
        Some(LambdaParam { name, ty, destructure: None, span: start.cover(end) })
    }

    /// The `(a, b)` or `{ f, g }` after a `let` in a lambda parameter list; the
    /// parameter gets the generated name `$lambda_param<index>`.
    pub(crate) fn parse_lambda_destructure_param(&mut self, start: Span, index: usize) -> (r: Option<LambdaParam>)
        requires
            old(self).wf(),
        ensures
            r is None ==> final(self).diagnostics@.len() > old(self).diagnostics@.len()
                || final(self).silent_failures@ > old(self).silent_failures@,
            final(self).follows(*old(self)),
            r is Some ==> final(self).index > old(self).index,
    {
        let (kind, bindings, end) = if self.match_token(TokenKind::LParen) {
            let bindings = self.parse_binding_list(false)?;
            let end = self.consume(
                TokenKind::RParen,
                "expected ')' after lambda tuple destructuring parameter",
            )?;
            (DestructureKind::Tuple, bindings, end)
        } else if self.match_token(TokenKind::LBrace) {
            let bindings = self.parse_brace_destructure_binding_list(false)?;
            let end = self.consume(
                TokenKind::RBrace,
                "expected '}' after lambda class destructuring parameter",
            )?;
            (DestructureKind::Record, bindings, end)
        } else {
            self.error_at_current(
                "expected_lambda_param",
                "expected '(' or '{' after 'let' in lambda parameter",
            );
            return None;
        };
        let name = concat_strings(String::from_str("$lambda_param"), &usize_to_string(index));
        Some(LambdaParam {
            name,
            ty: None,
            destructure: Some(LambdaParamDestructure { kind, bindings }),
            span: start.cover(end),
        })
    }

    /// The body after `=>`: a block, or exactly one statement.
    pub(crate) fn parse_lambda_body(&mut self) -> (r: Option<LambdaBody>)
        requires
            old(self).wf(),
        ensures
            r is None ==> final(self).diagnostics@.len() > old(self).diagnostics@.len()
                || final(self).silent_failures@ > old(self).silent_failures@,
            final(self).follows(*old(self)),
            r is Some ==> final(self).index > old(self).index,
            old(self).at_closed_lone_integer() && old(self).kind_at(old(self).after_next_significant()) != TokenKind::RBracket
                ==> (r matches Some(LambdaBody::Expr(e))
                && old(self).parsed_lone_integer(Some(*e), *final(self))),
        decreases old(self).bound@, old(self).remaining(), 28nat,
    {
        if self.at(TokenKind::LBrace) {
            return match self.parse_block() {
                Some(block) => Some(LambdaBody::Block(block)),
                None => None,
            };
        }
        self.skip_newlines();
        let first = match self.parse_stmt() {
            Some(stmt) => stmt,
            None => {
                self.synchronize_stmt();
                self.error_at_current(
                    "expected_expression",
                    "expected expression or lambda body after '=>'",
                );
                return None;
            },
        };
        proof {
            if old(self).at_closed_lone_integer() && old(self).kind_at(old(self).after_next_significant()) != TokenKind::RBracket
                && old(self).next_significant() < self.index <= old(self).after_next_significant() {
                old(self).lemma_lone_integer_rest(self.index as int);
            }
        }
        self.diagnose_extra_lambda_body_unit(first.span());
        Some(Self::lambda_body_from_stmt(first))
    }

    /// An expression statement as an expression body; any other statement
    /// as a one-statement block.
    pub(crate) fn lambda_body_from_stmt(stmt: Stmt) -> (r: LambdaBody)
        ensures
            stmt matches Stmt::Expr(e) ==> r == LambdaBody::Expr(Box::new(e.expr)),
            !(stmt is Expr) ==> (r matches LambdaBody::Block(b) && b.statements@ == seq![stmt]),
    {
        match stmt {
            Stmt::Expr(expr_stmt) => LambdaBody::Expr(Box::new(expr_stmt.expr)),
            other => {
                let span = other.span();
                LambdaBody::Block(Block { statements: vec![other], span })
            },
        }
    }

    /// Reports a second statement that starts on a later line, indented at
    /// least as far as the lambda body, as if it belonged to the body.
    pub(crate) fn diagnose_extra_lambda_body_unit(&mut self, body_span: Span)
        requires
            old(self).wf(),
        ensures
            final(self).wf(),
            final(self).tokens == old(self).tokens,
            final(self).bound == old(self).bound,
            final(self).silent_failures == old(self).silent_failures,
            final(self).index == old(self).index,
            final(self).diagnostics@.len() >= old(self).diagnostics@.len(),
            final(self).diagnostics@.len() == old(self).diagnostics@.len() ==> final(self).diagnostics@ == old(self).diagnostics@,
            final(self).follows(*old(self)),
            final(self).diagnostics@.len() == old(self).diagnostics@.len() + (if ({
                let t = old(self).tokens@[crate::parser::newline_run(old(self).tokens@, old(self).index as int)];
                &&& t.kind != TokenKind::RParen && t.kind != TokenKind::RBrace
                &&& t.kind != TokenKind::Comma && t.kind != TokenKind::Eof
                &&& t.span.start_pos.line > body_span.end_pos.line
                &&& t.span.start_pos.column >= body_span.start_pos.column
            }) {
                1int
            } else {
                0int
            }),
    {
        let checkpoint = self.checkpoint();
        if self.at(TokenKind::Newline) {
            self.skip_newlines();
        }
        let current_span = self.current_span();
        let diagnostic_span = if !self.at(TokenKind::RParen) && !self.at(TokenKind::RBrace)
            && !self.at(TokenKind::Comma) && !self.at(TokenKind::Eof)
            && current_span.start_pos.line > body_span.end_pos.line
            && current_span.start_pos.column >= body_span.start_pos.column {
            Some(body_span.cover(current_span))
        } else {
            None
        };
        self.restore(checkpoint);
        if let Some(span) = diagnostic_span {
            self.diagnostics.push(Diagnostic::error(
                "lambda_body_requires_braces",
                String::from_str(
                    "lambda body accepts one statement or expression; use '{ ... }' for multiple statements",
                ),
                span,
            ));
        }
    }

    /// The rest of `if cond { ... } else ...` used as an expression; the
    /// `if` is already consumed.
    pub(crate) fn parse_if_expr(&mut self, start: Span) -> (r: Option<Expr>)
        requires
            old(self).wf(),
        ensures
            r is None ==> final(self).diagnostics@.len() > old(self).diagnostics@.len()
                || final(self).silent_failures@ > old(self).silent_failures@,
            final(self).follows(*old(self)),
            r is Some ==> final(self).index > old(self).index,
        decreases old(self).bound@, old(self).remaining(), 25nat,
    {
        let condition = self.parse_expr_without_trailing_block_call()?;
        let then_block = self.parse_if_body_block()?;
        if !self.match_keyword(Keyword::Else) {
            self.error_at_current(
                "if_expression_requires_else",
                "if expression requires 'else'; use statement form 'if condition { ... }' when no value is needed",
            );
            return None;
        }
        if self.at(TokenKind::Newline) {
            self.error_at_current(
                "unexpected_token",
                "else body must stay on the same line unless it uses '{ ... }'",
            );
            return None;
        }
        let else_branch = if self.at_keyword(Keyword::If) {
            let else_start = self.consume_keyword(Keyword::If, "expected 'if'")?;
            let else_if = self.parse_if_expr(else_start)?;
            ElseExprBranch::If(Box::new(else_if))
        } else {
            ElseExprBranch::Block(self.parse_block_or_inline_expr_body("else")?)
        };
        let end = match &else_branch {
            ElseExprBranch::If(expr) => expr.span(),
            ElseExprBranch::Block(block) => block.span,
        };
        Some(Expr::If {
            condition: Box::new(condition),
            then_block,
            else_branch: Box::new(else_branch),
            span: start.cover(end),
        })
    }

    /// The rest of `match value { case ... }`; the keyword is already consumed.
    pub(crate) fn parse_match_expr_after_keyword(&mut self, start: Span, partial: bool) -> (r: Option<Expr>)
        requires
            old(self).wf(),
        ensures
            r is None ==> final(self).diagnostics@.len() > old(self).diagnostics@.len()
                || final(self).silent_failures@ > old(self).silent_failures@,
            final(self).follows(*old(self)),
            r is Some ==> final(self).index > old(self).index,
        decreases old(self).bound@, old(self).remaining(), 25nat,
    {
        if self.at(TokenKind::LBrace) {
            self.error_missing_match_value(partial);
            return None;
        }
        let value = self.parse_expr_without_trailing_block_call()?;
        let (cases, end) = self.parse_match_cases()?;
        Some(Expr::Match { partial, value: Box::new(value), cases, span: start.cover(end) })
    }

    /// The rest of `partial match value { ... }`; `partial` is consumed.
    pub(crate) fn parse_partial_match_expr_after_partial(&mut self, start: Span) -> (r: Option<Expr>)
        requires
            old(self).wf(),
        ensures
            r is None ==> final(self).diagnostics@.len() > old(self).diagnostics@.len()
                || final(self).silent_failures@ > old(self).silent_failures@,
            final(self).follows(*old(self)),
            r is Some ==> final(self).index > old(self).index,
        decreases old(self).bound@, old(self).remaining(), 1nat,
    {
        self.consume_keyword(Keyword::Match, "expected 'match' after 'partial'")?;
        self.parse_match_expr_after_keyword(start, true)
    }

    /// The rest of `for x <- xs yield body` or `for { ... } yield body`.
    pub(crate) fn parse_for_yield_expr_after_start(&mut self, start: Span) -> (r: Option<Expr>)
        requires
            old(self).wf(),
        ensures
            r is None ==> final(self).diagnostics@.len() > old(self).diagnostics@.len()
                || final(self).silent_failures@ > old(self).silent_failures@,
            final(self).follows(*old(self)),
            r is Some ==> final(self).index > old(self).index,
        decreases old(self).bound@, old(self).remaining(), 1nat,
    {
        let bindings = if self.at(TokenKind::LBrace) {
            self.consume(TokenKind::LBrace, "expected '{' after 'for'")?;
            self.parse_for_binding_block()?
        } else {
            let binding = self.parse_plain_for_generator_binding()?;
            self.consume_for_generator_arrow()?;
            let iterable = self.parse_expr_without_trailing_block_call()?;
            let target_span = binding.span;
            let span = target_span.cover(iterable.span());
            vec![ForBinding {
                span,
                bindings: vec![binding],
                destructure: None,
                pattern: None,
                iterable: Some(iterable),
                values: Vec::new(),
            }]
        };
        self.consume_keyword(Keyword::Yield, "expected 'yield' after for bindings")?;
        let yield_body = self.parse_yield_body_block()?;
        Some(Expr::ForYield { span: start.cover(yield_body.span), bindings, yield_body })
    }

    /// The clauses of `for { x <- xs; y = f(x); let (a, b) <- ps }`, after
    /// the `{`.
    pub(crate) fn parse_for_binding_block(&mut self) -> (r: Option<Vec<ForBinding>>)
        requires
            old(self).wf(),
        ensures
            r is None ==> final(self).diagnostics@.len() > old(self).diagnostics@.len()
                || final(self).silent_failures@ > old(self).silent_failures@,
            final(self).follows(*old(self)),
            r is Some ==> final(self).index > old(self).index
                && final(self).kind_at(final(self).index - 1) == TokenKind::RBrace,
        decreases old(self).bound@, old(self).remaining(), 1nat,
    {
        self.skip_newlines();
        let mut bindings = Vec::new();
        while !self.at(TokenKind::RBrace) && !self.at(TokenKind::Eof)
            invariant
                self.follows(*old(self)),
            decreases self.remaining(),
        {
            if self.match_keyword(Keyword::Let) {
                bindings.push(self.parse_for_let_clause()?);
            } else {
                let binding = self.parse_binding(false)?;
                if self.match_token(TokenKind::LeftArrow) {
                    if binding.ty.is_some() {
                        self.error_at_current(
                            "invalid_for_generator",
                            "for generator must bind a plain identifier or '_' before '<-'; use 'let (...) <-' or 'let { ... } <-' for irrefutable destructuring",
                        );
                        return None;
                    }
                    let iterable = self.parse_expr_without_trailing_block_call()?;
                    let span = binding.span.cover(iterable.span());
                    bindings.push(ForBinding {
                        bindings: vec![binding],
                        destructure: None,
                        pattern: None,
                        iterable: Some(iterable),
                        values: Vec::new(),
                        span,
                    });
                } else if self.match_token(TokenKind::Eq) {
                    let value = self.parse_for_clause_value(
                        "for yield binding clauses cannot use 'else'; move refutable logic into the body",
                    )?;
                    let end = value.span();
                    bindings.push(ForBinding {
                        span: binding.span.cover(end),
                        bindings: vec![binding],
                        destructure: None,
                        pattern: None,
                        iterable: None,
                        values: vec![value],
                    });
                } else {
                    self.error_at_current(
                        "invalid_for_clause",
                        "for yield clauses only support 'name <- iterable', 'let (x, y) <- iterable', 'let { ... } <- iterable', 'name = expr', and 'let pattern = expr'",
                    );
                    return None;
                }
            }
            self.skip_newlines();
        }
        self.consume(TokenKind::RBrace, "expected '}' after for bindings")?;
        Some(bindings)
    }

    /// A `let` clause of a for-yield block, after the `let`: a tuple or brace
    /// destructuring, or a pattern, followed by `<- iterable` or `= value`.
    pub(crate) fn parse_for_let_clause(&mut self) -> (r: Option<ForBinding>)
        requires
            old(self).wf(),
        ensures
            r is None ==> final(self).diagnostics@.len() > old(self).diagnostics@.len()
                || final(self).silent_failures@ > old(self).silent_failures@,
            final(self).follows(*old(self)),
            r is Some ==> final(self).index > old(self).index,
        decreases old(self).bound@, old(self).remaining(), 1nat,
    {
        if self.at(TokenKind::LBrace) && self.is_brace_destructuring_binding_start() {
            let start = self.consume(TokenKind::LBrace, "expected '{' after 'let'")?;
            let bindings = self.parse_brace_destructure_binding_list(false)?;
            self.consume(TokenKind::RBrace, "expected '}' after destructuring bindings")?;
            return self.parse_for_destructure_clause_tail(bindings, DestructureKind::Record, start);
        }

        if self.match_token(TokenKind::LParen) {
            let start = self.previous_span();
            let bindings = self.parse_binding_list(false)?;
            self.consume(TokenKind::RParen, "expected ')' after destructuring bindings")?;
            return self.parse_for_destructure_clause_tail(bindings, DestructureKind::Tuple, start);
        }

        let pattern = self.parse_pattern()?;
        let plain_binding = match &pattern {
            Pattern::Binding { name, .. } => !string_is(name, "_"),
            _ => false,
        };
        if plain_binding && self.at(TokenKind::Eq) {
            self.error_at_current(
                "plain_let_binding",
                "plain 'let name = value' is not supported in for-yield clauses; use 'name = value' for ordinary bindings, or use 'let' for destructuring/pattern matching",
            );
            return None;
        }
        if self.match_token(TokenKind::LeftArrow) {
            let iterable = self.parse_expr_without_trailing_block_call()?;
            let end = iterable.span();
            return Some(ForBinding {
                span: pattern.span().cover(end),
                bindings: Vec::new(),
                destructure: None,
                pattern: Some(pattern),
                iterable: Some(iterable),
                values: Vec::new(),
            });
        }
        self.consume_for_let_equals()?;
        let value = self.parse_for_let_value()?;
        let end = value.span();
        let span = pattern.span().cover(end);
        Some(ForBinding {
            bindings: Vec::new(),
            destructure: None,
            pattern: Some(pattern),
            iterable: None,
            values: vec![value],
            span,
        })
    }

    /// `<- iterable` or `= value` after destructured bindings of a for-yield
    /// `let` clause.
    pub(crate) fn parse_for_destructure_clause_tail(
        &mut self,
        bindings: Vec<Binding>,
        destructure: DestructureKind,
        start: Span,
    ) -> (r: Option<ForBinding>)
        requires
            old(self).wf(),
        ensures
            r is None ==> final(self).diagnostics@.len() > old(self).diagnostics@.len()
                || final(self).silent_failures@ > old(self).silent_failures@,
            final(self).follows(*old(self)),
            r is Some ==> final(self).index > old(self).index,
        decreases old(self).bound@, old(self).remaining(), 1nat,
    {
        if self.match_token(TokenKind::LeftArrow) {
            let iterable = self.parse_expr_without_trailing_block_call()?;
            let end = iterable.span();
            return Some(ForBinding {
                bindings,
                destructure: Some(destructure),
                pattern: None,
                iterable: Some(iterable),
                values: Vec::new(),
                span: start.cover(end),
            });
        }
        self.consume_for_let_equals()?;
        let value = self.parse_for_let_value()?;
        let end = value.span();
        Some(ForBinding {
            bindings,
            destructure: Some(destructure),
            pattern: None,
            iterable: None,
            values: vec![value],
            span: start.cover(end),
        })
    }

    /// The `=` of a for-yield `let` clause, or the report that only the
    /// listed clause forms exist.
    pub(crate) fn consume_for_let_equals(&mut self) -> (r: Option<Span>)
        requires
            old(self).wf(),
        ensures
            r is None ==> final(self).diagnostics@.len() > old(self).diagnostics@.len()
                || final(self).silent_failures@ > old(self).silent_failures@,
            final(self).follows(*old(self)),
            r is Some <==> old(self).cur_kind() == TokenKind::Eq,
            r is Some ==> final(self).index == old(self).index + 1,
    {
        if self.match_token(TokenKind::Eq) {
            Some(self.previous_span())
        } else {
            self.error_at_current(
                "invalid_for_clause",
                "for yield clauses only support 'name <- iterable', 'let (x, y) <- iterable', 'let { ... } <- iterable', 'name = expr', and 'let pattern = expr'",
            );
            None
        }
    }

    pub(crate) fn parse_for_let_value(&mut self) -> (r: Option<Expr>)
        requires
            old(self).wf(),
        ensures
            r is None ==> final(self).diagnostics@.len() > old(self).diagnostics@.len()
                || final(self).silent_failures@ > old(self).silent_failures@,
            final(self).follows(*old(self)),
            r is Some ==> final(self).index > old(self).index,
        decreases old(self).bound@, old(self).remaining(), 26nat,
    {
        self.parse_for_clause_value(
            "for yield let clauses cannot use 'else'; move refutable logic into the body",
        )
    }

    /// The value of a for-yield `=` clause; an `else` after it is reported
    /// with `else_message`.
    pub(crate) fn parse_for_clause_value(&mut self, else_message: &str) -> (r: Option<Expr>)
        requires
            old(self).wf(),
        ensures
            r is None ==> final(self).diagnostics@.len() > old(self).diagnostics@.len()
                || final(self).silent_failures@ > old(self).silent_failures@,
            final(self).follows(*old(self)),
            r is Some ==> final(self).index > old(self).index,
        decreases old(self).bound@, old(self).remaining(), 25nat,
    {
        let value = self.parse_expr_without_trailing_block_call()?;
        if self.match_keyword(Keyword::Else) {
            self.error_at_current("invalid_for_clause", else_message);
            return None;
        }
        Some(value)
    }

    pub(crate) fn parse_yield_body_block(&mut self) -> (r: Option<Block>)
        requires
            old(self).wf(),
        ensures
            r is None ==> final(self).diagnostics@.len() > old(self).diagnostics@.len()
                || final(self).silent_failures@ > old(self).silent_failures@,
            final(self).follows(*old(self)),
            r is Some ==> final(self).index > old(self).index,
        decreases old(self).bound@, old(self).remaining(), 24nat,
    {
        if self.at(TokenKind::LBrace) {
            self.parse_block()
        } else {
            if self.at(TokenKind::Newline) {
                self.error_at_current(
                    "unexpected_token",
                    "yield body must stay on the same line unless it uses '{ ... }'",
                );
                return None;
            }
            let expr = self.parse_expr()?;
            let span = expr.span();
            Some(Block { statements: vec![Stmt::Expr(ExprStmt { expr, span })], span })
        }
    }

    pub(crate) fn parse_brace_record_literal_expr(&mut self) -> (r: Option<Expr>)
        requires
            old(self).wf(),
        ensures
            r is None ==> final(self).diagnostics@.len() > old(self).diagnostics@.len()
                || final(self).silent_failures@ > old(self).silent_failures@,
            final(self).follows(*old(self)),
            r is Some ==> final(self).index > old(self).index,
        decreases old(self).bound@, old(self).remaining(), 1nat,
    {
        let start = self.consume(TokenKind::LBrace, "expected '{'")?;
        self.finish_brace_record_literal_expr(start)
    }

    /// One entry of a brace payload: `...value`, `[key]: value`,
    /// `name: value`, `name Type: value`, `key: value`, or a positional value.
    pub(crate) fn parse_brace_entry(&mut self) -> (r: Option<RecordEntry>)
        requires
            old(self).wf(),
        ensures
            r is None ==> final(self).diagnostics@.len() > old(self).diagnostics@.len()
                || final(self).silent_failures@ > old(self).silent_failures@,
            final(self).follows(*old(self)),
            r is Some ==> final(self).index > old(self).index,
            simple_brace_entry(old(self).tokens@, old(self).index as int) matches Some((code, end)) ==> {
                let i = old(self).index as int;
                &&& final(self).index == end && final(self).diagnostics@ == old(self).diagnostics@
                &&& code == 0 ==> (r matches Some(RecordEntry::Field { name, ty, value, .. })
                    && name@ == old(self).tokens@[i].lexeme@ && ty is None
                    && (value matches Expr::Integer { raw, .. } && raw@ == old(self).tokens@[i + 2].lexeme@))
                &&& code == 1 ==> (r matches Some(RecordEntry::Positional { .. }))
                &&& code == 2 ==> (r matches Some(RecordEntry::Keyed { key, value, .. }) && key is Integer
                    && value is Integer)
            },
        decreases old(self).bound@, old(self).remaining(), 24nat,
    {
        if self.match_token(TokenKind::Ellipsis) {
            let start = self.previous_span();
            let value = self.parse_expr()?;
            return Some(RecordEntry::Spread { span: start.cover(value.span()), value });
        }
        if self.match_token(TokenKind::LBracket) {
            let start = self.previous_span();
            let key = self.parse_expr()?;
            self.consume(TokenKind::RBracket, "expected ']' after computed keyed entry")?;
            self.consume(TokenKind::Colon, "expected ':' after computed keyed entry")?;
            let value = self.parse_expr()?;
            return Some(RecordEntry::Keyed { span: start.cover(value.span()), key, value });
        }
        if self.at(TokenKind::Identifier) {
            let checkpoint = self.checkpoint();
            let (name, name_span) = self.expect_identifier("expected shape field name")?;
            if self.match_token(TokenKind::Colon) {
                let value = self.parse_expr()?;
                return Some(RecordEntry::Field { name, ty: None, span: name_span.cover(value.span()), value });
            }
            if self.can_start_type_ref() {
                if let Some(ty) = self.parse_type_ref() {
                    if self.match_token(TokenKind::Colon) {
                        let value = self.parse_expr()?;
                        return Some(RecordEntry::Field {
                            name,
                            ty: Some(ty),
                            span: name_span.cover(value.span()),
                            value,
                        });
                    }
                }
            }
            self.restore(checkpoint);
            let value = self.parse_expr()?;
            return Some(RecordEntry::Positional { span: value.span() });
        }
        let key_or_value = self.parse_or_expr()?;
        if self.match_token(TokenKind::Colon) {
            let grouped = match &key_or_value {
                Expr::Group { .. } | Expr::TupleLiteral { .. } => true,
                _ => false,
            };
            if grouped {
                self.diagnostics.push(Diagnostic::error(
                    "computed_key_requires_brackets",
                    String::from_str("computed keyed entries use '[expr]: value', not '(expr): value'"),
                    key_or_value.span(),
                ));
                return None;
            }
            let value = self.parse_expr()?;
            return Some(RecordEntry::Keyed {
                span: key_or_value.span().cover(value.span()),
                key: key_or_value,
                value,
            });
        }
        Some(RecordEntry::Positional { span: key_or_value.span() })
    }

    /// The entries of a brace payload after its `{`: construction fields
    /// (`name: value`, `...spread`) give a shape literal with fields; keyed
    /// entries (`key: value`) give one with `(key, value)` pairs; the two
    /// cannot mix, and positional values are rejected.
    pub(crate) fn finish_brace_record_literal_expr(&mut self, start: Span) -> (r: Option<Expr>)
        requires
            old(self).wf(),
        ensures
            r is None ==> final(self).diagnostics@.len() > old(self).diagnostics@.len()
                || final(self).silent_failures@ > old(self).silent_failures@,
            final(self).follows(*old(self)),
            r is Some ==> final(self).index > old(self).index,
            r matches Some(e) ==> brace_literal_shape(e)
                && final(self).kind_at(final(self).index - 1) == TokenKind::RBrace
                && e->RecordLiteral_span == spec_cover(start, final(self).tokens@[final(self).index - 1].span),
            simple_brace_entries(old(self).tokens@, old(self).index as int) matches Some(es) ==> {
                let close = simple_brace_close(old(self).tokens@, old(self).index as int, es);
                &&& (forall|q: int| 0 <= q < es.len() ==> #[trigger] es[q].0 == 0) ==> (r matches Some(
                    Expr::RecordLiteral { fields, values, .. }) && fields@.len() == es.len() && values@.len() == 0
                    && (forall|q: int| 0 <= q < es.len() ==> field_read(old(self).tokens@, #[trigger] fields@[q], es[q].1))
                    && final(self).diagnostics@ == old(self).diagnostics@ && final(self).index == close + 1)
                &&& es.len() > 0 && (forall|q: int| 0 <= q < es.len() ==> #[trigger] es[q].0 == 1) ==> (r is None
                    && final(self).index == close + 1
                    && final(self).diagnostics@ == old(self).diagnostics@.push(final(self).diagnostics@.last())
                    && final(self).diagnostics@.last().code@ == "positional_brace_construction"@
                    && final(self).diagnostics@.last().span == spec_cover(start, old(self).tokens@[close].span))
                &&& brace_entries_have(es, 0) && brace_entries_have(es, 2) ==> (r is None
                    && final(self).index == close + 1
                    && final(self).diagnostics@ == old(self).diagnostics@.push(final(self).diagnostics@.last())
                    && final(self).diagnostics@.last().code@ == "mixed_brace_entries"@
                    && final(self).diagnostics@.last().span == spec_cover(start, old(self).tokens@[close].span))
            },
        decreases old(self).bound@, old(self).remaining(), 25nat,
    {
        let ghost g = simple_brace_entries(old(self).tokens@, old(self).index as int) is Some;
        let ghost es = simple_brace_entries(old(self).tokens@, old(self).index as int)->Some_0;
        let ghost close = simple_brace_close(old(self).tokens@, old(self).index as int, simple_brace_entries(old(self).tokens@, old(self).index as int)->Some_0);
        proof {
            if g {
                lemma_simple_brace_entries(old(self).tokens@, old(self).index as int);
                assert(crate::parser::newline_run(old(self).tokens@, old(self).index as int) == old(self).index as int);
                if es.len() > 0 {
                    assert(simple_entry_at(old(self).tokens@, es, 0));
                }
            }
        }
        let mut entries: Vec<RecordEntry> = Vec::new();
        self.skip_newlines();
        while !self.at(TokenKind::RBrace) && !self.at(TokenKind::Eof)
            invariant
                self.follows(*old(self)),
                g == (simple_brace_entries(old(self).tokens@, old(self).index as int) is Some),
                es == simple_brace_entries(old(self).tokens@, old(self).index as int)->Some_0,
                close == simple_brace_close(old(self).tokens@, old(self).index as int, es),
                g ==> {
                    &&& entries@.len() <= es.len()
                    &&& entries@.len() < es.len() ==> self.index == es[entries@.len() as int].1
                    &&& entries@.len() < es.len() ==> self.cur_kind() != TokenKind::RBrace
                        && self.cur_kind() != TokenKind::Eof
                    &&& entries@.len() == es.len() ==> self.index == close
                    &&& forall|q: int| 0 <= q < entries@.len() ==> entry_read(old(self).tokens@, #[trigger] entries@[q], es[q])
                    &&& self.diagnostics@ == old(self).diagnostics@
                },
                g ==> {
                    &&& es.len() == 0 ==> old(self).tokens@[old(self).index as int].kind == TokenKind::RBrace
                    &&& es.len() > 0 ==> es[0].1 == old(self).index as int
                    &&& forall|q: int| 0 <= q < es.len() ==> #[trigger] simple_entry_at(old(self).tokens@, es, q)
                    &&& forall|q: int| 0 <= q < es.len() - 1 ==> #[trigger] simple_entries_linked(old(self).tokens@, es, q)
                    &&& old(self).tokens@[close].kind == TokenKind::RBrace
                    &&& es.len() > 0 ==> {
                        let e = es[es.len() - 1].1 + simple_brace_entry_width(old(self).tokens@, es[es.len() - 1].1);
                        old(self).tokens@[e].kind == TokenKind::RBrace
                            || (old(self).tokens@[e].kind == TokenKind::Comma && old(self).tokens@[e + 1].kind == TokenKind::RBrace)
                    }
                    &&& close == simple_brace_close(old(self).tokens@, old(self).index as int, es)
                },
            ensures
                self.follows(*old(self)),
                g ==> entries@.len() == es.len() && self.index == close
                    && (forall|q: int| 0 <= q < entries@.len() ==> entry_read(old(self).tokens@, #[trigger] entries@[q], es[q]))
                    && self.diagnostics@ == old(self).diagnostics@,
            decreases self.remaining(),
        {
            let ghost m = entries@.len() as int;
            proof {
                if g {
                    assert(m < es.len());
                    assert(simple_entry_at(old(self).tokens@, es, m));
                    assert(simple_brace_entry(old(self).tokens@, self.index as int) is Some);
                    if m + 1 < es.len() {
                        assert(simple_entries_linked(old(self).tokens@, es, m));
                        assert(simple_entry_at(old(self).tokens@, es, m + 1));
                    }
                }
            }
            let entry_opt = self.parse_brace_entry();
            proof {
                if g {
                    assert(entry_opt is Some);
                }
            }
            let entry = entry_opt?;
            let ghost after_entry = self.index as int;
            proof {
                if g {
                    assert(after_entry == es[m].1 + simple_brace_entry_width(old(self).tokens@, es[m].1));
                    assert(ends_brace_entry(old(self).tokens@, after_entry));
                }
            }
            let ghost entries_before = entries@;
            entries.push(entry);
            proof {
                if g {
                    assert forall|q: int| 0 <= q < entries@.len() implies entry_read(old(self).tokens@, #[trigger] entries@[q], es[q]) by {
                        if q < m {
                            assert(entries@[q] == entries_before[q]);
                        }
                    }
                }
            }
            let separated_by_comma = self.match_token(TokenKind::Comma);
            let separated_by_newline = if !separated_by_comma {
                self.match_token(TokenKind::Newline)
            } else {
                false
            };
            self.skip_newlines();
            if separated_by_newline {
                self.match_token(TokenKind::Comma);
                self.skip_newlines();
            }
            if self.at(TokenKind::RBrace) || self.at(TokenKind::Eof) {
                break;
            }
            if !separated_by_comma && !separated_by_newline {
                self.error_at_current("unexpected_token", "expected ',' or newline between brace entries");
                return None;
            }
        }
        let end = self.consume(TokenKind::RBrace, "expected '}' after anonymous shape")?;
        let ghost end_index = self.index;
        let ghost all_entries = entries@;
        let mut has_named = false;
        let mut has_keyed = false;
        let mut k: usize = 0;
        while k < entries.len()
            invariant
                self.follows(*old(self)),
                g == (simple_brace_entries(old(self).tokens@, old(self).index as int) is Some),
                es == simple_brace_entries(old(self).tokens@, old(self).index as int)->Some_0,
                close == simple_brace_close(old(self).tokens@, old(self).index as int, es),
                self.index > old(self).index,
                self.index == end_index,
                k <= entries@.len(),
                has_named <==> exists|i: int| 0 <= i < k && (entries@[i] is Field || entries@[i] is Spread),
                has_keyed <==> exists|i: int| 0 <= i < k && entries@[i] is Keyed,
                entries@ == all_entries,
                g ==> all_entries.len() == es.len() && end_index == close + 1
                    && (forall|q: int| 0 <= q < all_entries.len() ==> entry_read(old(self).tokens@, #[trigger] all_entries[q], es[q]))
                    && self.diagnostics@ == old(self).diagnostics@,
            decreases entries@.len() - k,
        {
            match &entries[k] {
                RecordEntry::Field { .. } | RecordEntry::Spread { .. } => has_named = true,
                RecordEntry::Keyed { .. } => has_keyed = true,
                RecordEntry::Positional { .. } => {},
            }
            k = k + 1;
        }
        proof {
            if g {
                if has_named {
                    let w = choose|i: int| 0 <= i < k && (entries@[i] is Field || entries@[i] is Spread);
                    assert(simple_entry_at(old(self).tokens@, es, w));
                    assert(entry_read(old(self).tokens@, all_entries[w], es[w]));
                    assert(es[w].0 == 0);
                    assert(brace_entries_have(es, 0));
                }
                if brace_entries_have(es, 0) {
                    let w = choose|i: int| 0 <= i < es.len() && #[trigger] es[i].0 == 0;
                    assert(entry_read(old(self).tokens@, all_entries[w], es[w]));
                    assert(entries@[w] is Field);
                }
                if has_keyed {
                    let w = choose|i: int| 0 <= i < k && entries@[i] is Keyed;
                    assert(simple_entry_at(old(self).tokens@, es, w));
                    assert(entry_read(old(self).tokens@, all_entries[w], es[w]));
                    assert(es[w].0 == 2);
                    assert(brace_entries_have(es, 2));
                }
                if brace_entries_have(es, 2) {
                    let w = choose|i: int| 0 <= i < es.len() && #[trigger] es[i].0 == 2;
                    assert(entry_read(old(self).tokens@, all_entries[w], es[w]));
                    assert(entries@[w] is Keyed);
                }
                if es.len() > 0 && (forall|q: int| 0 <= q < es.len() ==> #[trigger] es[q].0 == 1) {
                    assert(es[0].0 == 1);
                }
            }
        }
        if has_named && has_keyed {
            self.diagnostics.push(Diagnostic::error(
                "mixed_brace_entries",
                String::from_str("cannot mix construction fields and keyed entries in the same brace payload"),
                start.cover(end),
            ));
            return None;
        }
        let mut fields: Vec<CallArg> = Vec::new();
        let mut values: Vec<Expr> = Vec::new();
        if has_named {
            while entries.len() > 0
                invariant
                    self.follows(*old(self)),
                    g == (simple_brace_entries(old(self).tokens@, old(self).index as int) is Some),
                    es == simple_brace_entries(old(self).tokens@, old(self).index as int)->Some_0,
                    close == simple_brace_close(old(self).tokens@, old(self).index as int, es),
                    self.index > old(self).index,
                    self.index == end_index,
                    values@.len() == 0,
                    !has_keyed_entry(entries@),
                    g && (forall|q: int| 0 <= q < es.len() ==> #[trigger] es[q].0 == 0) ==> {
                        &&& fields@.len() + entries@.len() == es.len()
                        &&& forall|q: int| 0 <= q < fields@.len() ==> field_read(old(self).tokens@, #[trigger] fields@[q], es[q].1)
                        &&& forall|q: int| 0 <= q < entries@.len() ==> entry_read(old(self).tokens@, #[trigger] entries@[q],
                            es[fields@.len() + q])
                        &&& self.diagnostics@ == old(self).diagnostics@
                    },
                    g ==> !(es.len() > 0 && (forall|q: int| 0 <= q < es.len() ==> #[trigger] es[q].0 == 1)),
                    g ==> !(brace_entries_have(es, 0) && brace_entries_have(es, 2)),
                decreases entries@.len(),
            {
                let ghost before = entries@;
                let ghost fields_before = fields@;
                let entry = entries.remove(0);
                proof {
                    if g && (forall|q: int| 0 <= q < es.len() ==> #[trigger] es[q].0 == 0) {
                        assert(entry_read(old(self).tokens@, before[0], es[fields_before.len() as int]));
                        assert(es[fields_before.len() as int].0 == 0);
                        assert forall|q: int| 0 <= q < entries@.len() implies entry_read(old(self).tokens@, #[trigger] entries@[q],
                            es[fields_before.len() as int + 1 + q]) by {
                            assert(entries@[q] == before[q + 1]);
                            assert(entry_read(old(self).tokens@, before[q + 1], es[fields_before.len() as int + (q + 1)]));
                        }
                    }
                }
                proof {
                    assert(before[0] == entry);
                    if has_keyed_entry(entries@) {
                        let w = choose|i: int| 0 <= i < entries@.len() && entries@[i] is Keyed;
                        assert(before[w + 1] == entries@[w]);
                    }
                }
                match entry {
                    RecordEntry::Field { name, ty, value, span } => {
                        let ghost read_from = fields@.len() as int;
                        fields.push(CallArg { name: Some(name), ty, value, span });
                        proof {
                            if g && (forall|q: int| 0 <= q < es.len() ==> #[trigger] es[q].0 == 0) {
                                assert forall|q: int| 0 <= q < fields@.len() implies field_read(old(self).tokens@, #[trigger] fields@[q], es[q].1) by {
                                    if q < read_from {
                                        assert(fields@[q] == fields_before[q]);
                                    }
                                }
                            }
                        }
                    },
                    RecordEntry::Spread { value, span } => {
                        fields.push(CallArg { name: None, ty: None, value, span });
                    },
                    RecordEntry::Keyed { .. } => {
                        proof {
                            assert(has_keyed_entry(before));
                            assert(false);
                        }
                        return None;
                    },
                    RecordEntry::Positional { span } => {
                        self.diagnostics.push(Diagnostic::error(
                            "unexpected_token",
                            String::from_str("cannot mix construction fields and positional shape fields"),
                            span,
                        ));
                        return None;
                    },
                }
            }
        } else if has_keyed {
            while entries.len() > 0
                invariant
                    self.follows(*old(self)),
                    g == (simple_brace_entries(old(self).tokens@, old(self).index as int) is Some),
                    es == simple_brace_entries(old(self).tokens@, old(self).index as int)->Some_0,
                    close == simple_brace_close(old(self).tokens@, old(self).index as int, es),
                    self.index > old(self).index,
                    self.index == end_index,
                    fields@.len() == 0,
                    forall|i: int| 0 <= i < values@.len() ==> is_pair(#[trigger] values@[i]),
                    !has_named_entry(entries@),
                    g ==> brace_entries_have(es, 2) && !brace_entries_have(es, 0),
                decreases entries@.len(),
            {
                let ghost before = entries@;
                let entry = entries.remove(0);
                proof {
                    assert(before[0] == entry);
                    if has_named_entry(entries@) {
                        let w = choose|i: int| 0 <= i < entries@.len() && (entries@[i] is Field || entries@[i] is Spread);
                        assert(before[w + 1] == entries@[w]);
                    }
                }
                match entry {
                    RecordEntry::Keyed { key, value, span } => {
                        values.push(Expr::TupleLiteral { items: vec![key, value], span });
                    },
                    RecordEntry::Positional { span } => {
                        self.diagnostics.push(Diagnostic::error(
                            "unexpected_token",
                            String::from_str("cannot mix keyed entries and positional brace values"),
                            span,
                        ));
                        return None;
                    },
                    RecordEntry::Field { .. } | RecordEntry::Spread { .. } => {
                        proof {
                            assert(has_named_entry(before));
                            assert(false);
                        }
                        return None;
                    },
                }
            }
        } else if entries.len() > 0 {
            self.diagnostics.push(Diagnostic::error(
                "positional_brace_construction",
                String::from_str("braces are for construction fields; use 'Type(...)' for positional constructors"),
                start.cover(end),
            ));
            return None;
        }
        Some(Expr::RecordLiteral { fields, values, span: start.cover(end) })
    }

    /// `callee.keyed([(k, v), ...])` when `record` is a brace payload of keyed
    /// entries only; otherwise `callee` and `record` are handed back.
    pub(crate) fn keyed_record_literal_call(&self, callee: Expr, record: Expr, start: Span) -> (r: Result<Expr, (Expr, Expr)>)
        ensures
            r matches Err((c, rec)) ==> c == callee && rec == record,
            r is Ok <==> (record matches Expr::RecordLiteral { fields, values, .. } && fields@.len() == 0
                && values@.len() > 0),
            r matches Ok(e) ==> e is Call && !e->Call_uses_brace_syntax && e->Call_args@.len() == 1
                && (*e->Call_callee) is Member && *(*e->Call_callee)->Member_receiver == callee
                && (*e->Call_callee)->Member_name@ == "keyed"@
                && e->Call_args@[0].value == (Expr::ListLiteral { items: record->RecordLiteral_values,
                    span: record->RecordLiteral_span }),
    {
        match record {
            Expr::RecordLiteral { fields, values, span: record_span } => {
                if fields.len() > 0 || values.len() == 0 {
                    return Err((callee, Expr::RecordLiteral { fields, values, span: record_span }));
                }
                let member_span = callee.span().cover(record_span);
                Ok(Expr::Call {
                    callee: Box::new(Expr::Member {
                        receiver: Box::new(callee),
                        name: String::from_str("keyed"),
                        span: member_span,
                    }),
                    args: vec![CallArg {
                        name: None,
                        ty: None,
                        value: Expr::ListLiteral { items: values, span: record_span },
                        span: record_span,
                    }],
                    uses_brace_syntax: false,
                    span: start.cover(record_span),
                })
            },
            other => Err((callee, other)),
        }
    }

    /// Whether `Iface with Other { def ... }` (an anonymous interface
    /// implementation) starts here; looks ahead without moving.
    pub(crate) fn is_anonymous_interface_expr_start(&self) -> (b: bool)
        requires
            self.wf(),
        ensures
            b ==> self.cur_kind() == TokenKind::Identifier || self.cur_kind() == TokenKind::LParen
                || self.cur_kind() == TokenKind::LBrace,
            self.cur_kind() == TokenKind::Identifier && self.kind_at(self.index + 1) == TokenKind::LBrace
                && !(self.index + 3 < self.tokens@.len() && self.kind_at(self.index + 3) == TokenKind::Eq)
                && self.kind_at(crate::parser::newline_run(self.tokens@, self.index + 2)) == TokenKind::Keyword(Keyword::Def) ==> b,
            (self.cur_kind() == TokenKind::Identifier && (self.kind_at(self.index + 1) == TokenKind::Dot
                || self.kind_at(self.index + 1) == TokenKind::LParen || (self.kind_at(self.index + 1) == TokenKind::LBracket
                && self.kind_at(self.index + 2) == TokenKind::Integer))) ==> !b,
    {
        proof {
            if self.cur_kind() == TokenKind::Identifier && self.kind_at(self.index + 1) == TokenKind::LBracket
                && self.kind_at(self.index + 2) == TokenKind::Integer {
                assert(crate::parser::newline_run(self.tokens@, self.index as int) == self.index);
                assert(crate::parser::newline_run(self.tokens@, self.index + 2) == self.index + 2);
            }
            if self.cur_kind() == TokenKind::Identifier {
                assert(crate::parser::newline_run(self.tokens@, self.index as int) == self.index);
            }
        }
        if !self.can_start_type_ref() {
            return false;
        }
        let mut parser = self.lookahead_at(self.index);
        if parser.parse_type_ref().is_none() {
            return false;
        }
        while parser.match_keyword(Keyword::With)
            invariant
                parser.wf(),
                parser.tokens == self.tokens,
                (self.cur_kind() == TokenKind::Identifier && (self.kind_at(self.index + 1) == TokenKind::Dot
                    || self.kind_at(self.index + 1) == TokenKind::LParen || (self.kind_at(self.index + 1) == TokenKind::LBracket
                    && self.kind_at(self.index + 2) == TokenKind::Integer))) ==> parser.index == self.index + 1,
                self.cur_kind() == TokenKind::Identifier && self.kind_at(self.index + 1) == TokenKind::LBrace
                    && !(self.index + 3 < self.tokens@.len() && self.kind_at(self.index + 3) == TokenKind::Eq)
                    && self.kind_at(crate::parser::newline_run(self.tokens@, self.index + 2)) == TokenKind::Keyword(Keyword::Def) ==> parser.index == self.index + 1,
            decreases parser.remaining(),
        {
            if parser.parse_type_ref().is_none() {
                return false;
            }
        }
        if !parser.at(TokenKind::LBrace) {
            return false;
        }
        let n = parser.tokens.len();
        if parser.index + 2 < n && parser.tokens[parser.index + 2].kind == TokenKind::Eq {
            return false;
        }
        let mut lookahead = parser.index + 1;
        while lookahead < n && parser.tokens[lookahead].kind == TokenKind::Newline
            invariant
                n == parser.tokens@.len(),
                parser.tokens == self.tokens,
                parser.index + 1 <= lookahead,
                forall|k: int| parser.index + 1 <= k < lookahead ==> self.tokens@[k].kind == TokenKind::Newline,
            decreases n - lookahead,
        {
            lookahead = lookahead + 1;
        }
        proof {
            if lookahead < n {
                crate::parser::lemma_newline_run(self.tokens@, parser.index + 1, lookahead as int);
            }
        }
        if lookahead < n {
            match parser.tokens[lookahead].kind {
                TokenKind::At | TokenKind::Keyword(Keyword::Hidden) | TokenKind::Keyword(Keyword::Def) => true,
                _ => false,
            }
        } else {
            false
        }
    }

    /// `Iface with Other { def ... }`: an object implementing interfaces.
    pub(crate) fn parse_anonymous_interface_expr(&mut self) -> (r: Option<Expr>)
        requires
            old(self).wf(),
        ensures
            r is None ==> final(self).diagnostics@.len() > old(self).diagnostics@.len()
                || final(self).silent_failures@ > old(self).silent_failures@,
            final(self).follows(*old(self)),
            r is Some ==> final(self).index > old(self).index,
        decreases old(self).bound@, old(self).remaining(), 1nat,
    {
        let first = self.parse_type_ref()?;
        let start = first.span();
        let mut interfaces = vec![first];
        while self.match_keyword(Keyword::With)
            invariant
                self.follows(*old(self)),
                self.index > old(self).index,
            decreases self.remaining(),
        {
            interfaces.push(self.parse_type_ref()?);
        }
        self.consume(TokenKind::LBrace, "expected '{' after anonymous interface list")?;
        self.skip_newlines();
        let mut methods = Vec::new();
        while !self.at(TokenKind::RBrace) && !self.at(TokenKind::Eof)
            invariant
                self.follows(*old(self)),
                self.index > old(self).index,
            decreases self.remaining(),
        {
            let annotations = self.parse_annotations()?;
            let visibility = self.parse_visibility();
            if !self.at_keyword(Keyword::Def) && !self.starts_callable_decl() {
                self.error_at_current("unexpected_token", "expected anonymous interface member");
                return None;
            }
            methods.push(self.parse_method_decl(annotations, visibility, false)?);
            self.skip_newlines();
        }
        let end = self.consume(TokenKind::RBrace, "expected '}' after anonymous interface body")?;
        Some(Expr::AnonymousInterface { interfaces, methods, span: start.cover(end) })
    }

    /// A `{ ... }` block, or one statement on the same line.
    pub(crate) fn parse_block_or_inline_stmt_body(&mut self, owner: &str) -> (r: Option<Block>)
        requires
            old(self).wf(),
        ensures
            r is None ==> final(self).diagnostics@.len() > old(self).diagnostics@.len()
                || final(self).silent_failures@ > old(self).silent_failures@,
            final(self).follows(*old(self)),
            r is Some ==> final(self).index > old(self).index,
        decreases old(self).bound@, old(self).remaining(), 28nat,
    {
        if self.at(TokenKind::LBrace) {
            return self.parse_block();
        }
        if self.at(TokenKind::Newline) {
            let message = owner_message(owner, " body must stay on the same line unless it uses '{ ... }'");
            self.error_at_current_owned("unexpected_token", message);
            return None;
        }
        if self.at(TokenKind::Eof) {
            let message = concat_str(String::from_str("expected statement after "), owner);
            self.error_at_current_owned("expected_statement", message);
            return None;
        }
        let stmt = self.parse_stmt()?;
        let span = stmt.span();
        Some(Block { statements: vec![stmt], span })
    }

    /// The `{ ... }` after an `if` condition; `then` gets its own report.
    pub(crate) fn parse_if_body_block(&mut self) -> (r: Option<Block>)
        requires
            old(self).wf(),
        ensures
            r is None ==> final(self).diagnostics@.len() > old(self).diagnostics@.len()
                || final(self).silent_failures@ > old(self).silent_failures@,
            final(self).follows(*old(self)),
            r is Some ==> final(self).index > old(self).index,
        decreases old(self).bound@, old(self).remaining(), 2nat,
    {
        if self.at(TokenKind::LBrace) {
            return self.parse_block();
        }
        let message = if self.at(TokenKind::Identifier) && string_is(&self.current().lexeme, "then") {
            "'then' is unsupported; use 'if condition { ... }'"
        } else {
            "expected '{' after if condition"
        };
        self.error_at_current("unexpected_token", message);
        None
    }

    /// A `{ ... }` block, or one expression on the same line.
    pub(crate) fn parse_block_or_inline_expr_body(&mut self, owner: &str) -> (r: Option<Block>)
        requires
            old(self).wf(),
        ensures
            r is None ==> final(self).diagnostics@.len() > old(self).diagnostics@.len()
                || final(self).silent_failures@ > old(self).silent_failures@,
            final(self).follows(*old(self)),
            r is Some ==> final(self).index > old(self).index,
        decreases old(self).bound@, old(self).remaining(), 24nat,
    {
        if self.at(TokenKind::LBrace) {
            return self.parse_block();
        }
        if self.at(TokenKind::Newline) {
            let message = owner_message(owner, " body must stay on the same line unless it uses '{ ... }'");
            self.error_at_current_owned("unexpected_token", message);
            return None;
        }
        if self.at(TokenKind::Eof) {
            let message = concat_str(String::from_str("expected expression after "), owner);
            self.error_at_current_owned("expected_expression", message);
            return None;
        }
        let expr = self.parse_expr()?;
        let span = expr.span();
        Some(Block { statements: vec![Stmt::Expr(ExprStmt { expr, span })], span })
    }

    /// The head of a trailing lambda inside `{`, then its statements up to
    /// the `}`; gives up (rewound) when the head is not on the line of `{`.
    pub(crate) fn parse_trailing_lambda_block_arg(&mut self, open_span: Span) -> (r: Option<Expr>)
        requires
            old(self).wf(),
        ensures
            final(self).follows(*old(self)),
            r is Some ==> final(self).index > old(self).index,
            old(self).cur_kind() == TokenKind::LBrace && old(self).kind_at(old(self).index + 1) == TokenKind::Identifier
                && old(self).kind_at(old(self).index + 2) == TokenKind::FatArrow
                && old(self).tokens@[old(self).index + 1].span.start_pos.line == open_span.start_pos.line
                && old(self).kind_at(crate::parser::newline_run(old(self).tokens@, old(self).index + 3)) == TokenKind::RBrace
                ==> (r matches Some(Expr::Block { body, .. }) && body.statements@.len() == 1
                    && final(self).index == crate::parser::newline_run(old(self).tokens@, old(self).index + 3) + 1),
        decreases old(self).bound@, old(self).remaining(), 1nat,
    {
        let checkpoint = self.checkpoint();
        let start = self.consume(TokenKind::LBrace, "expected '{'")?;
        if self.current_span().start_pos.line != open_span.start_pos.line {
            self.restore(checkpoint);
            return None;
        }
        let (params, lambda_start) = match self.parse_lambda_head() {
            Some(head) => head,
            None => {
                self.restore(checkpoint);
                return None;
            },
        };
        self.skip_newlines();
        let mut statements: Vec<Stmt> = Vec::new();
        while !self.at(TokenKind::RBrace) && !self.at(TokenKind::Eof)
            invariant
                self.follows(*old(self)),
                self.index > old(self).index,
                old(self).cur_kind() == TokenKind::LBrace && old(self).kind_at(old(self).index + 1) == TokenKind::Identifier
                    && old(self).kind_at(old(self).index + 2) == TokenKind::FatArrow
                    && old(self).tokens@[old(self).index + 1].span.start_pos.line == open_span.start_pos.line
                    && old(self).kind_at(crate::parser::newline_run(old(self).tokens@, old(self).index + 3)) == TokenKind::RBrace
                    ==> self.index == crate::parser::newline_run(old(self).tokens@, old(self).index + 3),
            decreases self.remaining(),
        {
            match self.parse_stmt() {
                Some(stmt) => statements.push(stmt),
                None => self.synchronize_stmt(),
            }
            self.skip_newlines();
        }
        let end = self.consume(TokenKind::RBrace, "expected '}' after block")?;
        let first_span = if statements.len() > 0 { statements[0].span() } else { end };
        let last_span = if statements.len() > 0 { statements[statements.len() - 1].span() } else { end };
        let body_span = first_span.cover(last_span);
        let lambda_span = lambda_start.cover(body_span);
        let lambda = Expr::Lambda {
            params,
            body: LambdaBody::Block(Block { statements, span: body_span }),
            span: lambda_span,
        };
        let block_span = start.cover(end);
        Some(Expr::Block {
            body: Block {
                statements: vec![Stmt::Expr(ExprStmt { expr: lambda, span: lambda_span })],
                span: block_span,
            },
            span: block_span,
        })
    }

    /// The parameters of a lambda and the arrow after them: `x =>`,
    /// `x T =>` (reported: needs parentheses), `(a, b T) =>` or a rejected
    /// `let (...)` form; rewinds and gives up when no arrow follows.
    pub(crate) fn parse_lambda_head(&mut self) -> (r: Option<(Vec<LambdaParam>, Span)>)
        requires
            old(self).wf(),
        ensures
            final(self).follows(*old(self)),
            r is Some ==> final(self).index > old(self).index,
            old(self).cur_kind() != TokenKind::Keyword(Keyword::Let) && old(self).cur_kind() != TokenKind::Identifier
                && old(self).cur_kind() != TokenKind::LParen ==> r is None && final(self).index == old(self).index
                && final(self).diagnostics == old(self).diagnostics,
            old(self).cur_kind() == TokenKind::Identifier && (old(self).kind_at(old(self).index + 1) == TokenKind::FatArrow
                || old(self).kind_at(old(self).index + 1) == TokenKind::Arrow)
                ==> (r matches Some((params, _)) && params@.len() == 1 && final(self).index == old(self).index + 2),
    {
        let checkpoint = self.checkpoint();
        if self.match_keyword(Keyword::Let) {
            let start = self.previous_span();
            let param = match self.parse_lambda_destructure_param(start, 0) {
                Some(param) => param,
                None => {
                    self.restore(checkpoint);
                    return None;
                },
            };
            if !self.match_lambda_arrow() {
                self.restore(checkpoint);
                return None;
            }
            self.diagnostics.push(Diagnostic::error(
                "invalid_lambda_params",
                String::from_str(
                    "lambda parameters cannot use 'let' destructuring; name the parameter and destructure inside the lambda body",
                ),
                param.span,
            ));
            return Some((vec![param], start));
        }

        if self.at(TokenKind::Identifier) {
            let (name, start) = self.expect_identifier("expected lambda parameter")?;
            if self.match_lambda_arrow() {
                return Some((vec![LambdaParam { name, ty: None, destructure: None, span: start }], start));
            }
            let ty_checkpoint = self.checkpoint();
            if self.can_start_type_ref() {
                if let Some(ty) = self.parse_primary_type_ref() {
                    if self.match_lambda_arrow() {
                        let ty_span = ty.span();
                        self.diagnostics.push(Diagnostic::error(
                            "invalid_lambda_params",
                            String::from_str(
                                "typed single-parameter lambdas must use parentheses; write '(x T) => ...'",
                            ),
                            start.cover(ty_span),
                        ));
                        return Some((
                            vec![LambdaParam { name, ty: Some(ty), destructure: None, span: start.cover(ty_span) }],
                            start,
                        ));
                    }
                }
                self.restore(ty_checkpoint);
            }
            self.restore(checkpoint);
            return None;
        }

        if !self.match_token(TokenKind::LParen) {
            return None;
        }
        let start = self.previous_span();
        let mut params: Vec<LambdaParam> = Vec::new();
        self.skip_newlines();
        if !self.at(TokenKind::RParen) {
            match self.parse_lambda_param(params.len()) {
                Some(param) => params.push(param),
                None => {
                    self.restore(checkpoint);
                    return None;
                },
            }
            while self.match_token(TokenKind::Comma)
                invariant
                    self.follows(*old(self)),
                    self.index > old(self).index,
                    checkpoint.index == old(self).index,
                    checkpoint.diagnostics_len == old(self).diagnostics@.len(),
                    old(self).cur_kind() == TokenKind::LParen,
                decreases self.remaining(),
            {
                self.skip_newlines();
                match self.parse_lambda_param(params.len()) {
                    Some(param) => params.push(param),
                    None => {
                        self.restore(checkpoint);
                        return None;
                    },
                }
            }
        }
        self.skip_newlines();
        let close = match self.consume(TokenKind::RParen, "expected ')' after lambda parameters") {
            Some(close) => close,
            None => {
                self.restore(checkpoint);
                return None;
            },
        };
        if !self.match_lambda_arrow() {
            self.restore(checkpoint);
            return None;
        }
        let mut simple_count: usize = 0;
        let mut typed_count: usize = 0;
        let mut k: usize = 0;
        while k < params.len()
            invariant
                k <= params@.len(),
                simple_count <= k,
                typed_count <= simple_count,
            decreases params@.len() - k,
        {
            if params[k].destructure.is_none() {
                simple_count = simple_count + 1;
                if params[k].ty.is_some() {
                    typed_count = typed_count + 1;
                }
            }
            k = k + 1;
        }
        if typed_count > 0 && typed_count < simple_count {
            self.diagnostics.push(Diagnostic::error(
                "invalid_lambda_params",
                String::from_str("lambda parameters must be either all typed or all untyped"),
                start.cover(close),
            ));
        }
        Some((params, start))
    }

    /// `=>`; `->` is accepted as well and reported as outdated.
    pub(crate) fn match_lambda_arrow(&mut self) -> (b: bool)
        requires
            old(self).wf(),
        ensures
            final(self).follows(*old(self)),
            b <==> (old(self).cur_kind() == TokenKind::FatArrow || old(self).cur_kind() == TokenKind::Arrow),
            b ==> final(self).index == old(self).index + 1,
            !b ==> final(self).index == old(self).index,
    {
        if self.match_token(TokenKind::FatArrow) {
            return true;
        }
        if self.match_token(TokenKind::Arrow) {
            let span = self.previous_span();
            self.diagnostics.push(Diagnostic::error(
                "old_lambda_arrow",
                String::from_str("lambda syntax uses '=>'; replace '->' with '=>'"),
                span,
            ));
            return true;
        }
        false
    }

    /// Whether a trailing `{ ... }` block is one lambda expression; when it
    /// is, a lambda head on a later line than the `{` is reported.
    pub(crate) fn validate_trailing_lambda_block(&mut self, block: &Block, open_span: Span) -> (b: bool)
        requires
            old(self).wf(),
        ensures
            b == (block.statements@.len() == 1 && block.statements@[0] is Expr
                && block.statements@[0]->Expr_0.expr is Lambda),
            final(self).diagnostics@.len() == old(self).diagnostics@.len() + (if b
                && block.statements@[0]->Expr_0.expr->Lambda_span.start_pos.line != open_span.start_pos.line {
                1int
            } else {
                0int
            }),
            final(self).wf(),
            final(self).tokens == old(self).tokens,
            final(self).bound == old(self).bound,
            final(self).silent_failures == old(self).silent_failures,
            final(self).index == old(self).index,
            final(self).diagnostics@.len() >= old(self).diagnostics@.len(),
            final(self).follows(*old(self)),
    {
        if block.statements.len() != 1 {
            return false;
        }
        let span = match &block.statements[0] {
            Stmt::Expr(expr_stmt) => match &expr_stmt.expr {
                Expr::Lambda { span, .. } => *span,
                _ => return false,
            },
            _ => return false,
        };
        if span.start_pos.line != open_span.start_pos.line {
            self.diagnostics.push(Diagnostic::error(
                "invalid_trailing_lambda",
                String::from_str("trailing lambda parameters must start on the same line as '{'"),
                span,
            ));
        }
        true
    }
}

} // verus!
