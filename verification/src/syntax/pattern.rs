//! Patterns, and the refutable clauses of `let`, `expect` and `if let`.
use vstd::prelude::*;
use super::stmt::same_line_message;
use super::tree::{pattern_span, Expr, IfConditionClause, Pattern, RefutableClause};
use super::Parser;
use crate::lexer::{Keyword, Token, TokenKind};
use crate::source::Span;
use crate::text::{concat_str, concat_strings, is_ascii_upper, starts_upper, str_is};

verus! {

/// A token that can begin a pattern: a name, a literal, or `(`.
pub open spec fn starts_pattern(kind: TokenKind) -> bool {
    kind == TokenKind::Identifier || kind == TokenKind::Integer || kind == TokenKind::Float
        || kind == TokenKind::String || kind == TokenKind::Keyword(Keyword::True)
        || kind == TokenKind::Keyword(Keyword::False) || kind == TokenKind::LParen
}

/// What a parsed pattern obeys: a bare lowercase name binds while a
/// capitalised one names a constructor, `name Type` tests appear only at the
/// outermost level (`depth` 0), a tuple has at least two elements, and a
/// constructor has a path.
pub open spec fn pattern_rules(p: Pattern, depth: int) -> bool {
    match p {
        Pattern::Binding { name, .. } => !(name@.len() > 0 && is_ascii_upper(name@[0])),
        Pattern::Type { .. } => depth == 0,
        Pattern::Tuple { elements, .. } => elements@.len() >= 2,
        Pattern::Constructor { path, .. } => path@.len() >= 1,
        _ => true,
    }
}

/// A name reads as a constructor when it starts with an ASCII capital.
pub open spec fn looks_like_constructor(name: Seq<char>) -> bool {
    name.len() > 0 && is_ascii_upper(name[0])
}

/// At `i`, a name other than `_` that nothing of a longer pattern follows:
/// no type, no `.` path and no `(` arguments.
pub open spec fn simple_name_pattern_at(tokens: Seq<Token>, i: int) -> bool {
    &&& tokens[i].kind == TokenKind::Identifier
    &&& tokens[i].lexeme@ != "_"@
    &&& tokens[i + 1].kind != TokenKind::Identifier && tokens[i + 1].kind != TokenKind::LBrace
    &&& tokens[i + 1].kind != TokenKind::Dot && tokens[i + 1].kind != TokenKind::LParen
}

/// From `i`: how many single-name arguments (`_` or a name, each followed
/// by `,` or the closing `)`) run up to that `)`; 0 when the tokens from `i`
/// are not such a run.
pub open spec fn simple_arg_count(tokens: Seq<Token>, i: int) -> nat
    decreases tokens.len() - i,
{
    if 0 <= i && i + 1 < tokens.len() && tokens[i].kind == TokenKind::Identifier {
        if tokens[i + 1].kind == TokenKind::RParen {
            1
        } else if tokens[i + 1].kind == TokenKind::Comma {
            let rest = simple_arg_count(tokens, i + 2);
            if rest > 0 {
                rest + 1
            } else {
                0
            }
        } else {
            0
        }
    } else {
        0
    }
}

/// The pattern that the single name at `j` spells: `_` a wildcard, a
/// capitalised name a constructor without arguments, any other name a
/// binding.
pub open spec fn arg_pattern_spelled(tokens: Seq<Token>, j: int, p: Pattern) -> bool {
    let t = tokens[j];
    if t.lexeme@ == "_"@ {
        p == Pattern::Wildcard { span: t.span }
    } else if looks_like_constructor(t.lexeme@) {
        p matches Pattern::Constructor { path, args, .. } && path@.len() == 1 && path@[0]@ == t.lexeme@
            && args@.len() == 0
    } else {
        p matches Pattern::Binding { name, span } && name@ == t.lexeme@ && span == t.span
    }
}

/// Whether a pattern name reads as a constructor: it starts with an ASCII
/// capital letter.
pub fn looks_like_constructor_pattern(name: &String) -> (b: bool)
    ensures
        b == (name@.len() > 0 && is_ascii_upper(name@[0])),
{
    starts_upper(name.as_str())
}

impl<'a> Parser<'a> {
    /// `pattern` marked as extracting (`pattern <- value`), keeping its span.
    pub(crate) fn wrap_extract_pattern(&self, pattern: Pattern) -> (p: Pattern)
        ensures
            p == (Pattern::Extract { inner: Box::new(pattern), span: pattern_span(pattern) }),
    {
        let span = pattern.span();
        Pattern::Extract { inner: Box::new(pattern), span }
    }

    /// A pattern followed by `=` (plain) or `<-` (extracting); gives back the
    /// pattern, wrapped when extracting, and the operator.
    pub(crate) fn parse_refutable_pattern_head(&mut self, owner: &str) -> (r: Option<(Pattern, &'static str)>)
        requires
            old(self).wf(),
        ensures
            r is None ==> final(self).diagnostics@.len() > old(self).diagnostics@.len()
                || final(self).silent_failures@ > old(self).silent_failures@,
            final(self).follows(*old(self)),
            r is Some ==> final(self).index > old(self).index,
            r matches Some((p, op)) ==> (op@ == "="@ || op@ == "<-"@),
            old(self).kind_at(crate::parser::newline_run(old(self).tokens@, old(self).index as int)) == TokenKind::Identifier && old(self).tokens@[crate::parser::newline_run(old(self).tokens@, old(self).index as int)].lexeme@ != "_"@
                && old(self).kind_at(crate::parser::newline_run(old(self).tokens@, old(self).index as int) + 1) == TokenKind::LParen
                && simple_name_pattern_at(old(self).tokens@, crate::parser::newline_run(old(self).tokens@, old(self).index as int) + 2)
                && !looks_like_constructor(old(self).tokens@[crate::parser::newline_run(old(self).tokens@, old(self).index as int) + 2].lexeme@)
                && old(self).kind_at(crate::parser::newline_run(old(self).tokens@, old(self).index as int) + 3) == TokenKind::RParen
                && old(self).kind_at(crate::parser::newline_run(old(self).tokens@, old(self).index as int) + 4) == TokenKind::Eq
                ==> (r matches Some((p, op)) && op@ == "="@ && (p matches Pattern::Constructor { path, args, .. } && path@.len() == 1
                    && path@[0]@ == old(self).tokens@[crate::parser::newline_run(old(self).tokens@, old(self).index as int)].lexeme@ && args@.len() == 1
                    && (args@[0] matches Pattern::Binding { name, .. } && name@ == old(self).tokens@[crate::parser::newline_run(old(self).tokens@, old(self).index as int) + 2].lexeme@)) && final(self).index == crate::parser::newline_run(old(self).tokens@, old(self).index as int) + 5
                    && final(self).diagnostics@ == old(self).diagnostics@),
    {
        let pattern = self.parse_pattern()?;
        if self.match_token(TokenKind::Eq) {
            proof { reveal_strlit("="); }
            return Some((pattern, "="));
        }
        if self.match_token(TokenKind::LeftArrow) {
            proof { reveal_strlit("<-"); }
            return Some((self.wrap_extract_pattern(pattern), "<-"));
        }
        let message = if str_is(owner, "if let") {
            "expected '=' or '<-' after if pattern"
        } else if str_is(owner, "let") {
            "expected '=' or '<-' after let pattern"
        } else if str_is(owner, "expect") {
            "expected '=' or '<-' after expect pattern"
        } else {
            "expected '=' or '<-' after pattern"
        };
        self.error_at_current("unexpected_token", message);
        None
    }

    pub(crate) fn parse_pattern(&mut self) -> (r: Option<Pattern>)
        requires
            old(self).wf(),
        ensures
            r is None ==> final(self).diagnostics@.len() > old(self).diagnostics@.len()
                || final(self).silent_failures@ > old(self).silent_failures@,
            final(self).follows(*old(self)),
            r is Some ==> final(self).index > old(self).index,
            r matches Some(p) ==> pattern_rules(p, 0),
            r is Some ==> starts_pattern(old(self).kind_at(crate::parser::newline_run(old(self).tokens@, old(self).index as int))),
            old(self).kind_at(crate::parser::newline_run(old(self).tokens@, old(self).index as int)) == TokenKind::Identifier && old(self).tokens@[crate::parser::newline_run(old(self).tokens@, old(self).index as int)].lexeme@ != "_"@
                && old(self).kind_at(crate::parser::newline_run(old(self).tokens@, old(self).index as int) + 1) == TokenKind::LParen
                && simple_name_pattern_at(old(self).tokens@, crate::parser::newline_run(old(self).tokens@, old(self).index as int) + 2)
                && !looks_like_constructor(old(self).tokens@[crate::parser::newline_run(old(self).tokens@, old(self).index as int) + 2].lexeme@)
                && old(self).kind_at(crate::parser::newline_run(old(self).tokens@, old(self).index as int) + 3) == TokenKind::RParen
                ==> (r matches Some(p) && (p matches Pattern::Constructor { path, args, .. } && path@.len() == 1
                    && path@[0]@ == old(self).tokens@[crate::parser::newline_run(old(self).tokens@, old(self).index as int)].lexeme@ && args@.len() == 1
                    && (args@[0] matches Pattern::Binding { name, .. } && name@ == old(self).tokens@[crate::parser::newline_run(old(self).tokens@, old(self).index as int) + 2].lexeme@)) && final(self).index == crate::parser::newline_run(old(self).tokens@, old(self).index as int) + 4
                    && final(self).diagnostics@ == old(self).diagnostics@),
    {
        let ghost l = crate::parser::newline_run(old(self).tokens@, old(self).index as int);
        let ghost single = old(self).kind_at(l) == TokenKind::Identifier && old(self).tokens@[l].lexeme@ != "_"@
            && old(self).kind_at(l + 1) == TokenKind::LParen && simple_name_pattern_at(old(self).tokens@, l + 2)
            && !looks_like_constructor(old(self).tokens@[l + 2].lexeme@) && old(self).kind_at(l + 3) == TokenKind::RParen;
        proof {
            if single {
                crate::parser::lemma_newline_run_bounded(old(self).tokens@, old(self).index as int);
                assert(simple_arg_count(old(self).tokens@, l + 2) == 1);
            }
        }
        let r = self.parse_pattern_at_depth(0);
        proof {
            if single {
                assert(arg_pattern_spelled(old(self).tokens@, l + 2 + 2 * 0, r->Some_0->Constructor_args@[0]));
            }
        }
        r
    }

    /// A pattern; at the outermost level `name Type` and `_ Type` are type
    /// tests.
    pub(crate) fn parse_pattern_at_depth(&mut self, depth: usize) -> (r: Option<Pattern>)
        requires
            old(self).wf(),
            depth + old(self).remaining() <= usize::MAX,
        ensures
            r is None ==> final(self).diagnostics@.len() > old(self).diagnostics@.len()
                || final(self).silent_failures@ > old(self).silent_failures@,
            final(self).follows(*old(self)),
            r is Some ==> final(self).index > old(self).index,
            r matches Some(p) ==> pattern_rules(p, depth as int),
            r is Some ==> starts_pattern(old(self).kind_at(crate::parser::newline_run(old(self).tokens@, old(self).index as int))),
            ({
                let l = crate::parser::newline_run(old(self).tokens@, old(self).index as int);
                let t = old(self).tokens@[l];
                let next = old(self).kind_at(l + 1);
                &&& t.kind == TokenKind::Identifier && t.lexeme@ == "_"@ && next != TokenKind::Identifier
                    && next != TokenKind::LBrace
                    ==> r == Some(Pattern::Wildcard { span: t.span }) && final(self).index == l + 1
                        && final(self).diagnostics@ == old(self).diagnostics@
                &&& simple_name_pattern_at(old(self).tokens@, l) && !looks_like_constructor(t.lexeme@)
                    ==> (r matches Some(Pattern::Binding { name, span }) && name@ == t.lexeme@ && span == t.span
                        && final(self).index == l + 1 && final(self).diagnostics@ == old(self).diagnostics@)
                &&& simple_name_pattern_at(old(self).tokens@, l) && looks_like_constructor(t.lexeme@)
                    ==> (r matches Some(Pattern::Constructor { path, args, .. }) && path@.len() == 1
                        && path@[0]@ == t.lexeme@ && args@.len() == 0 && final(self).index == l + 1
                        && final(self).diagnostics@ == old(self).diagnostics@)
                &&& t.kind == TokenKind::Identifier && t.lexeme@ != "_"@ && next == TokenKind::LParen
                    ==> (r matches Some(p) ==> (p matches Pattern::Constructor { path, .. } && path@.len() == 1
                        && path@[0]@ == t.lexeme@))
                &&& t.kind == TokenKind::Identifier && t.lexeme@ != "_"@ && next == TokenKind::LParen
                    && old(self).kind_at(l + 2) == TokenKind::RParen
                    ==> (r matches Some(Pattern::Constructor { path, args, .. }) && path@.len() == 1
                        && path@[0]@ == t.lexeme@ && args@.len() == 0 && final(self).index == l + 3)
                &&& t.kind == TokenKind::Identifier && t.lexeme@ != "_"@ && next == TokenKind::LParen
                    && simple_arg_count(old(self).tokens@, l + 2) > 0
                    ==> (r matches Some(Pattern::Constructor { path, args, .. }) && path@.len() == 1
                        && path@[0]@ == t.lexeme@ && args@.len() == simple_arg_count(old(self).tokens@, l + 2)
                        && (forall|k: int| 0 <= k < args@.len()
                            ==> arg_pattern_spelled(old(self).tokens@, l + 2 + 2 * k, #[trigger] args@[k]))
                        && final(self).index == l + 2 + 2 * args@.len()
                        && final(self).diagnostics@ == old(self).diagnostics@)
            }),
        decreases old(self).remaining(),
    {
        self.skip_newlines();
        match self.current_kind() {
            TokenKind::Identifier if self.is_placeholder_identifier() => {
                let start = self.current_span();
                self.advance();
                if depth == 0 && self.binding_type_starts_on_same_line(start) && (self.at(
                    TokenKind::Identifier,
                ) || self.at(TokenKind::LBrace)) {
                    let target = self.parse_type_ref()?;
                    let span = start.cover(target.span());
                    return Some(Pattern::Type { name: None, span, target });
                }
                Some(Pattern::Wildcard { span: start })
            },
            TokenKind::Integer => {
                let token = self.current_token();
                self.advance();
                Some(Pattern::Literal {
                    span: token.span,
                    value: Expr::Integer { raw: token.lexeme, span: token.span },
                })
            },
            TokenKind::Float => {
                let token = self.current_token();
                self.advance();
                Some(Pattern::Literal {
                    span: token.span,
                    value: Expr::Float { raw: token.lexeme, span: token.span },
                })
            },
            TokenKind::String => {
                let token = self.current_token();
                self.advance();
                Some(Pattern::Literal {
                    span: token.span,
                    value: Expr::String { raw: token.lexeme, span: token.span },
                })
            },
            TokenKind::Keyword(Keyword::True) | TokenKind::Keyword(Keyword::False) => {
                let span = self.current_span();
                let value = self.at_keyword(Keyword::True);
                self.advance();
                Some(Pattern::Literal { span, value: Expr::Bool { value, span } })
            },
            TokenKind::LParen => {
                let start = self.consume(TokenKind::LParen, "expected '('")?;
                if self.match_token(TokenKind::RParen) {
                    let end = self.previous_span();
                    let span = start.cover(end);
                    return Some(Pattern::Literal { span, value: Expr::Unit { span } });
                }
                let first = self.parse_pattern_at_depth(depth + 1)?;
                if !self.match_token(TokenKind::Comma) {
                    self.consume(TokenKind::RParen, "expected ')' after pattern")?;
                    return Some(first);
                }
                let mut elements = vec![first];
                loop
                    invariant
                        self.follows(*old(self)),
                        self.index > old(self).index,
                        depth + old(self).remaining() <= usize::MAX,
                        elements@.len() >= 1,
                        old(self).kind_at(crate::parser::newline_run(old(self).tokens@, old(self).index as int)) == TokenKind::LParen,
                    ensures
                        self.follows(*old(self)),
                        self.index > old(self).index,
                        elements@.len() >= 2,
                    decreases self.remaining(),
                {
                    elements.push(self.parse_pattern_at_depth(depth + 1)?);
                    if !self.match_token(TokenKind::Comma) {
                        break;
                    }
                }
                let end = self.consume(TokenKind::RParen, "expected ')' after tuple pattern")?;
                Some(Pattern::Tuple { elements, span: start.cover(end) })
            },
            TokenKind::Identifier => {
                let (name, start) = self.expect_identifier("expected match pattern")?;
                if depth == 0 && self.binding_type_starts_on_same_line(start) && (self.at(
                    TokenKind::Identifier,
                ) || self.at(TokenKind::LBrace)) {
                    let target = self.parse_type_ref()?;
                    let span = start.cover(target.span());
                    return Some(Pattern::Type { name: Some(name), span, target });
                }
                let mut path = vec![name.clone()];
                let mut end = start;
                while self.match_token(TokenKind::Dot)
                    invariant
                        self.follows(*old(self)),
                        self.index > old(self).index,
                        path@.len() >= 1,
                        path@[0]@ == old(self).tokens@[crate::parser::newline_run(old(self).tokens@, old(self).index as int)].lexeme@,
                        old(self).kind_at(crate::parser::newline_run(old(self).tokens@, old(self).index as int)) == TokenKind::Identifier,
                        old(self).tokens@[crate::parser::newline_run(old(self).tokens@, old(self).index as int)].lexeme@ != "_"@,
                        old(self).kind_at(crate::parser::newline_run(old(self).tokens@, old(self).index as int) + 1) != TokenKind::Dot ==> self.index == crate::parser::newline_run(old(self).tokens@, old(self).index as int) + 1
                            && path@.len() == 1
                            && self.diagnostics@ == old(self).diagnostics@,
                    decreases self.remaining(),
                {
                    let (segment, segment_span) = self.expect_identifier("expected identifier after '.'")?;
                    path.push(segment);
                    end = end.cover(segment_span);
                }
                let ghost simple_args = old(self).kind_at(crate::parser::newline_run(old(self).tokens@, old(self).index as int) + 1) == TokenKind::LParen
                    && simple_arg_count(old(self).tokens@, crate::parser::newline_run(old(self).tokens@, old(self).index as int) + 2) > 0;
                if self.match_token(TokenKind::LParen) {
                    let mut args: Vec<Pattern> = Vec::new();
                    if !self.at(TokenKind::RParen) {
                        loop
                            invariant_except_break
                                simple_args ==> self.index == crate::parser::newline_run(old(self).tokens@, old(self).index as int) + 2 + 2 * args@.len()
                                    && args@.len() < simple_arg_count(old(self).tokens@, crate::parser::newline_run(old(self).tokens@, old(self).index as int) + 2)
                                    && simple_arg_count(old(self).tokens@, self.index as int) + args@.len()
                                        == simple_arg_count(old(self).tokens@, crate::parser::newline_run(old(self).tokens@, old(self).index as int) + 2),
                            invariant
                                self.follows(*old(self)),
                                self.index > old(self).index,
                                depth + old(self).remaining() <= usize::MAX,
                                old(self).kind_at(crate::parser::newline_run(old(self).tokens@, old(self).index as int)) == TokenKind::Identifier,
                                old(self).tokens@[crate::parser::newline_run(old(self).tokens@, old(self).index as int)].lexeme@ != "_"@,
                                old(self).kind_at(crate::parser::newline_run(old(self).tokens@, old(self).index as int) + 1) == TokenKind::LParen
                                    ==> old(self).kind_at(crate::parser::newline_run(old(self).tokens@, old(self).index as int) + 2) != TokenKind::RParen,
                                !simple_name_pattern_at(old(self).tokens@, crate::parser::newline_run(old(self).tokens@, old(self).index as int)),
                                simple_args == (old(self).kind_at(crate::parser::newline_run(old(self).tokens@, old(self).index as int) + 1) == TokenKind::LParen
                                    && simple_arg_count(old(self).tokens@, crate::parser::newline_run(old(self).tokens@, old(self).index as int) + 2) > 0),
                                simple_args ==> self.diagnostics@ == old(self).diagnostics@ && forall|k: int| 0 <= k < args@.len()
                                    ==> arg_pattern_spelled(old(self).tokens@, crate::parser::newline_run(old(self).tokens@, old(self).index as int) + 2 + 2 * k, #[trigger] args@[k]),
                            ensures
                                self.follows(*old(self)),
                                simple_args ==> args@.len() == simple_arg_count(old(self).tokens@, crate::parser::newline_run(old(self).tokens@, old(self).index as int) + 2)
                                    && self.index == crate::parser::newline_run(old(self).tokens@, old(self).index as int) + 1 + 2 * args@.len()
                                    && self.tokens@[self.index as int].kind == TokenKind::RParen
                                    && self.diagnostics@ == old(self).diagnostics@ && forall|k: int| 0 <= k < args@.len()
                                    ==> arg_pattern_spelled(old(self).tokens@, crate::parser::newline_run(old(self).tokens@, old(self).index as int) + 2 + 2 * k, #[trigger] args@[k]),
                            decreases self.remaining(),
                        {
                            let ghost j = self.index as int;
                            let ghost args_before = args@;
                            proof {
                                if simple_args {
                                    assert(self.tokens@[j].kind == TokenKind::Identifier);
                                    assert(crate::parser::newline_run(self.tokens@, j) == j);
                                }
                            }
                            args.push(self.parse_pattern_at_depth(depth + 1)?);
                            proof {
                                if simple_args {
                                    assert(arg_pattern_spelled(old(self).tokens@, j, args@[args_before.len() as int]));
                                    assert forall|k: int| 0 <= k < args@.len() implies
                                        arg_pattern_spelled(old(self).tokens@, crate::parser::newline_run(old(self).tokens@, old(self).index as int) + 2 + 2 * k, #[trigger] args@[k]) by {
                                        if k < args_before.len() {
                                            assert(args@[k] == args_before[k]);
                                        }
                                    }
                                }
                            }
                            if !self.match_token(TokenKind::Comma) {
                                break;
                            }
                        }
                    }
                    let close = self.consume(TokenKind::RParen, "expected ')' after constructor pattern")?;
                    return Some(Pattern::Constructor { path, args, span: start.cover(close) });
                }
                if path.len() == 1 && !looks_like_constructor_pattern(&name) {
                    Some(Pattern::Binding { name, span: start })
                } else {
                    Some(Pattern::Constructor { path, args: Vec::new(), span: start.cover(end) })
                }
            },
            _ => {
                self.error_at_current("expected_pattern", "expected match pattern");
                None
            },
        }
    }

    /// `Pattern = value` or `Pattern <- value`; the value takes no trailing
    /// block argument.
    pub(crate) fn parse_refutable_clause(&mut self, owner: &str) -> (r: Option<RefutableClause>)
        requires
            old(self).wf(),
        ensures
            r is None ==> final(self).diagnostics@.len() > old(self).diagnostics@.len()
                || final(self).silent_failures@ > old(self).silent_failures@,
            final(self).follows(*old(self)),
            r is Some ==> final(self).index > old(self).index,
        decreases old(self).bound@, old(self).remaining(), 1nat,
    {
        let (pattern, operator) = self.parse_refutable_pattern_head(owner)?;
        if !str_is(operator, "=") && self.at(TokenKind::Newline) {
            self.error_at_current_owned("expected_expression", same_line_message(operator));
            return None;
        }
        let value = self.parse_expr_without_trailing_block_call()?;
        let span = pattern.span().cover(value.span());
        Some(RefutableClause { pattern, value, span })
    }

    /// Like `parse_refutable_clause`, but the value is cut at the end of the
    /// `if` condition (`&&`, newline or `{`).
    pub(crate) fn parse_if_condition_refutable_clause(&mut self, owner: &str) -> (r: Option<RefutableClause>)
        requires
            old(self).wf(),
            super::holds_if(old(self).tokens@),
        ensures
            r is None ==> final(self).diagnostics@.len() > old(self).diagnostics@.len()
                || final(self).silent_failures@ > old(self).silent_failures@,
            final(self).follows(*old(self)),
            r is Some ==> final(self).index > old(self).index,
        decreases old(self).bound@, old(self).remaining(), 1nat,
    {
        let (pattern, operator) = self.parse_refutable_pattern_head(owner)?;
        if !str_is(operator, "=") && self.at(TokenKind::Newline) {
            self.error_at_current_owned("expected_expression", same_line_message(operator));
            return None;
        }
        let value = self.parse_if_condition_expr()?;
        let span = pattern.span().cover(value.span());
        Some(RefutableClause { pattern, value, span })
    }

    /// `{ clause ... }`: at least one refutable clause per line.
    pub(crate) fn parse_refutable_clause_block(&mut self, owner: &str) -> (r: Option<(Vec<RefutableClause>, Span)>)
        requires
            old(self).wf(),
        ensures
            r is None ==> final(self).diagnostics@.len() > old(self).diagnostics@.len()
                || final(self).silent_failures@ > old(self).silent_failures@,
            final(self).follows(*old(self)),
            r is Some ==> final(self).index > old(self).index,
        decreases old(self).bound@, old(self).remaining(), 1nat,
    {
        let open_message = if str_is(owner, "if let") {
            "expected '{' after if let"
        } else if str_is(owner, "let") {
            "expected '{' after let"
        } else if str_is(owner, "expect") {
            "expected '{' after expect"
        } else {
            "expected '{' before clause block"
        };
        let open = self.consume(TokenKind::LBrace, open_message)?;
        self.skip_newlines();
        let mut clauses = Vec::new();
        while !self.at(TokenKind::RBrace) && !self.at(TokenKind::Eof)
            invariant
                self.follows(*old(self)),
                self.index > old(self).index,
            decreases self.remaining(),
        {
            clauses.push(self.parse_refutable_clause(owner)?);
            self.skip_newlines();
        }
        if clauses.len() == 0 {
            let message = concat_str(
                String::from_str(owner),
                " clause block must contain at least one 'PATTERN = value' or 'PATTERN <- value' clause",
            );
            self.error_at_current_owned("unexpected_token", message);
            return None;
        }
        let close_message = if str_is(owner, "if let") {
            "expected '}' after if let clause block"
        } else if str_is(owner, "let") {
            "expected '}' after let clause block"
        } else if str_is(owner, "expect") {
            "expected '}' after expect clause block"
        } else {
            "expected '}' after clause block"
        };
        let close = self.consume(TokenKind::RBrace, close_message)?;
        Some((clauses, open.cover(close)))
    }

    /// `&& cond`, `&& let clause` and `&& let { clauses }` after the first
    /// clause of an `if`, appended to `clauses`.
    pub(crate) fn parse_if_condition_clauses(&mut self, clauses: Vec<IfConditionClause>) -> (r: Option<Vec<IfConditionClause>>)
        requires
            old(self).wf(),
            super::holds_if(old(self).tokens@),
        ensures
            r is None ==> final(self).diagnostics@.len() > old(self).diagnostics@.len()
                || final(self).silent_failures@ > old(self).silent_failures@,
            final(self).follows(*old(self)),
            old(self).cur_kind() != TokenKind::AndAnd ==> r == Some(clauses) && final(self).index == old(self).index,
            r matches Some(v) ==> v@.len() >= clauses@.len()
                && forall|i: int| 0 <= i < clauses@.len() ==> v@[i] == clauses@[i],
        decreases old(self).bound@, old(self).remaining(), 1nat,
    {
        let ghost first = clauses;
        let mut clauses = clauses;
        while self.match_token(TokenKind::AndAnd)
            invariant
                self.follows(*old(self)),
                super::holds_if(old(self).tokens@),
                self.index == old(self).index ==> clauses == first,
                old(self).cur_kind() != TokenKind::AndAnd ==> self.index == old(self).index,
                clauses@.len() >= first@.len(),
                forall|i: int| 0 <= i < first@.len() ==> clauses@[i] == first@[i],
            decreases self.remaining(),
        {
            if self.at(TokenKind::Newline) {
                self.error_at_current("expected_expression", "expected expression on same line after \"&&\"");
                return None;
            }
            if self.match_keyword(Keyword::Let) {
                if self.at(TokenKind::LBrace) {
                    let (grouped, _) = self.parse_refutable_clause_block("if let")?;
                    let mut grouped = grouped;
                    while grouped.len() > 0
                        invariant
                            self.follows(*old(self)),
                            self.index > old(self).index,
                            clauses@.len() >= first@.len(),
                            forall|i: int| 0 <= i < first@.len() ==> clauses@[i] == first@[i],
                        decreases grouped@.len(),
                    {
                        clauses.push(IfConditionClause::Let(grouped.remove(0)));
                    }
                    continue;
                }
                clauses.push(IfConditionClause::Let(self.parse_if_condition_refutable_clause("if let")?));
                continue;
            }
            clauses.push(IfConditionClause::Expr(self.parse_if_condition_expr()?));
        }
        Some(clauses)
    }

    /// One expression of an `if` condition, parsed on its own up to where
    /// the condition ends (`&&`, newline or `{`); tokens left over before
    /// that end are reported, and the cursor moves to the end.
    pub(crate) fn parse_if_condition_expr(&mut self) -> (r: Option<Expr>)
        requires
            old(self).wf(),
            super::holds_if(old(self).tokens@),
        ensures
            r is None ==> final(self).diagnostics@.len() > old(self).diagnostics@.len()
                || final(self).silent_failures@ > old(self).silent_failures@,
            final(self).follows(*old(self)),
            r is Some ==> final(self).index > old(self).index,
        decreases old(self).bound@, old(self).remaining(), 24nat,
    {
        let end = self.scan_if_condition_expr_end(self.index);
        if end == self.index {
            self.error_at_current("expected_expression", "expected expression");
            return None;
        }
        let n = self.tokens.len();
        let mut owned: Vec<Token> = Vec::new();
        let mut i = self.index;
        while i < end
            invariant
                self.wf(),
                n == self.tokens@.len(),
                self.index <= i <= end <= n,
                owned@.len() == i - self.index,
                forall|j: int| 0 <= j < owned@.len() ==> (#[trigger] owned@[j]).kind == self.tokens@[self.index + j].kind
                    && owned@[j].lexeme@.len() <= self.bound@,
            decreases end - i,
        {
            let token = &self.tokens[i];
            owned.push(Token { kind: token.kind, lexeme: token.lexeme.clone(), span: token.span });
            i = i + 1;
        }
        if end < n {
            let eof_span = self.tokens[end - 1].span;
            owned.push(Token { kind: TokenKind::Eof, lexeme: String::new(), span: eof_span });
        }
        proof {
            assert(owned@.len() <= self.remaining());
            assert(owned@[owned@.len() - 1].kind == TokenKind::Eof);
            assert forall|j: int| 0 <= j < owned@.len() implies #[trigger] owned@[j].lexeme@.len() <= self.bound@ by {}
        }
        let mut parser = Parser {
            tokens: owned.as_slice(),
            index: 0,
            diagnostics: Vec::new(),
            allow_trailing_block_call: false,
            allow_shape_update_operator: self.allow_shape_update_operator,
            bound: self.bound,
            silent_failures: Ghost(0),
        };
        let expr = match parser.parse_expr() {
            Some(expr) => expr,
            None => {
                proof {
                    self.silent_failures = Ghost(self.silent_failures@ + 1);
                }
                return None;
            },
        };
        if !parser.at(TokenKind::Eof) {
            let got = parser.current_token_string();
            let message = concat_strings(String::from_str("expected end of expression, got "), &got);
            parser.error_at_current_owned("unexpected_token", message);
        }
        self.diagnostics.append(&mut parser.diagnostics);
        self.index = if end < n { end } else { n - 1 };
        Some(expr)
    }
}

} // verus!
