//! Patterns of `match` cases, `let ... else` and `if let`.
use vstd::prelude::*;
use crate::ast::{Expr, Pattern};
use crate::lexer::{Keyword, Token, TokenKind};
use super::Parser;

verus! {

/// A token that can begin a pattern: a name, a literal, or `(`.
pub open spec fn starts_pattern(kind: TokenKind) -> bool {
    kind == TokenKind::Identifier || kind == TokenKind::Integer || kind == TokenKind::Float
        || kind == TokenKind::String || kind == TokenKind::Keyword(Keyword::True)
        || kind == TokenKind::Keyword(Keyword::False) || kind == TokenKind::LParen
}

/// What a parsed pattern obeys: `name Type` tests appear only at the
/// outermost level (`depth` 0), a tuple has at least two elements, and a
/// constructor has a path.
/// At `i`, a name other than `_` that nothing of a longer pattern follows:
/// no type, no `.` path and no `(` arguments.
pub open spec fn simple_name_pattern_at(tokens: Seq<Token>, i: int) -> bool {
    &&& tokens[i].kind == TokenKind::Identifier
    &&& tokens[i].lexeme@ != "_"@
    &&& tokens[i + 1].kind != TokenKind::Identifier && tokens[i + 1].kind != TokenKind::LBrace
    &&& tokens[i + 1].kind != TokenKind::Dot && tokens[i + 1].kind != TokenKind::LParen
}

/// From `i`: how many single-name arguments (`_` or a name, each followed
/// by `,` or the closing `)`) run up to that `)`; 0 when the tokens from `i`
/// are not such a run.
pub open spec fn simple_arg_count(tokens: Seq<Token>, i: int) -> nat
    decreases tokens.len() - i,
{
    if 0 <= i && i + 1 < tokens.len() && tokens[i].kind == TokenKind::Identifier {
        if tokens[i + 1].kind == TokenKind::RParen {
            1
        } else if tokens[i + 1].kind == TokenKind::Comma {
            let rest = simple_arg_count(tokens, i + 2);
            if rest > 0 {
                rest + 1
            } else {
                0
            }
        } else {
            0
        }
    } else {
        0
    }
}

/// The pattern that the single name at `j` spells: `_` a wildcard, any other
/// name a binding.
pub open spec fn arg_pattern_spelled(tokens: Seq<Token>, j: int, p: Pattern) -> bool {
    let t = tokens[j];
    if t.lexeme@ == "_"@ {
        p == Pattern::Wildcard { span: t.span }
    } else {
        p matches Pattern::Binding { name, span } && name@ == t.lexeme@ && span == t.span
    }
}

pub open spec fn pattern_rules(p: Pattern, depth: int) -> bool {
    match p {
        Pattern::Type { .. } => depth == 0,
        Pattern::Tuple { elements, .. } => elements@.len() >= 2,
        Pattern::Constructor { path, .. } => path@.len() >= 1,
        _ => true,
    }
}

impl<'a> Parser<'a> {
    pub(crate) fn parse_pattern(&mut self) -> (r: Option<Pattern>)
        requires
            old(self).wf(),
        ensures
            r is None ==> final(self).diagnostics@.len() > old(self).diagnostics@.len(),
            final(self).follows(*old(self)),
            r is Some ==> final(self).index > old(self).index,
            r matches Some(p) ==> pattern_rules(p, 0),
            r is Some ==> starts_pattern(old(self).kind_at(super::newline_run(old(self).tokens@, old(self).index as int))),
    {
        self.parse_pattern_at_depth(0)
    }

    /// A pattern; at the outermost level `name Type` and `_ Type` are type
    /// tests.
    pub(crate) fn parse_pattern_at_depth(&mut self, depth: usize) -> (r: Option<Pattern>)
        requires
            old(self).wf(),
            depth + old(self).remaining() <= usize::MAX,
        ensures
            r is None ==> final(self).diagnostics@.len() > old(self).diagnostics@.len(),
            final(self).follows(*old(self)),
            r is Some ==> final(self).index > old(self).index,
            r matches Some(p) ==> pattern_rules(p, depth as int),
            r is Some ==> starts_pattern(old(self).kind_at(super::newline_run(old(self).tokens@, old(self).index as int))),
            ({
                let l = super::newline_run(old(self).tokens@, old(self).index as int);
                let t = old(self).tokens@[l];
                let next = old(self).kind_at(l + 1);
                &&& t.kind == TokenKind::Identifier && t.lexeme@ == "_"@ && next != TokenKind::Identifier
                    && next != TokenKind::LBrace
                    ==> r == Some(Pattern::Wildcard { span: t.span }) && final(self).index == l + 1
                        && final(self).diagnostics@ == old(self).diagnostics@
                &&& simple_name_pattern_at(old(self).tokens@, l)
                    ==> (r matches Some(Pattern::Binding { name, span }) && name@ == t.lexeme@ && span == t.span
                        && final(self).index == l + 1 && final(self).diagnostics@ == old(self).diagnostics@)
                &&& t.kind == TokenKind::Identifier && t.lexeme@ != "_"@ && next == TokenKind::LParen
                    && simple_arg_count(old(self).tokens@, l + 2) > 0
                    ==> (r matches Some(Pattern::Constructor { path, args, .. }) && path@.len() == 1
                        && path@[0]@ == t.lexeme@ && args@.len() == simple_arg_count(old(self).tokens@, l + 2)
                        && (forall|k: int| 0 <= k < args@.len()
                            ==> arg_pattern_spelled(old(self).tokens@, l + 2 + 2 * k, #[trigger] args@[k]))
                        && final(self).index == l + 2 + 2 * args@.len()
                        && final(self).diagnostics@ == old(self).diagnostics@)
            }),
        decreases old(self).remaining(),
    {
        self.skip_newlines();
        match self.current_kind() {
            TokenKind::Identifier if self.is_placeholder_identifier() => {
                let start = self.current_span();
                self.advance();
                if depth == 0 && self.binding_type_starts_on_same_line(start) && (self.at(
                    TokenKind::Identifier,
                ) || self.at(TokenKind::LBrace)) {
                    let target = self.parse_type_ref()?;
                    let span = start.cover(target.span());
                    return Some(Pattern::Type { name: None, span, target });
                }
                Some(Pattern::Wildcard { span: start })
            },
            TokenKind::Integer => {
                let token = self.current_token();
                self.advance();
                Some(Pattern::Literal {
                    span: token.span,
                    value: Expr::Integer { raw: token.lexeme, span: token.span },
                })
            },
            TokenKind::Float => {
                let token = self.current_token();
                self.advance();
                Some(Pattern::Literal {
                    span: token.span,
                    value: Expr::Float { raw: token.lexeme, span: token.span },
                })
            },
            TokenKind::String => {
                let token = self.current_token();
                self.advance();
                Some(Pattern::Literal {
                    span: token.span,
                    value: Expr::String { raw: token.lexeme, span: token.span },
                })
            },
            TokenKind::Keyword(Keyword::True) | TokenKind::Keyword(Keyword::False) => {
                let span = self.current_span();
                let value = self.at_keyword(Keyword::True);
                self.advance();
                Some(Pattern::Literal { span, value: Expr::Bool { value, span } })
            },
            TokenKind::LParen => {
                let start = self.consume(TokenKind::LParen, "expected '('")?;
                if self.match_token(TokenKind::RParen) {
                    let end = self.previous_span();
                    let span = start.cover(end);
                    return Some(Pattern::Literal { span, value: Expr::Unit { span } });
                }
                let first = self.parse_pattern_at_depth(depth + 1)?;
                if !self.match_token(TokenKind::Comma) {
                    self.consume(TokenKind::RParen, "expected ')' after pattern")?;
                    return Some(first);
                }
                let mut elements = vec![first];
                loop
                    invariant
                        self.follows(*old(self)),
                        self.index > old(self).index,
                        depth + old(self).remaining() <= usize::MAX,
                        elements@.len() >= 1,
                        old(self).kind_at(super::newline_run(old(self).tokens@, old(self).index as int)) == TokenKind::LParen,
                    ensures
                        self.follows(*old(self)),
                        self.index > old(self).index,
                        elements@.len() >= 2,
                    decreases self.remaining(),
                {
                    elements.push(self.parse_pattern_at_depth(depth + 1)?);
                    if !self.match_token(TokenKind::Comma) {
                        break;
                    }
                }
                let end = self.consume(TokenKind::RParen, "expected ')' after tuple pattern")?;
                Some(Pattern::Tuple { elements, span: start.cover(end) })
            },
            TokenKind::Identifier => {
                let (name, start) = self.expect_identifier("expected match pattern")?;
                if depth == 0 && self.binding_type_starts_on_same_line(start) && (self.at(
                    TokenKind::Identifier,
                ) || self.at(TokenKind::LBrace)) {
                    let target = self.parse_type_ref()?;
                    let span = start.cover(target.span());
                    return Some(Pattern::Type { name: Some(name), span, target });
                }
                let mut path = vec![name.clone()];
                let mut end = start;
                while self.match_token(TokenKind::Dot)
                    invariant
                        self.follows(*old(self)),
                        self.index > old(self).index,
                        path@.len() >= 1,
                        path@[0]@ == old(self).tokens@[super::newline_run(old(self).tokens@, old(self).index as int)].lexeme@,
                        old(self).kind_at(super::newline_run(old(self).tokens@, old(self).index as int)) == TokenKind::Identifier,
                        old(self).tokens@[super::newline_run(old(self).tokens@, old(self).index as int)].lexeme@ != "_"@,
                        old(self).kind_at(super::newline_run(old(self).tokens@, old(self).index as int) + 1) != TokenKind::Dot ==> self.index == super::newline_run(old(self).tokens@, old(self).index as int) + 1
                            && path@.len() == 1 && self.diagnostics@ == old(self).diagnostics@,
                    decreases self.remaining(),
                {
                    let (segment, segment_span) = self.expect_identifier("expected identifier after '.'")?;
                    path.push(segment);
                    end = end.cover(segment_span);
                }
                let ghost simple_args = old(self).kind_at(super::newline_run(old(self).tokens@, old(self).index as int) + 1) == TokenKind::LParen
                    && simple_arg_count(old(self).tokens@, super::newline_run(old(self).tokens@, old(self).index as int) + 2) > 0;
                if self.match_token(TokenKind::LParen) {
                    let mut args: Vec<Pattern> = Vec::new();
                    if !self.at(TokenKind::RParen) {
                        loop
                            invariant_except_break
                                simple_args ==> self.index == super::newline_run(old(self).tokens@, old(self).index as int) + 2 + 2 * args@.len()
                                    && args@.len() < simple_arg_count(old(self).tokens@, super::newline_run(old(self).tokens@, old(self).index as int) + 2)
                                    && simple_arg_count(old(self).tokens@, self.index as int) + args@.len()
                                        == simple_arg_count(old(self).tokens@, super::newline_run(old(self).tokens@, old(self).index as int) + 2),
                            invariant
                                self.follows(*old(self)),
                                self.index > old(self).index,
                                depth + old(self).remaining() <= usize::MAX,
                                old(self).kind_at(super::newline_run(old(self).tokens@, old(self).index as int)) == TokenKind::Identifier,
                                old(self).tokens@[super::newline_run(old(self).tokens@, old(self).index as int)].lexeme@ != "_"@,
                                !simple_name_pattern_at(old(self).tokens@, super::newline_run(old(self).tokens@, old(self).index as int)),
                                simple_args == (old(self).kind_at(super::newline_run(old(self).tokens@, old(self).index as int) + 1) == TokenKind::LParen
                                    && simple_arg_count(old(self).tokens@, super::newline_run(old(self).tokens@, old(self).index as int) + 2) > 0),
                                simple_args ==> self.diagnostics@ == old(self).diagnostics@ && forall|k: int| 0 <= k < args@.len()
                                    ==> arg_pattern_spelled(old(self).tokens@, super::newline_run(old(self).tokens@, old(self).index as int) + 2 + 2 * k, #[trigger] args@[k]),
                            ensures
                                self.follows(*old(self)),
                                simple_args ==> args@.len() == simple_arg_count(old(self).tokens@, super::newline_run(old(self).tokens@, old(self).index as int) + 2)
                                    && self.index == super::newline_run(old(self).tokens@, old(self).index as int) + 1 + 2 * args@.len()
                                    && self.tokens@[self.index as int].kind == TokenKind::RParen
                                    && self.diagnostics@ == old(self).diagnostics@ && forall|k: int| 0 <= k < args@.len()
                                    ==> arg_pattern_spelled(old(self).tokens@, super::newline_run(old(self).tokens@, old(self).index as int) + 2 + 2 * k, #[trigger] args@[k]),
                            decreases self.remaining(),
                        {
                            let ghost j = self.index as int;
                            let ghost args_before = args@;
                            proof {
                                if simple_args {
                                    assert(self.tokens@[j].kind == TokenKind::Identifier);
                                    assert(super::newline_run(self.tokens@, j) == j);
                                }
                            }
                            args.push(self.parse_pattern_at_depth(depth + 1)?);
                            proof {
                                if simple_args {
                                    assert(arg_pattern_spelled(old(self).tokens@, j, args@[args_before.len() as int]));
                                    assert forall|k: int| 0 <= k < args@.len() implies
                                        arg_pattern_spelled(old(self).tokens@, super::newline_run(old(self).tokens@, old(self).index as int) + 2 + 2 * k, #[trigger] args@[k]) by {
                                        if k < args_before.len() {
                                            assert(args@[k] == args_before[k]);
                                        }
                                    }
                                }
                            }
                            if !self.match_token(TokenKind::Comma) {
                                break;
                            }
                        }
                    }
                    let close = self.consume(TokenKind::RParen, "expected ')' after constructor pattern")?;
                    return Some(Pattern::Constructor { path, args, span: start.cover(close) });
                }
                if path.len() == 1 {
                    Some(Pattern::Binding { name, span: start })
                } else {
                    Some(Pattern::Constructor { path, args: Vec::new(), span: start.cover(end) })
                }
            },
            _ => {
                self.error_at_current("expected_pattern", "expected match pattern");
                None
            },
        }
    }
}

} // verus!
