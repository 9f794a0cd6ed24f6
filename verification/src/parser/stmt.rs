//! Blocks and statements.
use vstd::prelude::*;
use crate::ast::{
    AssignOp, AssignmentStmt, Binding, BindingStmt, Block, BreakStmt, ElseBranch, Expr,
    ExprStmt, ForBinding, ForStmt, IfStmt, LetElseStmt, MatchCase, MatchCaseBody, MatchStmt,
    Pattern, RefutableClause, ReturnStmt, Stmt, UnwrapBlockStmt, UnwrapStmt, Visibility,
    WhileStmt,
};
use crate::lexer::{Keyword, TokenKind};
use crate::source::Span;
use crate::text::{concat_str, concat_strings};
use super::Parser;

verus! {

/// The assignment that an operator token names in this dialect: `=` and
/// `:=` both reassign; `+=` `-=` `*=` `/=` update by adding, subtracting,
/// multiplying or dividing; `None` for any other token.
pub open spec fn assign_op_of(kind: TokenKind) -> Option<AssignOp> {
    match kind {
        TokenKind::Eq => Some(AssignOp::Reassign),
        TokenKind::ColonAssign => Some(AssignOp::Reassign),
        TokenKind::PlusEq => Some(AssignOp::AddAssign),
        TokenKind::MinusEq => Some(AssignOp::SubAssign),
        TokenKind::StarEq => Some(AssignOp::MulAssign),
        TokenKind::SlashEq => Some(AssignOp::DivAssign),
        _ => None,
    }
}

impl<'a> Parser<'a> {
    /// `{ statements }`; a statement that fails to parse is skipped up to the
    /// end of its line.
    pub(crate) fn parse_block(&mut self) -> (r: Option<Block>)
        requires
            old(self).wf(),
        ensures
            r is None ==> final(self).diagnostics@.len() > old(self).diagnostics@.len(),
            final(self).follows(*old(self)),
            r is Some ==> final(self).index > old(self).index,
            old(self).cur_kind() != TokenKind::LBrace ==> r is None,
            old(self).cur_kind() == TokenKind::LBrace
                && old(self).kind_at(super::newline_run(old(self).tokens@, old(self).index + 1)) == TokenKind::RBrace
                ==> (r matches Some(b) && b.statements@.len() == 0
                    && final(self).index == super::newline_run(old(self).tokens@, old(self).index + 1) + 1
                    && final(self).diagnostics == old(self).diagnostics),
        decreases old(self).bound@, old(self).remaining(), 1nat,
    {
        let start = self.consume(TokenKind::LBrace, "expected '{'")?;
        self.skip_newlines();
        let mut statements: Vec<Stmt> = Vec::new();
        while !self.at(TokenKind::RBrace) && !self.at(TokenKind::Eof)
            invariant
                self.follows(*old(self)),
                self.index > old(self).index,
                old(self).cur_kind() == TokenKind::LBrace
                    && old(self).kind_at(super::newline_run(old(self).tokens@, old(self).index + 1)) == TokenKind::RBrace
                    ==> self.index == super::newline_run(old(self).tokens@, old(self).index + 1) && statements@.len() == 0
                    && self.diagnostics == old(self).diagnostics,
            decreases self.remaining(),
        {
            if let Some(stmt) = self.parse_stmt() {
                statements.push(stmt);
            } else {
                self.synchronize_stmt();
            }
            self.skip_newlines();
        }
        let end = self.consume(TokenKind::RBrace, "expected '}' after block")?;
        Some(Block { statements, span: start.cover(end) })
    }

    pub(crate) fn parse_stmt(&mut self) -> (r: Option<Stmt>)
        requires
            old(self).wf(),
        ensures
            r is None ==> final(self).diagnostics@.len() > old(self).diagnostics@.len(),
            final(self).follows(*old(self)),
            r is Some ==> final(self).index > old(self).index,
            r matches Some(Stmt::Binding(b)) ==> b.visibility == Visibility::Default,
            old(self).at_closed_lone_integer() ==> (r matches Some(Stmt::Expr(s)) && old(self).parsed_lone_integer(Some(s.expr), *final(self))),
        decreases old(self).bound@, old(self).remaining(), 33nat,
    {
        self.skip_newlines();
        match self.current_kind() {
            TokenKind::Keyword(Keyword::Def) => {
                let function = self.parse_function_decl(Vec::new(), Visibility::Default)?;
                Some(Stmt::LocalFunction(function))
            },
            TokenKind::Keyword(Keyword::Match) => match self.parse_match_stmt(false) {
                Some(stmt) => Some(Stmt::Match(stmt)),
                None => None,
            },
            TokenKind::Keyword(Keyword::Partial) => match self.parse_match_stmt(true) {
                Some(stmt) => Some(Stmt::Match(stmt)),
                None => None,
            },
            TokenKind::Keyword(Keyword::Unwrap) => self.parse_unwrap_stmt(),
            TokenKind::Keyword(Keyword::Let) => self.parse_let_stmt(),
            TokenKind::Keyword(Keyword::Var) => {
                let stmt = self.parse_binding_stmt_after_var()?;
                Some(Stmt::Binding(stmt))
            },
            TokenKind::Keyword(Keyword::If) => match self.parse_if_stmt() {
                Some(stmt) => Some(Stmt::If(stmt)),
                None => None,
            },
            TokenKind::Keyword(Keyword::While) => match self.parse_while_stmt() {
                Some(stmt) => Some(Stmt::While(stmt)),
                None => None,
            },
            TokenKind::Keyword(Keyword::For) => {
                if self.is_for_yield_start() {
                    let expr = self.parse_expr()?;
                    let span = expr.span();
                    Some(Stmt::Expr(ExprStmt { expr, span }))
                } else {
                    match self.parse_for_stmt() {
                        Some(stmt) => Some(Stmt::For(stmt)),
                        None => None,
                    }
                }
            },
            TokenKind::Keyword(Keyword::Return) => match self.parse_return_stmt() {
                Some(stmt) => Some(Stmt::Return(stmt)),
                None => None,
            },
            TokenKind::Keyword(Keyword::Break) => match self.parse_break_stmt() {
                Some(stmt) => Some(Stmt::Break(stmt)),
                None => None,
            },
            _ => {
                if let Some(binding) = self.try_parse_binding_stmt() {
                    return Some(Stmt::Binding(binding));
                }
                if let Some(assignment) = self.try_parse_assignment_stmt() {
                    return Some(Stmt::Assignment(assignment));
                }
                let expr = self.parse_expr()?;
                let span = expr.span();
                Some(Stmt::Expr(ExprStmt { expr, span }))
            },
        }
    }

    /// Reports the missing expression when `=`, `<-` or an operator ends its line.
    fn error_expression_on_same_line(&mut self, after: &str)
        requires
            old(self).wf(),
        ensures
            final(self).tokens == old(self).tokens,
            final(self).bound == old(self).bound,
            final(self).index == old(self).index,
            final(self).diagnostics@.len() == old(self).diagnostics@.len() + 1,
    {
        let mut message = String::from_str("expected expression on same line after \"");
        message = concat_str(message, after);
        message = concat_str(message, "\"");
        self.error_at_current_owned("expected_expression", message);
    }

    /// `var a Int, b = 1, 2`.
    pub(crate) fn parse_binding_stmt_after_var(&mut self) -> (r: Option<BindingStmt>)
        requires
            old(self).wf(),
        ensures
            r is None ==> final(self).diagnostics@.len() > old(self).diagnostics@.len(),
            final(self).follows(*old(self)),
            r is Some ==> final(self).index > old(self).index,
            r is Some ==> old(self).cur_kind() == TokenKind::Keyword(Keyword::Var),
            r matches Some(b) ==> b.visibility == Visibility::Default && b.values@.len() >= 1
                && !(b.bindings@.len() > 1 && b.values@.len() == 1),
        decreases old(self).bound@, old(self).remaining(), 1nat,
    {
        let start = self.consume_keyword(Keyword::Var, "expected 'var'")?;
        let bindings = self.parse_binding_list(true)?;
        self.consume(TokenKind::Eq, "expected '=' after bindings")?;
        if self.at(TokenKind::Newline) {
            self.error_expression_on_same_line("=");
            return None;
        }
        let values = self.parse_expr_list()?;
        if bindings.len() > 1 && values.len() == 1 {
            self.error_at_current(
                "unexpected_token",
                "destructuring bindings require 'let (...) = value'",
            );
            return None;
        }
        let end = values[values.len() - 1].span();
        Some(BindingStmt { visibility: Visibility::Default, bindings, values, span: start.cover(end) })
    }

    /// `let { clauses } else ...`, `let (a, b) = v`, `let a = v`, or
    /// `let Pattern = v else ...`.
    pub(crate) fn parse_let_stmt(&mut self) -> (r: Option<Stmt>)
        requires
            old(self).wf(),
        ensures
            r is None ==> final(self).diagnostics@.len() > old(self).diagnostics@.len(),
            final(self).follows(*old(self)),
            r is Some ==> final(self).index > old(self).index,
            r is Some ==> old(self).cur_kind() == TokenKind::Keyword(Keyword::Let),
            r matches Some(stmt) ==> (stmt matches Stmt::Binding(b) && b.visibility == Visibility::Default
                && b.values@.len() >= 1) || stmt is LetElse,
            old(self).cur_kind() == TokenKind::Keyword(Keyword::Let)
                && old(self).kind_at(old(self).index + 1) == TokenKind::Identifier
                && old(self).kind_at(old(self).index + 2) == TokenKind::Eq
                && old(self).kind_at(old(self).index + 3) == TokenKind::Integer
                && super::listless_lone_integer_from(old(self).tokens@, old(self).index + 3)
                ==> (r matches Some(Stmt::Binding(b)) && b.bindings@.len() == 1
                    && b.bindings@[0].name@ == old(self).tokens@[old(self).index + 1].lexeme@
                    && b.bindings@[0].ty is None && !b.bindings@[0].mutable && b.values@.len() == 1
                    && (b.values@[0] matches Expr::Integer { raw, .. } && raw@ == old(self).tokens@[old(self).index + 3].lexeme@)
                    && final(self).diagnostics@ == old(self).diagnostics@),
        decreases old(self).bound@, old(self).remaining(), 1nat,
    {
        let ghost simple = old(self).cur_kind() == TokenKind::Keyword(Keyword::Let)
            && old(self).kind_at(old(self).index + 1) == TokenKind::Identifier
            && old(self).kind_at(old(self).index + 2) == TokenKind::Eq
            && old(self).kind_at(old(self).index + 3) == TokenKind::Integer
            && super::listless_lone_integer_from(old(self).tokens@, old(self).index + 3);
        let start = self.consume_keyword(Keyword::Let, "expected 'let'")?;

        if self.at(TokenKind::LBrace) {
            let (clauses, clauses_end) = self.parse_refutable_clause_block("let")?;
            self.consume_keyword(Keyword::Else, "expected 'else' after let clause block")?;
            let else_block = self.parse_block_or_inline_stmt_body("let else")?;
            let end = else_block.span;
            return Some(Stmt::LetElse(LetElseStmt {
                clauses,
                pattern: Pattern::Wildcard { span: clauses_end },
                value: Expr::Unit { span: clauses_end },
                else_block,
                span: start.cover(end),
            }));
        }

        if self.match_token(TokenKind::LParen) {
            let bindings = self.parse_binding_list(false)?;
            self.consume(TokenKind::RParen, "expected ')' after destructuring bindings")?;
            self.consume(TokenKind::Eq, "expected '=' after destructuring bindings")?;
            if self.at(TokenKind::Newline) {
                self.error_expression_on_same_line("=");
                return None;
            }
            let values = self.parse_expr_list()?;
            if values.len() != 1 {
                self.error_at_current(
                    "unexpected_token",
                    "destructuring bindings require a single initializer expression",
                );
                return None;
            }
            let end = values[values.len() - 1].span();
            return Some(Stmt::Binding(BindingStmt {
                visibility: Visibility::Default,
                bindings,
                values,
                span: start.cover(end),
            }));
        }

        let checkpoint = self.checkpoint();
        if self.is_binding_start() && !(self.at(TokenKind::Identifier) && (self.at_next(
            TokenKind::LParen,
        ) || self.at_next(TokenKind::Dot))) {
            if let Some(bindings) = self.parse_binding_list(false) {
                if self.match_token(TokenKind::Eq) {
                    if self.at(TokenKind::Newline) {
                        self.error_expression_on_same_line("=");
                        return None;
                    }
                    assert(simple ==> self.index == old(self).index + 3 && self.at_listless_lone_integer()
                        && bindings@.len() == 1);
                    let ghost at_value = *self;
                    let values = self.parse_expr_list()?;
                    proof {
                        if simple {
                            at_value.lemma_lone_integer_bounds();
                            at_value.lemma_lone_integer_rest(self.index as int);
                        }
                    }
                    if self.match_keyword(Keyword::Else) {
                        self.error_at_current(
                            "unexpected_token",
                            "plain 'let name = value' bindings do not support 'else'; use a refutable pattern like 'let Some(name) = value else { ... }'",
                        );
                        return None;
                    }
                    if bindings.len() > 1 && values.len() == 1 {
                        self.error_at_current(
                            "unexpected_token",
                            "destructuring bindings require 'let (...) = value'",
                        );
                        return None;
                    }
                    let end = values[values.len() - 1].span();
                    return Some(Stmt::Binding(BindingStmt {
                        visibility: Visibility::Default,
                        bindings,
                        values,
                        span: start.cover(end),
                    }));
                }
            }
        }
        self.restore(checkpoint);

        let pattern = self.parse_pattern()?;
        self.consume(TokenKind::Eq, "expected '=' after let pattern")?;
        if self.at(TokenKind::Newline) {
            self.error_expression_on_same_line("=");
            return None;
        }
        let value = self.parse_expr()?;
        self.consume_keyword(Keyword::Else, "expected 'else' after let pattern")?;
        let else_block = self.parse_block_or_inline_stmt_body("let else")?;
        let end = else_block.span;
        Some(Stmt::LetElse(LetElseStmt {
            clauses: Vec::new(),
            pattern,
            value,
            else_block,
            span: start.cover(end),
        }))
    }

    /// `a, b T = values` when it parses as such; otherwise rewinds (unless
    /// the values themselves fail).
    pub(crate) fn try_parse_binding_stmt(&mut self) -> (r: Option<BindingStmt>)
        requires
            old(self).wf(),
        ensures
            final(self).follows(*old(self)),
            r is Some ==> final(self).index > old(self).index,
            r matches Some(b) ==> b.visibility == Visibility::Default && b.values@.len() >= 1
                && !(b.bindings@.len() > 1 && b.values@.len() == 1),
            old(self).cur_kind() != TokenKind::Identifier ==> r is None && final(self).index == old(self).index
                && final(self).diagnostics@ == old(self).diagnostics@,
            old(self).cur_kind() == TokenKind::Identifier && old(self).kind_at(old(self).index + 1) == TokenKind::Eq
                && old(self).kind_at(old(self).index + 2) == TokenKind::Integer
                && super::listless_lone_integer_from(old(self).tokens@, old(self).index + 2)
                ==> (r matches Some(b) && b.bindings@.len() == 1 && b.values@.len() == 1),
        decreases old(self).bound@, old(self).remaining(), 30nat,
    {
        if !self.is_binding_start() {
            return None;
        }
        let checkpoint = self.checkpoint();
        let bindings = match self.parse_binding_list(false) {
            Some(bindings) => bindings,
            None => {
                self.restore(checkpoint);
                return None;
            },
        };
        if !self.match_token(TokenKind::Eq) {
            self.restore(checkpoint);
            return None;
        }
        if self.at(TokenKind::Newline) {
            self.error_expression_on_same_line("=");
            return None;
        }
        let values = self.parse_expr_list()?;
        if bindings.len() > 1 && values.len() == 1 {
            self.error_at_current(
                "unexpected_token",
                "destructuring bindings require 'let (...) = value'",
            );
            return None;
        }
        let start = bindings[0].span;
        let end = values[values.len() - 1].span();
        Some(BindingStmt { visibility: Visibility::Default, bindings, values, span: start.cover(end) })
    }

    /// `name` with an optional type on the same line.
    pub(crate) fn parse_binding(&mut self, mutable: bool) -> (r: Option<Binding>)
        requires
            old(self).wf(),
        ensures
            r is None ==> final(self).diagnostics@.len() > old(self).diagnostics@.len(),
            final(self).follows(*old(self)),
            r is Some ==> final(self).index > old(self).index,
            old(self).cur_kind() == TokenKind::Identifier && old(self).kind_at(old(self).index + 1) != TokenKind::Identifier
                && old(self).kind_at(old(self).index + 1) != TokenKind::LParen
                && old(self).kind_at(old(self).index + 1) != TokenKind::LBrace
                ==> (r matches Some(b) && b.ty is None && final(self).index == old(self).index + 1
                    && b.name@ == old(self).tokens@[old(self).index as int].lexeme@ && b.mutable == mutable
                    && final(self).diagnostics@ == old(self).diagnostics@),
    {
        let (name, start) = self.expect_binding_name("expected binding name")?;
        let ty = if self.binding_type_starts_on_same_line(start) && self.can_start_type_ref() {
            Some(self.parse_type_ref()?)
        } else {
            None
        };
        let span = match &ty {
            Some(t) => t.span(),
            None => start,
        };
        Some(Binding { name, ty, mutable, deferred: false, span: start.cover(span) })
    }

    /// `a, b T, c`: at least one binding.
    pub(crate) fn parse_binding_list(&mut self, mutable: bool) -> (r: Option<Vec<Binding>>)
        requires
            old(self).wf(),
        ensures
            r is None ==> final(self).diagnostics@.len() > old(self).diagnostics@.len(),
            final(self).follows(*old(self)),
            r is Some ==> final(self).index > old(self).index,
            r matches Some(v) ==> v@.len() > 0,
            old(self).cur_kind() == TokenKind::Identifier && old(self).kind_at(old(self).index + 1) != TokenKind::Identifier
                && old(self).kind_at(old(self).index + 1) != TokenKind::LParen
                && old(self).kind_at(old(self).index + 1) != TokenKind::LBrace
                && old(self).kind_at(old(self).index + 1) != TokenKind::Comma
                ==> (r matches Some(v) && v@.len() == 1 && final(self).index == old(self).index + 1
                    && v@[0].name@ == old(self).tokens@[old(self).index as int].lexeme@ && v@[0].ty is None
                    && v@[0].mutable == mutable && final(self).diagnostics@ == old(self).diagnostics@),
    {
        let first = self.parse_binding(mutable)?;
        let mut bindings: Vec<Binding> = vec![first];
        while self.match_token(TokenKind::Comma)
            invariant
                self.follows(*old(self)),
                self.index > old(self).index,
                bindings@.len() > 0,
                old(self).cur_kind() == TokenKind::Identifier && old(self).kind_at(old(self).index + 1) != TokenKind::Identifier
                    && old(self).kind_at(old(self).index + 1) != TokenKind::LParen
                    && old(self).kind_at(old(self).index + 1) != TokenKind::LBrace
                    && old(self).kind_at(old(self).index + 1) != TokenKind::Comma
                    ==> bindings@.len() == 1 && self.index == old(self).index + 1
                        && bindings@[0] == first && self.diagnostics@ == old(self).diagnostics@,
            decreases self.remaining(),
        {
            bindings.push(self.parse_binding(mutable)?);
        }
        Some(bindings)
    }

    pub(crate) fn is_binding_start(&self) -> (b: bool)
        requires
            self.wf(),
        ensures
            b == (self.cur_kind() == TokenKind::Identifier),
    {
        self.at(TokenKind::Identifier)
    }

    /// `targets op values` with `=`, `:=`, `+=`, `-=`, `*=` or `/=`;
    /// rewinds when no assignment operator follows the targets.
    pub(crate) fn try_parse_assignment_stmt(&mut self) -> (r: Option<AssignmentStmt>)
        requires
            old(self).wf(),
        ensures
            final(self).follows(*old(self)),
            r is Some ==> final(self).index > old(self).index,
            old(self).at_closed_lone_integer() ==> r is None && final(self).index == old(self).index
                && final(self).diagnostics@ == old(self).diagnostics@,
            old(self).at_lone_integer() && old(self).kind_at(old(self).next_significant() + 1) == TokenKind::Eq
                && old(self).kind_at(old(self).next_significant() + 2) == TokenKind::Integer
                && super::listless_lone_integer_from(old(self).tokens@, old(self).next_significant() + 2)
                ==> (r matches Some(a) && a.targets@.len() == 1 && a.values@.len() == 1),
            r matches Some(a) ==> exists|j: int| old(self).index <= j < final(self).index
                && #[trigger] assign_op_of(old(self).tokens@[j].kind) == Some(a.operator),
        decreases old(self).bound@, old(self).remaining(), 30nat,
    {
        let checkpoint = self.checkpoint();
        let targets = match self.parse_expr_list() {
            Some(targets) => targets,
            None => {
                self.restore(checkpoint);
                return None;
            },
        };
        proof {
            if old(self).at_listless_lone_integer() {
                old(self).lemma_lone_integer_rest(self.index as int);
            }
        }
        let ghost j = self.index as int;
        let operator = if self.match_token(TokenKind::Eq) || self.match_token(TokenKind::ColonAssign) {
            AssignOp::Reassign
        } else if self.match_token(TokenKind::PlusEq) {
            AssignOp::AddAssign
        } else if self.match_token(TokenKind::MinusEq) {
            AssignOp::SubAssign
        } else if self.match_token(TokenKind::StarEq) {
            AssignOp::MulAssign
        } else if self.match_token(TokenKind::SlashEq) {
            AssignOp::DivAssign
        } else {
            self.restore(checkpoint);
            return None;
        };
        if self.at(TokenKind::Newline) {
            let op = &self.tokens[self.index - 1].lexeme;
            let mut message = String::from_str("expected expression on same line after \"");
            message = concat_strings(message, op);
            message = concat_str(message, "\"");
            self.error_at_current_owned("expected_expression", message);
            return None;
        }
        let values = match self.parse_expr_list() {
            Some(values) => values,
            None => {
                self.restore(checkpoint);
                return None;
            },
        };
        assert(assign_op_of(old(self).tokens@[j].kind) == Some(operator));
        let start = targets[0].span();
        let end = values[values.len() - 1].span();
        Some(AssignmentStmt { targets, operator, values, span: start.cover(end) })
    }

    /// `if cond { ... } else ...`, `if let Pattern = value { ... }` or
    /// `if let { clauses } { ... }`.
    pub(crate) fn parse_if_stmt(&mut self) -> (r: Option<IfStmt>)
        requires
            old(self).wf(),
        ensures
            r is None ==> final(self).diagnostics@.len() > old(self).diagnostics@.len(),
            final(self).follows(*old(self)),
            r is Some ==> final(self).index > old(self).index,
        decreases old(self).bound@, old(self).remaining(), 1nat,
    {
        let start = self.consume_keyword(Keyword::If, "expected 'if'")?;
        let mut condition: Option<Expr> = None;
        let mut pattern: Option<Pattern> = None;
        let mut pattern_value: Option<Expr> = None;
        let mut pattern_clauses: Vec<RefutableClause> = Vec::new();
        if self.match_keyword(Keyword::Let) {
            if self.at(TokenKind::LBrace) {
                let (clauses, _) = self.parse_refutable_clause_block("if let")?;
                pattern_clauses = clauses;
            } else {
                let p = self.parse_pattern()?;
                self.consume(TokenKind::Eq, "expected '=' after if pattern")?;
                if self.at(TokenKind::Newline) {
                    self.error_expression_on_same_line("=");
                    return None;
                }
                let value = self.parse_expr_without_trailing_block_call()?;
                pattern = Some(p);
                pattern_value = Some(value);
            }
        } else if self.pattern_followed_by_eq(self.index) {
            self.error_at_current(
                "unexpected_token",
                "pattern matches in 'if' require 'let'; use 'if let Pattern = value { ... }'",
            );
            return None;
        } else {
            condition = Some(self.parse_expr_without_trailing_block_call()?);
        }
        let then_block = self.parse_then_stmt_body_block("if")?;
        let else_branch = if self.match_keyword(Keyword::Else) {
            if self.at(TokenKind::Newline) {
                self.error_at_current(
                    "unexpected_token",
                    "else body must stay on the same line unless it uses '{ ... }'",
                );
                return None;
            }
            if self.at_keyword(Keyword::If) {
                Some(ElseBranch::If(Box::new(self.parse_if_stmt()?)))
            } else {
                Some(ElseBranch::Block(self.parse_block_or_inline_stmt_body("else")?))
            }
        } else {
            None
        };
        let end = match &else_branch {
            Some(ElseBranch::If(if_stmt)) => if_stmt.span,
            Some(ElseBranch::Block(block)) => block.span,
            None => then_block.span,
        };
        Some(IfStmt {
            condition,
            pattern,
            pattern_value,
            pattern_clauses,
            bindings: Vec::new(),
            binding_value: None,
            then_block,
            else_branch,
            span: start.cover(end),
        })
    }

    /// `Pattern = value`.
    pub(crate) fn parse_refutable_clause(&mut self, owner: &str) -> (r: Option<RefutableClause>)
        requires
            old(self).wf(),
        ensures
            r is None ==> final(self).diagnostics@.len() > old(self).diagnostics@.len(),
            final(self).follows(*old(self)),
            r is Some ==> final(self).index > old(self).index,
        decreases old(self).bound@, old(self).remaining(), 1nat,
    {
        let pattern = self.parse_pattern()?;
        let eq_message = if crate::text::str_is(owner, "if let") {
            "expected '=' after if pattern"
        } else if crate::text::str_is(owner, "let") {
            "expected '=' after let pattern"
        } else {
            "expected '=' after pattern"
        };
        self.consume(TokenKind::Eq, eq_message)?;
        if self.at(TokenKind::Newline) {
            self.error_expression_on_same_line("=");
            return None;
        }
        let value = self.parse_expr_without_trailing_block_call()?;
        let span = pattern.span().cover(value.span());
        Some(RefutableClause { pattern, value, span })
    }

    /// `{ Pattern = value ... }`: at least one clause.
    pub(crate) fn parse_refutable_clause_block(&mut self, owner: &str) -> (r: Option<(Vec<RefutableClause>, Span)>)
        requires
            old(self).wf(),
        ensures
            r is None ==> final(self).diagnostics@.len() > old(self).diagnostics@.len(),
            final(self).follows(*old(self)),
            r is Some ==> final(self).index > old(self).index,
        decreases old(self).bound@, old(self).remaining(), 1nat,
    {
        let is_if_let = crate::text::str_is(owner, "if let");
        let is_let = crate::text::str_is(owner, "let");
        let open_message = if is_if_let {
            "expected '{' after if let"
        } else if is_let {
            "expected '{' after let"
        } else {
            "expected '{' before clause block"
        };
        let open = self.consume(TokenKind::LBrace, open_message)?;
        self.skip_newlines();
        let mut clauses = Vec::new();
        while !self.at(TokenKind::RBrace) && !self.at(TokenKind::Eof)
            invariant
                self.follows(*old(self)),
                self.index > old(self).index,
            decreases self.remaining(),
        {
            clauses.push(self.parse_refutable_clause(owner)?);
            self.skip_newlines();
        }
        if clauses.len() == 0 {
            let message = concat_str(
                String::from_str(owner),
                " clause block must contain at least one 'PATTERN = value' clause",
            );
            self.error_at_current_owned("unexpected_token", message);
            return None;
        }
        let close_message = if is_if_let {
            "expected '}' after if let clause block"
        } else if is_let {
            "expected '}' after let clause block"
        } else {
            "expected '}' after clause block"
        };
        let close = self.consume(TokenKind::RBrace, close_message)?;
        Some((clauses, open.cover(close)))
    }

    pub(crate) fn parse_while_stmt(&mut self) -> (r: Option<WhileStmt>)
        requires
            old(self).wf(),
        ensures
            r is None ==> final(self).diagnostics@.len() > old(self).diagnostics@.len(),
            final(self).follows(*old(self)),
            r is Some ==> final(self).index > old(self).index,
        decreases old(self).bound@, old(self).remaining(), 1nat,
    {
        let start = self.consume_keyword(Keyword::While, "expected 'while'")?;
        let condition = self.parse_expr_without_trailing_block_call()?;
        let body = self.parse_block()?;
        let span = start.cover(body.span);
        Some(WhileStmt { condition, body, span })
    }

    /// `for a, b <- iterable { ... }`.
    pub(crate) fn parse_for_stmt(&mut self) -> (r: Option<ForStmt>)
        requires
            old(self).wf(),
        ensures
            r is None ==> final(self).diagnostics@.len() > old(self).diagnostics@.len(),
            final(self).follows(*old(self)),
            r is Some ==> final(self).index > old(self).index,
        decreases old(self).bound@, old(self).remaining(), 1nat,
    {
        let start = self.consume_keyword(Keyword::For, "expected 'for'")?;
        let bindings = self.parse_binding_list(false)?;
        self.consume(TokenKind::LeftArrow, "expected '<-' in for loop")?;
        if self.at(TokenKind::Newline) {
            self.error_expression_on_same_line("<-");
            return None;
        }
        let iterable = self.parse_expr_without_trailing_block_call()?;
        if !self.at(TokenKind::LBrace) {
            self.error_at_current(
                "unexpected_token",
                "for requires a '{ ... }' block body; one-line for forms are not supported",
            );
            return None;
        }
        let body = self.parse_block()?;
        let binding_span = bindings[0].span.cover(iterable.span());
        let span = start.cover(body.span);
        Some(ForStmt {
            bindings: vec![ForBinding {
                span: binding_span,
                bindings,
                iterable: Some(iterable),
                values: Vec::new(),
            }],
            body,
            span,
        })
    }

    /// `unwrap a <- value else ...` or `unwrap { a <- x ... } else ...`.
    pub(crate) fn parse_unwrap_stmt(&mut self) -> (r: Option<Stmt>)
        requires
            old(self).wf(),
        ensures
            r is None ==> final(self).diagnostics@.len() > old(self).diagnostics@.len(),
            final(self).follows(*old(self)),
            r is Some ==> final(self).index > old(self).index,
            r matches Some(stmt) ==> stmt is Unwrap || stmt is UnwrapBlock,
        decreases old(self).bound@, old(self).remaining(), 1nat,
    {
        let start = self.consume_keyword(Keyword::Unwrap, "expected 'unwrap'")?;
        if self.match_token(TokenKind::LBrace) {
            return match self.parse_unwrap_block_stmt(start) {
                Some(stmt) => Some(Stmt::UnwrapBlock(stmt)),
                None => None,
            };
        }
        let bindings = self.parse_binding_list(false)?;
        self.consume(TokenKind::LeftArrow, "expected '<-' after unwrap bindings")?;
        if self.at(TokenKind::Newline) {
            self.error_expression_on_same_line("<-");
            return None;
        }
        let value = self.parse_expr()?;
        let else_block = if self.match_keyword(Keyword::Else) {
            Some(self.parse_block_or_inline_stmt_body("unwrap else")?)
        } else {
            None
        };
        let end = match &else_block {
            Some(block) => block.span,
            None => value.span(),
        };
        Some(Stmt::Unwrap(UnwrapStmt { bindings, value, else_block, span: start.cover(end) }))
    }

    /// The clauses of `unwrap { ... }` after the `{`, then an optional `else`.
    pub(crate) fn parse_unwrap_block_stmt(&mut self, start: Span) -> (r: Option<UnwrapBlockStmt>)
        requires
            old(self).wf(),
        ensures
            r is None ==> final(self).diagnostics@.len() > old(self).diagnostics@.len(),
            final(self).follows(*old(self)),
            r is Some ==> final(self).index > old(self).index,
        decreases old(self).bound@, old(self).remaining(), 1nat,
    {
        self.skip_newlines();
        let mut clauses = Vec::new();
        while !self.at(TokenKind::RBrace) && !self.at(TokenKind::Eof)
            invariant
                self.follows(*old(self)),
            decreases self.remaining(),
        {
            let bindings = self.parse_binding_list(false)?;
            self.consume(TokenKind::LeftArrow, "expected '<-' in unwrap block")?;
            if self.at(TokenKind::Newline) {
                self.error_expression_on_same_line("<-");
                return None;
            }
            let value = self.parse_expr()?;
            let span = bindings[0].span.cover(value.span());
            clauses.push(UnwrapStmt { bindings, value, else_block: None, span });
            self.skip_newlines();
        }
        let close = self.consume(TokenKind::RBrace, "expected '}' after unwrap block")?;
        let else_block = if self.match_keyword(Keyword::Else) {
            Some(self.parse_block_or_inline_stmt_body("unwrap else")?)
        } else {
            None
        };
        let end = match &else_block {
            Some(block) => block.span,
            None => close,
        };
        Some(UnwrapBlockStmt { clauses, else_block, span: start.cover(end) })
    }

    /// `match value { case ... }` or `partial value { case ... }`.
    pub(crate) fn parse_match_stmt(&mut self, partial: bool) -> (r: Option<MatchStmt>)
        requires
            old(self).wf(),
        ensures
            r is None ==> final(self).diagnostics@.len() > old(self).diagnostics@.len(),
            final(self).follows(*old(self)),
            r is Some ==> final(self).index > old(self).index,
        decreases old(self).bound@, old(self).remaining(), 1nat,
    {
        let start = if partial {
            self.consume_keyword(Keyword::Partial, "expected 'partial'")?
        } else {
            self.consume_keyword(Keyword::Match, "expected 'match'")?
        };
        let value = if self.at(TokenKind::LBrace) {
            Expr::Placeholder { span: start }
        } else {
            self.parse_expr_without_trailing_block_call()?
        };
        let (cases, end) = self.parse_match_cases()?;
        Some(MatchStmt { partial, value, cases, span: start.cover(end) })
    }

    /// `{ case Pattern if guard => body ... }`.
    pub(crate) fn parse_match_cases(&mut self) -> (r: Option<(Vec<MatchCase>, Span)>)
        requires
            old(self).wf(),
        ensures
            r is None ==> final(self).diagnostics@.len() > old(self).diagnostics@.len(),
            final(self).follows(*old(self)),
            r is Some ==> final(self).index > old(self).index,
        decreases old(self).bound@, old(self).remaining(), 1nat,
    {
        if !self.at(TokenKind::LBrace) {
            let got = self.next_significant_token_string();
            let message = concat_strings(String::from_str("expected end of expression, got "), &got);
            self.error_at_current_owned("unexpected_token", message);
            return None;
        }
        self.consume(TokenKind::LBrace, "expected '{' after match value")?;
        self.skip_newlines();
        let mut cases = Vec::new();
        while !self.at(TokenKind::RBrace) && !self.at(TokenKind::Eof)
            invariant
                self.follows(*old(self)),
                self.index > old(self).index,
            decreases self.remaining(),
        {
            if !self.at_keyword(Keyword::Case) {
                let got = self.next_significant_token_string();
                let message = concat_strings(
                    String::from_str("expected 'case' before match pattern, got "),
                    &got,
                );
                self.error_at_current_owned("unexpected_token", message);
                return None;
            }
            self.consume_keyword(Keyword::Case, "expected 'case' before match pattern")?;
            let pattern = self.parse_pattern()?;
            let guard = if self.match_keyword(Keyword::If) {
                Some(self.parse_expr()?)
            } else {
                None
            };
            self.consume(TokenKind::FatArrow, "expected '=>' after match pattern")?;
            let body = if self.at(TokenKind::LBrace) {
                MatchCaseBody::Block(self.parse_block()?)
            } else {
                MatchCaseBody::Expr(self.parse_expr()?)
            };
            let end = match &body {
                MatchCaseBody::Block(block) => block.span,
                MatchCaseBody::Expr(expr) => expr.span(),
            };
            let span = pattern.span().cover(end);
            cases.push(MatchCase { pattern, guard, body, span });
            self.skip_newlines();
        }
        let end = self.consume(TokenKind::RBrace, "expected '}' after match cases")?;
        Some((cases, end))
    }

    /// `return` with an optional value on the same line.
    pub(crate) fn parse_return_stmt(&mut self) -> (r: Option<ReturnStmt>)
        requires
            old(self).wf(),
        ensures
            r is None ==> final(self).diagnostics@.len() > old(self).diagnostics@.len(),
            final(self).follows(*old(self)),
            r is Some ==> final(self).index > old(self).index,
            old(self).cur_kind() != TokenKind::Keyword(Keyword::Return) ==> r is None,
            old(self).cur_kind() == TokenKind::Keyword(Keyword::Return) && (old(self).kind_at(old(self).index + 1)
                == TokenKind::Newline || old(self).kind_at(old(self).index + 1) == TokenKind::RBrace
                || old(self).kind_at(old(self).index + 1) == TokenKind::Eof)
                ==> (r matches Some(ret) && ret.value is None && ret.span == old(self).tokens@[old(self).index as int].span
                    && final(self).index == old(self).index + 1),
        decreases old(self).bound@, old(self).remaining(), 1nat,
    {
        let start = self.consume_keyword(Keyword::Return, "expected 'return'")?;
        if self.at(TokenKind::Newline) || self.at(TokenKind::RBrace) || self.at(TokenKind::Eof) {
            return Some(ReturnStmt { value: None, span: start });
        }
        let value = self.parse_expr()?;
        let end = value.span();
        Some(ReturnStmt { value: Some(value), span: start.cover(end) })
    }

    pub(crate) fn parse_break_stmt(&mut self) -> (r: Option<BreakStmt>)
        requires
            old(self).wf(),
        ensures
            r is None ==> final(self).diagnostics@.len() > old(self).diagnostics@.len(),
            final(self).follows(*old(self)),
            r is Some <==> old(self).cur_kind() == TokenKind::Keyword(Keyword::Break),
            r is Some ==> final(self).index > old(self).index,
    {
        let span = self.consume_keyword(Keyword::Break, "expected 'break'")?;
        Some(BreakStmt { span })
    }

    /// Whether a `for ... yield` expression starts here: `for {`, or `yield`
    /// appearing on this line before any `{`.
    pub(crate) fn is_for_yield_start(&self) -> (b: bool)
        requires
            self.wf(),
        ensures
            b ==> self.cur_kind() == TokenKind::Keyword(Keyword::For),
            self.cur_kind() == TokenKind::Keyword(Keyword::For) && self.index + 1 < self.tokens@.len()
                && self.kind_at(self.index + 1) == TokenKind::LBrace ==> b,
            self.cur_kind() == TokenKind::Keyword(Keyword::For) && !(self.index + 1 < self.tokens@.len()
                && self.kind_at(self.index + 1) == TokenKind::LBrace)
                ==> b == super::yield_on_line(self.tokens@, self.index + 1),
    {
        if !self.at_keyword(Keyword::For) {
            return false;
        }
        let n = self.tokens.len();
        if self.index + 1 < n && self.tokens[self.index + 1].kind == TokenKind::LBrace {
            return true;
        }
        let mut i = self.index + 1;
        while i < n
            invariant
                n == self.tokens@.len(),
                self.wf(),
                self.cur_kind() == TokenKind::Keyword(Keyword::For),
                self.index + 1 <= i,
                !(self.index + 1 < self.tokens@.len() && self.kind_at(self.index + 1) == TokenKind::LBrace),
                super::yield_on_line(self.tokens@, i as int) == super::yield_on_line(self.tokens@, self.index + 1),
            decreases n - i,
        {
            match self.tokens[i].kind {
                TokenKind::Keyword(Keyword::Yield) => return true,
                TokenKind::LBrace => return false,
                TokenKind::Newline | TokenKind::Eof => return false,
                _ => i = i + 1,
            }
        }
        false
    }

    /// Whether a pattern starting at `start` parses and is followed by `=`.
    pub(crate) fn pattern_followed_by_eq(&self, start: usize) -> (b: bool)
        requires
            self.wf(),
            start < self.tokens@.len(),
        ensures
            b ==> super::pattern::starts_pattern(self.kind_at(super::newline_run(self.tokens@, start as int))),
    {
        let mut parser = Parser {
            tokens: self.tokens,
            index: start,
            diagnostics: Vec::new(),
            allow_trailing_block_call: self.allow_trailing_block_call,
            bound: self.bound,
        };
        if parser.parse_pattern().is_none() {
            return false;
        }
        parser.at(TokenKind::Eq)
    }

    /// Whether `a T, b <-` (bindings then a left arrow) starts at `start`.
    pub(crate) fn binding_list_followed_by_left_arrow(&self, start: usize) -> (b: bool)
        requires
            self.wf(),
        ensures
            b ==> start < self.tokens@.len() && self.kind_at(start as int) == TokenKind::Identifier,
            start + 1 < self.tokens@.len() && self.kind_at(start as int) == TokenKind::Identifier && self.kind_at(start + 1) == TokenKind::LeftArrow ==> b,
    {
        let n = self.tokens.len();
        let mut i = start;
        loop
            invariant
                n == self.tokens@.len(),
                self.wf(),
                i == start || (start < n && self.kind_at(start as int) == TokenKind::Identifier),
                start + 1 < self.tokens@.len() && self.kind_at(start as int) == TokenKind::Identifier && self.kind_at(start + 1) == TokenKind::LeftArrow ==> i == start,
            decreases n - i,
        {
            if i >= n {
                return false;
            }
            if self.tokens[i].kind != TokenKind::Identifier {
                return false;
            }
            i = i + 1;
            let ghost i0 = i;
            while i < n
                invariant
                    n == self.tokens@.len(),
                    self.wf(),
                    0 < i <= n,
                    i >= i0,
                    start < n && self.kind_at(start as int) == TokenKind::Identifier,
                    start + 1 < self.tokens@.len() && self.kind_at(start as int) == TokenKind::Identifier && self.kind_at(start + 1) == TokenKind::LeftArrow ==> i == start + 1 && i0 == start + 1,
                decreases n - i,
            {
                if self.tokens[i].span.start_pos.line != self.tokens[i - 1].span.end_pos.line {
                    break;
                }
                match self.tokens[i].kind {
                    TokenKind::Identifier | TokenKind::LParen | TokenKind::LBrace
                    | TokenKind::LBracket => {},
                    _ => break,
                }
                if !self.scan_potential_type_ref(i) {
                    break;
                }
                i = self.scan_type_ref_end(i);
            }
            if i >= n {
                return false;
            }
            match self.tokens[i].kind {
                TokenKind::LeftArrow => return true,
                TokenKind::Comma => i = i + 1,
                _ => return false,
            }
        }
    }

    pub(crate) fn scan_potential_type_ref(&self, start: usize) -> (b: bool)
        requires
            self.wf(),
        ensures
            b == (start < self.tokens@.len() && (self.kind_at(start as int) == TokenKind::Identifier
                || self.kind_at(start as int) == TokenKind::LParen || self.kind_at(start as int)
                == TokenKind::LBrace)),
    {
        if start < self.tokens.len() {
            match self.tokens[start].kind {
                TokenKind::Identifier | TokenKind::LParen | TokenKind::LBrace => true,
                _ => false,
            }
        } else {
            false
        }
    }

    /// The index just past a type reference starting at `start`: the first
    /// `)`, `}` or `]` that closes nothing opened here, or the first `->`,
    /// `,`, `<-`, `=`, `=>`, `then` or `else` outside all brackets.
    pub(crate) fn scan_type_ref_end(&self, start: usize) -> (r: usize)
        requires
            self.wf(),
            start < self.tokens@.len(),
        ensures
            start <= r <= self.tokens@.len(),
            (self.kind_at(start as int) == TokenKind::Identifier || self.kind_at(start as int)
                == TokenKind::LParen || self.kind_at(start as int) == TokenKind::LBrace) ==> r > start,
    {
        let n = self.tokens.len();
        let mut i = start;
        let mut paren_depth: usize = 0;
        let mut brace_depth: usize = 0;
        let mut bracket_depth: usize = 0;
        while i < n
            invariant
                n == self.tokens@.len(),
                start < n,
                start <= i <= n,
                paren_depth <= i - start,
                brace_depth <= i - start,
                bracket_depth <= i - start,
            ensures
                start <= i <= n,
                (self.kind_at(start as int) == TokenKind::Identifier || self.kind_at(start as int)
                    == TokenKind::LParen || self.kind_at(start as int) == TokenKind::LBrace) ==> i > start,
            decreases n - i,
        {
            let at_top = paren_depth == 0 && brace_depth == 0 && bracket_depth == 0;
            match self.tokens[i].kind {
                TokenKind::LParen => paren_depth = paren_depth + 1,
                TokenKind::RParen => {
                    if paren_depth == 0 {
                        break;
                    }
                    paren_depth = paren_depth - 1;
                },
                TokenKind::LBrace => brace_depth = brace_depth + 1,
                TokenKind::RBrace => {
                    if brace_depth == 0 {
                        break;
                    }
                    brace_depth = brace_depth - 1;
                },
                TokenKind::LBracket => bracket_depth = bracket_depth + 1,
                TokenKind::RBracket => {
                    if bracket_depth == 0 {
                        break;
                    }
                    bracket_depth = bracket_depth - 1;
                },
                TokenKind::Arrow
                | TokenKind::Comma
                | TokenKind::LeftArrow
                | TokenKind::Eq
                | TokenKind::FatArrow
                | TokenKind::Keyword(Keyword::Then)
                | TokenKind::Keyword(Keyword::Else) => {
                    if at_top {
                        break;
                    }
                },
                _ => {},
            }
            i = i + 1;
        }
        i
    }
}

} // verus!
