//! Statements: blocks, bindings and destructuring, `let`/`expect` clauses,
//! `defer`, `if`, loops, `match`, and jumps.
use vstd::prelude::*;
use super::tree::{
    AssignOp, AssignmentStmt, Binding, BindingStmt, Block, BreakStmt, ContinueStmt, DeferAction,
    DeferStmt, DestructureKind, ElseBranch, ExpectConditionStmt, Expr, ExprStmt, ForBinding,
    ForStmt, IfConditionClause, IfStmt, LetElseStmt, MatchCase, MatchCaseBody, MatchStmt,
    Pattern, PatternBindingKind, PatternBindingStmt, RefutableClause, ReturnStmt, Stmt,
    Visibility, WhileStmt,
};
use crate::diagnostic::Diagnostic;
use crate::lexer::{Keyword, TokenKind};
use crate::source::Span;
use crate::text::{concat_str, concat_strings, string_is, str_is};
use super::Parser;

verus! {

/// The assignment that an operator token names: `=` assigns, `:=`
/// reassigns, `+=` `-=` `*=` `/=` update by adding, subtracting, multiplying
/// or dividing; `None` for any other token.
pub open spec fn assign_op_of(kind: TokenKind) -> Option<AssignOp> {
    match kind {
        TokenKind::Eq => Some(AssignOp::Assign),
        TokenKind::ColonAssign => Some(AssignOp::Reassign),
        TokenKind::PlusEq => Some(AssignOp::AddAssign),
        TokenKind::MinusEq => Some(AssignOp::SubAssign),
        TokenKind::StarEq => Some(AssignOp::MulAssign),
        TokenKind::SlashEq => Some(AssignOp::DivAssign),
        _ => None,
    }
}

/// What a `let` statement can be: plain or destructuring bindings, a
/// refutable binding with `else`, or a refutable binding without it.
/// Destructuring takes exactly one initializer, and several plain bindings
/// never take a single one.
pub open spec fn let_stmt_shape(stmt: Stmt) -> bool {
    match stmt {
        Stmt::Binding(b) => {
            &&& b.visibility == Visibility::Default
            &&& b.values@.len() >= 1
            &&& b.destructure is Some ==> b.values@.len() == 1
            &&& b.destructure is None ==> !(b.bindings@.len() > 1 && b.values@.len() == 1)
        },
        Stmt::LetElse(_) => true,
        Stmt::PatternBinding(p) => p.kind == PatternBindingKind::Let,
        _ => false,
    }
}

/// What a `for` statement binds: plain or destructured bindings, or a
/// pattern.
pub(crate) enum ForClauseTarget {
    Bindings { bindings: Vec<Binding>, destructure: Option<DestructureKind> },
    Pattern(Pattern),
}

/// `expected expression on same line after "op"`.
pub(crate) fn same_line_message(operator: &str) -> (s: String)
    ensures
        s@ == "expected expression on same line after \""@ + operator@ + "\""@,
{
    let s = concat_str(String::from_str("expected expression on same line after \""), operator);
    concat_str(s, "\"")
}

impl<'a> Parser<'a> {
    /// Whether the next significant token ends a match case body: `case`,
    /// `}` or the end of input.
    pub(crate) fn at_match_case_body_boundary(&self) -> (b: bool)
        requires
            self.wf(),
        ensures
            b == ({
                let k = self.kind_at(crate::parser::newline_run(self.tokens@, self.index as int));
                k == TokenKind::Keyword(Keyword::Case) || k == TokenKind::RBrace || k == TokenKind::Eof
            }),
    {
        match self.next_significant_token().kind {
            TokenKind::Keyword(Keyword::Case) | TokenKind::RBrace | TokenKind::Eof => true,
            _ => false,
        }
    }

    /// `{ statements }`; a statement that fails to parse is skipped to the
    /// end of its line.
    pub(crate) fn parse_block(&mut self) -> (r: Option<Block>)
        requires
            old(self).wf(),
        ensures
            r is None ==> final(self).diagnostics@.len() > old(self).diagnostics@.len()
                || final(self).silent_failures@ > old(self).silent_failures@,
            final(self).follows(*old(self)),
            r is Some ==> final(self).index > old(self).index,
            old(self).cur_kind() != TokenKind::LBrace ==> r is None,
            old(self).cur_kind() == TokenKind::LBrace
                && old(self).kind_at(crate::parser::newline_run(old(self).tokens@, old(self).index + 1)) == TokenKind::RBrace
                ==> (r matches Some(b) && b.statements@.len() == 0
                    && final(self).index == crate::parser::newline_run(old(self).tokens@, old(self).index + 1) + 1
                    && final(self).diagnostics == old(self).diagnostics),
        decreases old(self).bound@, old(self).remaining(), 1nat,
    {
        let start = self.consume(TokenKind::LBrace, "expected '{'")?;
        self.skip_newlines();
        let mut statements: Vec<Stmt> = Vec::new();
        while !self.at(TokenKind::RBrace) && !self.at(TokenKind::Eof)
            invariant
                self.follows(*old(self)),
                self.index > old(self).index,
                old(self).cur_kind() == TokenKind::LBrace
                    && old(self).kind_at(crate::parser::newline_run(old(self).tokens@, old(self).index + 1)) == TokenKind::RBrace
                    ==> self.index == crate::parser::newline_run(old(self).tokens@, old(self).index + 1) && statements@.len() == 0
                    && self.diagnostics == old(self).diagnostics,
            decreases self.remaining(),
        {
            let ghost before = self.index;
            match self.parse_stmt() {
                Some(stmt) => statements.push(stmt),
                None => self.synchronize_stmt(),
            }
            assert(self.index > before);
            self.skip_newlines();
        }
        let end = self.consume(TokenKind::RBrace, "expected '}' after block")?;
        Some(Block { statements, span: start.cover(end) })
    }

    pub(crate) fn parse_stmt(&mut self) -> (r: Option<Stmt>)
        requires
            old(self).wf(),
        ensures
            r is None ==> final(self).diagnostics@.len() > old(self).diagnostics@.len()
                || final(self).silent_failures@ > old(self).silent_failures@,
            final(self).follows(*old(self)),
            r is Some ==> final(self).index > old(self).index,
            old(self).at_closed_lone_integer() ==> (r matches Some(Stmt::Expr(s)) && old(self).parsed_lone_integer(Some(s.expr), *final(self))),
        decreases old(self).bound@, old(self).remaining(), 27nat,
    {
        self.skip_newlines();
        match self.current_kind() {
            TokenKind::Keyword(Keyword::Def) => {
                let function = self.parse_function_decl(Vec::new(), Visibility::Default)?;
                Some(Stmt::LocalFunction(function))
            },
            TokenKind::Keyword(Keyword::Match) => {
                let m = self.parse_match_stmt(false)?;
                Some(Stmt::Match(m))
            },
            TokenKind::Keyword(Keyword::Partial) => {
                let m = self.parse_match_stmt(true)?;
                Some(Stmt::Match(m))
            },
            TokenKind::Keyword(Keyword::Let) => {
                let checkpoint = self.checkpoint();
                if let Some(expr) = self.try_parse_lambda_expr() {
                    let span = expr.span();
                    return Some(Stmt::Expr(ExprStmt { expr, span }));
                }
                self.restore(checkpoint);
                self.parse_let_stmt()
            },
            TokenKind::Keyword(Keyword::Expect) => self.parse_expect_stmt(),
            TokenKind::Keyword(Keyword::Var) => {
                let stmt = self.parse_binding_stmt_after_var()?;
                Some(Stmt::Binding(stmt))
            },
            TokenKind::Keyword(Keyword::Defer) => {
                let d = self.parse_defer_stmt()?;
                Some(Stmt::Defer(d))
            },
            TokenKind::Keyword(Keyword::If) => {
                let i = self.parse_if_stmt()?;
                Some(Stmt::If(i))
            },
            TokenKind::Keyword(Keyword::While) => {
                let w = self.parse_while_stmt()?;
                Some(Stmt::While(w))
            },
            TokenKind::Keyword(Keyword::For) => {
                if self.is_for_yield_start() {
                    let expr = self.parse_expr()?;
                    let span = expr.span();
                    Some(Stmt::Expr(ExprStmt { expr, span }))
                } else {
                    let f = self.parse_for_stmt()?;
                    Some(Stmt::For(f))
                }
            },
            TokenKind::Keyword(Keyword::Return) => {
                let ret = self.parse_return_stmt()?;
                Some(Stmt::Return(ret))
            },
            TokenKind::Keyword(Keyword::Break) => {
                let b = self.parse_break_stmt()?;
                Some(Stmt::Break(b))
            },
            TokenKind::Keyword(Keyword::Continue) => {
                let c = self.parse_continue_stmt()?;
                Some(Stmt::Continue(c))
            },
            _ => {
                if let Some(binding) = self.try_parse_binding_stmt() {
                    return Some(Stmt::Binding(binding));
                }
                if let Some(assignment) = self.try_parse_assignment_stmt() {
                    return Some(Stmt::Assignment(assignment));
                }
                let expr = self.parse_expr()?;
                let span = expr.span();
                Some(Stmt::Expr(ExprStmt { expr, span }))
            },
        }
    }

    /// `var a, b = x, y`: mutable bindings.
    pub(crate) fn parse_binding_stmt_after_var(&mut self) -> (r: Option<BindingStmt>)
        requires
            old(self).wf(),
        ensures
            r is None ==> final(self).diagnostics@.len() > old(self).diagnostics@.len()
                || final(self).silent_failures@ > old(self).silent_failures@,
            final(self).follows(*old(self)),
            r is Some ==> final(self).index > old(self).index,
            r is Some ==> old(self).cur_kind() == TokenKind::Keyword(Keyword::Var),
            r matches Some(b) ==> b.visibility == Visibility::Default && b.destructure is None
                && b.values@.len() >= 1 && !(b.bindings@.len() > 1 && b.values@.len() == 1),
        decreases old(self).bound@, old(self).remaining(), 1nat,
    {
        let start = self.consume_keyword(Keyword::Var, "expected 'var'")?;
        let bindings = self.parse_binding_list(true)?;
        self.consume(TokenKind::Eq, "expected '=' after bindings")?;
        let values = self.parse_expr_list()?;
        if bindings.len() > 1 && values.len() == 1 {
            self.error_at_current(
                "unexpected_token",
                "destructuring bindings require 'let (...) = value' or 'let { ... } = value'",
            );
            return None;
        }
        let end = values[values.len() - 1].span();
        Some(BindingStmt {
            visibility: Visibility::Default,
            bindings,
            values,
            destructure: None,
            span: start.cover(end),
        })
    }

    /// `defer { ... }` or `defer call(...)` on the same line.
    pub(crate) fn parse_defer_stmt(&mut self) -> (r: Option<DeferStmt>)
        requires
            old(self).wf(),
        ensures
            r is None ==> final(self).diagnostics@.len() > old(self).diagnostics@.len()
                || final(self).silent_failures@ > old(self).silent_failures@,
            final(self).follows(*old(self)),
            r is Some ==> final(self).index > old(self).index,
        decreases old(self).bound@, old(self).remaining(), 1nat,
    {
        let start = self.consume_keyword(Keyword::Defer, "expected 'defer'")?;
        if self.at(TokenKind::LBrace) {
            let block = self.parse_block()?;
            let span = start.cover(block.span);
            return Some(DeferStmt { action: DeferAction::Block(block), span });
        }
        if self.at(TokenKind::Newline) {
            self.error_at_current(
                "expected_expression",
                "expected call expression or block on same line after \"defer\"",
            );
            return None;
        }
        let expr = self.parse_expr()?;
        let is_call = match &expr {
            Expr::Call { .. } => true,
            _ => false,
        };
        if !is_call {
            self.diagnostics.push(Diagnostic::error(
                "invalid_defer_target",
                String::from_str("defer expects a call expression or block"),
                expr.span(),
            ));
            return None;
        }
        let end = expr.span();
        Some(DeferStmt { action: DeferAction::Call(expr), span: start.cover(end) })
    }

    /// `let` forms: `let { f, g } = v`, `let { clauses } [else ...]`,
    /// `let (a, b) = v`, `let a, b = x, y`, and refutable
    /// `let Pattern = v [else ...]` / `let Pattern <- v [else ...]`.
    pub(crate) fn parse_let_stmt(&mut self) -> (r: Option<Stmt>)
        requires
            old(self).wf(),
        ensures
            r is None ==> final(self).diagnostics@.len() > old(self).diagnostics@.len()
                || final(self).silent_failures@ > old(self).silent_failures@,
            final(self).follows(*old(self)),
            r is Some ==> final(self).index > old(self).index,
            r is Some ==> old(self).cur_kind() == TokenKind::Keyword(Keyword::Let),
            r matches Some(stmt) ==> let_stmt_shape(stmt),
            old(self).cur_kind() == TokenKind::Keyword(Keyword::Let)
                && old(self).kind_at(old(self).index + 1) == TokenKind::Identifier
                && old(self).kind_at(old(self).index + 2) == TokenKind::Eq
                && old(self).kind_at(old(self).index + 3) == TokenKind::Integer
                && crate::parser::listless_lone_integer_from(old(self).tokens@, old(self).index + 3)
                ==> (r matches Some(Stmt::Binding(b)) && b.destructure is None && b.bindings@.len() == 1
                    && b.bindings@[0].name@ == old(self).tokens@[old(self).index + 1].lexeme@
                    && b.bindings@[0].ty is None && b.values@.len() == 1
                    && (b.values@[0] matches Expr::Integer { raw, .. } && raw@ == old(self).tokens@[old(self).index + 3].lexeme@)
                    && final(self).diagnostics@ == old(self).diagnostics@),
            old(self).cur_kind() == TokenKind::Keyword(Keyword::Let)
                && old(self).kind_at(old(self).index + 1) == TokenKind::Identifier
                && old(self).tokens@[old(self).index + 1].lexeme@ != "_"@
                && old(self).kind_at(old(self).index + 2) == TokenKind::LParen
                && super::pattern::simple_name_pattern_at(old(self).tokens@, old(self).index + 3)
                && !super::pattern::looks_like_constructor(old(self).tokens@[old(self).index + 3].lexeme@)
                && old(self).kind_at(old(self).index + 4) == TokenKind::RParen
                && old(self).kind_at(old(self).index + 5) == TokenKind::Eq
                && old(self).kind_at(old(self).index + 6) == TokenKind::Integer
                && crate::parser::lone_integer_from(old(self).tokens@, old(self).index + 6)
                ==> (r matches Some(Stmt::PatternBinding(pb)) && pb.kind == PatternBindingKind::Let
                    && pb.clauses@.len() == 0
                    && (pb.pattern matches Pattern::Constructor { path, args, .. } && path@.len() == 1
                        && path@[0]@ == old(self).tokens@[old(self).index + 1].lexeme@ && args@.len() == 1
                        && (args@[0] matches Pattern::Binding { name, .. } && name@ == old(self).tokens@[old(self).index + 3].lexeme@))
                    && (pb.value matches Expr::Integer { raw, .. } && raw@ == old(self).tokens@[old(self).index + 6].lexeme@)
                    && final(self).diagnostics@ == old(self).diagnostics@),
        decreases old(self).bound@, old(self).remaining(), 1nat,
    {
        let start = self.consume_keyword(Keyword::Let, "expected 'let'")?;

        if self.at(TokenKind::LBrace) {
            if self.is_brace_destructuring_binding_start() {
                self.consume(TokenKind::LBrace, "expected '{' after 'let'")?;
                let bindings = self.parse_brace_destructure_binding_list(false)?;
                self.consume(TokenKind::RBrace, "expected '}' after destructuring bindings")?;
                self.consume(TokenKind::Eq, "expected '=' after destructuring bindings")?;
                let values = self.parse_expr_list()?;
                if values.len() != 1 {
                    self.error_at_current(
                        "unexpected_token",
                        "destructuring bindings require a single initializer expression",
                    );
                    return None;
                }
                let end = values[values.len() - 1].span();
                return Some(Stmt::Binding(BindingStmt {
                    visibility: Visibility::Default,
                    bindings,
                    values,
                    destructure: Some(DestructureKind::Record),
                    span: start.cover(end),
                }));
            }
            let (clauses, clauses_end) = self.parse_refutable_clause_block("let")?;
            if self.match_keyword(Keyword::Else) {
                let else_block = self.parse_block_or_inline_stmt_body("let else")?;
                let end = else_block.span;
                return Some(Stmt::LetElse(LetElseStmt {
                    clauses,
                    pattern: Pattern::Wildcard { span: clauses_end },
                    value: Expr::Unit { span: clauses_end },
                    else_block,
                    span: start.cover(end),
                }));
            }
            return Some(Stmt::PatternBinding(PatternBindingStmt {
                kind: PatternBindingKind::Let,
                clauses,
                pattern: Pattern::Wildcard { span: clauses_end },
                value: Expr::Unit { span: clauses_end },
                span: start.cover(clauses_end),
            }));
        }

        if self.match_token(TokenKind::LParen) {
            let bindings = self.parse_binding_list(false)?;
            self.consume(TokenKind::RParen, "expected ')' after destructuring bindings")?;
            self.consume(TokenKind::Eq, "expected '=' after destructuring bindings")?;
            let values = self.parse_expr_list()?;
            if values.len() != 1 {
                self.error_at_current(
                    "unexpected_token",
                    "destructuring bindings require a single initializer expression",
                );
                return None;
            }
            let end = values[values.len() - 1].span();
            return Some(Stmt::Binding(BindingStmt {
                visibility: Visibility::Default,
                bindings,
                values,
                destructure: Some(DestructureKind::Tuple),
                span: start.cover(end),
            }));
        }

        let checkpoint = self.checkpoint();
        if self.is_binding_start() && !(self.at(TokenKind::Identifier) && (self.at_next(TokenKind::LParen)
            || self.at_next(TokenKind::Dot))) {
            if let Some(bindings) = self.parse_binding_list(false) {
                if self.match_token(TokenKind::Eq) {
                    let ghost at_value = *self;
                    let values = self.parse_expr_list()?;
                    proof {
                        if at_value.at_listless_lone_integer() {
                            at_value.lemma_lone_integer_rest(self.index as int);
                        }
                    }
                    if self.match_keyword(Keyword::Else) {
                        if !(bindings.len() == 1 && bindings[0].ty.is_some() && values.len() == 1) {
                            self.error_at_current(
                                "unexpected_token",
                                "plain 'let name = value' bindings do not support 'else'; use a refutable pattern like 'let Some(name) = value else { ... }'",
                            );
                            return None;
                        }
                    } else {
                        if bindings.len() > 1 && values.len() == 1 {
                            self.error_at_current(
                                "unexpected_token",
                                "destructuring bindings require 'let (...) = value' or 'let { ... } = value'",
                            );
                            return None;
                        }
                        let end = values[values.len() - 1].span();
                        return Some(Stmt::Binding(BindingStmt {
                            visibility: Visibility::Default,
                            bindings,
                            values,
                            destructure: None,
                            span: start.cover(end),
                        }));
                    }
                }
            }
        }
        self.restore(checkpoint);

        let (pattern, operator) = self.parse_refutable_pattern_head("let")?;
        if !str_is(operator, "=") && self.at(TokenKind::Newline) {
            self.error_at_current_owned("expected_expression", same_line_message(operator));
            return None;
        }
        let ghost at_value = *self;
        let value = self.parse_expr()?;
        proof {
            if at_value.at_lone_integer() {
                at_value.lemma_lone_integer_rest(self.index as int);
            }
        }
        if self.match_keyword(Keyword::Else) {
            let else_block = self.parse_block_or_inline_stmt_body("let else")?;
            let end = else_block.span;
            return Some(Stmt::LetElse(LetElseStmt {
                clauses: Vec::new(),
                pattern,
                value,
                else_block,
                span: start.cover(end),
            }));
        }
        let end = value.span();
        Some(Stmt::PatternBinding(PatternBindingStmt {
            kind: PatternBindingKind::Let,
            clauses: Vec::new(),
            pattern,
            value,
            span: start.cover(end),
        }))
    }

    /// `expect { clauses }`, `expect Pattern = v`, `expect Pattern <- v`, or
    /// `expect condition`; none of them takes `else`.
    pub(crate) fn parse_expect_stmt(&mut self) -> (r: Option<Stmt>)
        requires
            old(self).wf(),
        ensures
            r is None ==> final(self).diagnostics@.len() > old(self).diagnostics@.len()
                || final(self).silent_failures@ > old(self).silent_failures@,
            final(self).follows(*old(self)),
            r is Some ==> final(self).index > old(self).index,
        decreases old(self).bound@, old(self).remaining(), 1nat,
    {
        let start = self.consume_keyword(Keyword::Expect, "expected 'expect'")?;

        if self.at(TokenKind::LBrace) {
            let (clauses, clauses_end) = self.parse_refutable_clause_block("expect")?;
            if self.match_keyword(Keyword::Else) {
                self.error_at_current(
                    "unexpected_token",
                    "expect does not support 'else'; use 'let ... else ...' or plain 'expect'",
                );
                return None;
            }
            return Some(Stmt::PatternBinding(PatternBindingStmt {
                kind: PatternBindingKind::Expect,
                clauses,
                pattern: Pattern::Wildcard { span: clauses_end },
                value: Expr::Unit { span: clauses_end },
                span: start.cover(clauses_end),
            }));
        }

        let checkpoint = self.checkpoint();
        if let Some(pattern) = self.parse_pattern() {
            let (pattern, operator) = if self.match_token(TokenKind::Eq) {
                (pattern, "=")
            } else if self.match_token(TokenKind::LeftArrow) {
                (self.wrap_extract_pattern(pattern), "<-")
            } else {
                self.restore(checkpoint);
                let condition = self.parse_expr()?;
                if self.match_keyword(Keyword::Else) {
                    self.error_at_current(
                        "unexpected_token",
                        "expect does not support 'else'; use 'let ... else ...' or plain 'expect'",
                    );
                    return None;
                }
                let end = condition.span();
                return Some(Stmt::ExpectCondition(ExpectConditionStmt { condition, span: start.cover(end) }));
            };
            if !str_is(operator, "=") && self.at(TokenKind::Newline) {
                self.error_at_current_owned("expected_expression", same_line_message(operator));
                return None;
            }
            let value = self.parse_expr()?;
            if self.match_keyword(Keyword::Else) {
                self.error_at_current(
                    "unexpected_token",
                    "expect does not support 'else'; use 'let ... else ...' or plain 'expect'",
                );
                return None;
            }
            let end = value.span();
            return Some(Stmt::PatternBinding(PatternBindingStmt {
                kind: PatternBindingKind::Expect,
                clauses: Vec::new(),
                pattern,
                value,
                span: start.cover(end),
            }));
        }
        self.restore(checkpoint);

        let condition = self.parse_expr()?;
        if self.match_keyword(Keyword::Else) {
            self.error_at_current(
                "unexpected_token",
                "expect does not support 'else'; use 'let ... else ...' or plain 'expect'",
            );
            return None;
        }
        let end = condition.span();
        Some(Stmt::ExpectCondition(ExpectConditionStmt { condition, span: start.cover(end) }))
    }

    /// `a, b = x, y` when it starts here; rewinds and gives up otherwise.
    pub(crate) fn try_parse_binding_stmt(&mut self) -> (r: Option<BindingStmt>)
        requires
            old(self).wf(),
        ensures
            final(self).follows(*old(self)),
            r is Some ==> final(self).index > old(self).index,
            old(self).cur_kind() != TokenKind::Identifier ==> r is None && final(self).index == old(self).index
                && final(self).diagnostics@ == old(self).diagnostics@,
            old(self).cur_kind() == TokenKind::Identifier && old(self).kind_at(old(self).index + 1) == TokenKind::Eq
                && old(self).kind_at(old(self).index + 2) == TokenKind::Integer
                && crate::parser::listless_lone_integer_from(old(self).tokens@, old(self).index + 2)
                ==> (r matches Some(b) && b.bindings@.len() == 1 && b.values@.len() == 1),
        decreases old(self).bound@, old(self).remaining(), 1nat,
    {
        if !self.is_binding_start() {
            return None;
        }
        let checkpoint = self.checkpoint();
        let bindings = match self.parse_binding_list(false) {
            Some(bindings) => bindings,
            None => {
                self.restore(checkpoint);
                return None;
            },
        };
        if !self.match_token(TokenKind::Eq) {
            self.restore(checkpoint);
            return None;
        }
        let values = self.parse_expr_list()?;
        if bindings.len() > 1 && values.len() == 1 {
            self.error_at_current(
                "unexpected_token",
                "destructuring bindings require 'let (...) = value' or 'let { ... } = value'",
            );
            return None;
        }
        let start = bindings[0].span;
        let end = values[values.len() - 1].span();
        Some(BindingStmt {
            visibility: Visibility::Default,
            bindings,
            values,
            destructure: None,
            span: start.cover(end),
        })
    }

    /// `name` or `name Type` (the type on the same line).
    pub(crate) fn parse_binding(&mut self, mutable: bool) -> (r: Option<Binding>)
        requires
            old(self).wf(),
        ensures
            r is None ==> final(self).diagnostics@.len() > old(self).diagnostics@.len()
                || final(self).silent_failures@ > old(self).silent_failures@,
            final(self).follows(*old(self)),
            r is Some ==> final(self).index > old(self).index,
            r matches Some(b) ==> b.mutable == mutable && b.field_name is None,
            old(self).cur_kind() == TokenKind::Identifier && old(self).kind_at(old(self).index + 1) != TokenKind::Identifier
                && old(self).kind_at(old(self).index + 1) != TokenKind::LParen
                && old(self).kind_at(old(self).index + 1) != TokenKind::LBrace
                ==> (r matches Some(b) && b.ty is None && final(self).index == old(self).index + 1
                    && b.name@ == old(self).tokens@[old(self).index as int].lexeme@
                    && final(self).diagnostics@ == old(self).diagnostics@),
    {
        let (name, start) = self.expect_binding_name("expected binding name")?;
        let ty = if self.binding_type_starts_on_same_line(start) && self.can_start_type_ref() {
            Some(self.parse_type_ref()?)
        } else {
            None
        };
        let end = match &ty {
            Some(t) => t.span(),
            None => start,
        };
        Some(Binding { name, field_name: None, ty, mutable, span: start.cover(end) })
    }

    /// One entry of brace destructuring: `field`, `field Type`,
    /// `field as local` or `field Type as local`.
    pub(crate) fn parse_brace_destructure_binding(&mut self, mutable: bool) -> (r: Option<Binding>)
        requires
            old(self).wf(),
        ensures
            r is None ==> final(self).diagnostics@.len() > old(self).diagnostics@.len()
                || final(self).silent_failures@ > old(self).silent_failures@,
            final(self).follows(*old(self)),
            r is Some ==> final(self).index > old(self).index,
            r matches Some(b) ==> b.mutable == mutable && b.field_name is Some,
    {
        if self.at(TokenKind::At) {
            self.error_at_current(
                "unexpected_token",
                "brace destructuring uses 'field', 'field Type', 'field as local', or 'field Type as local'; '@field' is unsupported",
            );
            return None;
        }
        let (field_name, field_span) = self.expect_identifier("expected field name in brace destructuring")?;
        if string_is(&field_name, "_") {
            self.error_at_current(
                "unexpected_token",
                "brace destructuring matches by field name; omit fields you do not need",
            );
            return None;
        }
        let ty = if self.binding_type_starts_on_same_line(field_span) && self.can_start_type_ref() {
            Some(self.parse_type_ref()?)
        } else {
            None
        };
        let typed_span = match &ty {
            Some(t) => t.span(),
            None => field_span,
        };
        let (name, end) = if self.match_keyword(Keyword::As) {
            let (alias, alias_span) = self.expect_binding_name("expected local binding name after 'as'")?;
            if string_is(&alias, "_") {
                self.error_at_current(
                    "unexpected_token",
                    "brace destructuring matches by field name; omit fields you do not need",
                );
                return None;
            }
            (alias, alias_span)
        } else {
            (field_name.clone(), typed_span)
        };
        Some(Binding { name, field_name: Some(field_name), ty, mutable, span: field_span.cover(end) })
    }

    pub(crate) fn parse_brace_destructure_binding_list(&mut self, mutable: bool) -> (r: Option<Vec<Binding>>)
        requires
            old(self).wf(),
        ensures
            r is None ==> final(self).diagnostics@.len() > old(self).diagnostics@.len()
                || final(self).silent_failures@ > old(self).silent_failures@,
            final(self).follows(*old(self)),
            r is Some ==> final(self).index > old(self).index,
            r matches Some(v) ==> v@.len() > 0,
    {
        let first = self.parse_brace_destructure_binding(mutable)?;
        let mut bindings = vec![first];
        while self.match_token(TokenKind::Comma)
            invariant
                self.follows(*old(self)),
                self.index > old(self).index,
                bindings@.len() > 0,
            decreases self.remaining(),
        {
            bindings.push(self.parse_brace_destructure_binding(mutable)?);
        }
        Some(bindings)
    }

    pub(crate) fn parse_binding_list(&mut self, mutable: bool) -> (r: Option<Vec<Binding>>)
        requires
            old(self).wf(),
        ensures
            r is None ==> final(self).diagnostics@.len() > old(self).diagnostics@.len()
                || final(self).silent_failures@ > old(self).silent_failures@,
            final(self).follows(*old(self)),
            r is Some ==> final(self).index > old(self).index,
            r matches Some(v) ==> v@.len() > 0,
            old(self).cur_kind() == TokenKind::Identifier && old(self).kind_at(old(self).index + 1) != TokenKind::Identifier
                && old(self).kind_at(old(self).index + 1) != TokenKind::LParen
                && old(self).kind_at(old(self).index + 1) != TokenKind::LBrace
                && old(self).kind_at(old(self).index + 1) != TokenKind::Comma
                ==> (r matches Some(v) && v@.len() == 1 && final(self).index == old(self).index + 1
                    && v@[0].name@ == old(self).tokens@[old(self).index as int].lexeme@ && v@[0].ty is None
                    && final(self).diagnostics@ == old(self).diagnostics@),
    {
        let first = self.parse_binding(mutable)?;
        let mut bindings: Vec<Binding> = vec![first];
        while self.match_token(TokenKind::Comma)
            invariant
                self.follows(*old(self)),
                self.index > old(self).index,
                bindings@.len() > 0,
                old(self).cur_kind() == TokenKind::Identifier && old(self).kind_at(old(self).index + 1) != TokenKind::Identifier
                    && old(self).kind_at(old(self).index + 1) != TokenKind::LParen
                    && old(self).kind_at(old(self).index + 1) != TokenKind::LBrace
                    && old(self).kind_at(old(self).index + 1) != TokenKind::Comma
                    ==> bindings@.len() == 1 && self.index == old(self).index + 1
                    && bindings@[0].name@ == old(self).tokens@[old(self).index as int].lexeme@ && bindings@[0].ty is None
                    && self.diagnostics@ == old(self).diagnostics@,
            decreases self.remaining(),
        {
            bindings.push(self.parse_binding(mutable)?);
        }
        Some(bindings)
    }

    /// The single plain binding of `for x <- xs yield ...`; a type on it is
    /// reported.
    pub(crate) fn parse_plain_for_generator_binding(&mut self) -> (r: Option<Binding>)
        requires
            old(self).wf(),
        ensures
            r is None ==> final(self).diagnostics@.len() > old(self).diagnostics@.len()
                || final(self).silent_failures@ > old(self).silent_failures@,
            final(self).follows(*old(self)),
            r is Some ==> final(self).index > old(self).index,
    {
        let binding = self.parse_binding(false)?;
        if binding.ty.is_some() {
            self.error_at_current(
                "invalid_for_generator",
                "for generator must bind a plain identifier or '_' before '<-'; use 'let (...) <-' or 'let { ... } <-' for irrefutable destructuring",
            );
            return None;
        }
        Some(binding)
    }

    /// The `<-` of a for generator.
    pub(crate) fn consume_for_generator_arrow(&mut self) -> (r: Option<Span>)
        requires
            old(self).wf(),
        ensures
            r is None ==> final(self).diagnostics@.len() > old(self).diagnostics@.len()
                || final(self).silent_failures@ > old(self).silent_failures@,
            final(self).follows(*old(self)),
            r is Some ==> final(self).index == old(self).index + 1,
    {
        self.consume(TokenKind::LeftArrow, "expected '<-' after for binding")
    }

    /// What a `for` statement binds before its `<-`: `{ f, g }`, `(a, b)`, a
    /// single binding, or a pattern.
    pub(crate) fn parse_for_clause_target(&mut self, mutable: bool) -> (r: Option<ForClauseTarget>)
        requires
            old(self).wf(),
        ensures
            r is None ==> final(self).diagnostics@.len() > old(self).diagnostics@.len()
                || final(self).silent_failures@ > old(self).silent_failures@,
            final(self).follows(*old(self)),
            r is Some ==> final(self).index > old(self).index,
    {
        if self.at(TokenKind::LBrace) && self.is_for_brace_destructuring_binding_start() {
            self.consume(TokenKind::LBrace, "expected '{' before for destructuring bindings")?;
            let bindings = self.parse_brace_destructure_binding_list(mutable)?;
            self.consume(TokenKind::RBrace, "expected '}' after class destructuring bindings in for clause")?;
            return Some(ForClauseTarget::Bindings { bindings, destructure: Some(DestructureKind::Record) });
        }

        if self.match_token(TokenKind::LParen) {
            let bindings = self.parse_binding_list(mutable)?;
            self.consume(TokenKind::RParen, "expected ')' after tuple destructuring bindings in for clause")?;
            return Some(ForClauseTarget::Bindings { bindings, destructure: Some(DestructureKind::Tuple) });
        }

        if self.is_binding_start() && !(self.at(TokenKind::Identifier) && (self.at_next(TokenKind::LParen)
            || self.at_next(TokenKind::Dot))) {
            let checkpoint = self.checkpoint();
            if let Some(bindings) = self.parse_binding_list(mutable) {
                if bindings.len() > 1 {
                    self.error_at_current(
                        "unexpected_token",
                        "tuple destructuring in 'for' requires parentheses around bindings",
                    );
                    return None;
                }
                if self.at(TokenKind::LeftArrow) || self.at(TokenKind::Eq) {
                    return Some(ForClauseTarget::Bindings { bindings, destructure: None });
                }
            }
            self.restore(checkpoint);
        }

        let pattern = self.parse_pattern()?;
        Some(ForClauseTarget::Pattern(pattern))
    }

    pub(crate) fn is_binding_start(&self) -> (b: bool)
        requires
            self.wf(),
        ensures
            b == (self.cur_kind() == TokenKind::Identifier),
    {
        self.at(TokenKind::Identifier)
    }

    /// Whether `{ f, g } =` (brace destructuring) starts here.
    pub(crate) fn is_brace_destructuring_binding_start(&self) -> (b: bool)
        requires
            self.wf(),
        ensures
            b ==> self.cur_kind() == TokenKind::LBrace,
            self.cur_kind() == TokenKind::LBrace && self.kind_at(self.index + 1) == TokenKind::At ==> b,
            self.cur_kind() == TokenKind::LBrace && self.kind_at(self.index + 1) != TokenKind::At
                && self.kind_at(self.index + 1) != TokenKind::Identifier ==> !b,
    {
        if !self.at(TokenKind::LBrace) {
            return false;
        }
        let mut parser = self.lookahead_at(self.index);
        if !parser.match_token(TokenKind::LBrace) {
            return false;
        }
        if parser.at(TokenKind::At) || parser.is_placeholder_identifier() {
            return true;
        }
        if !parser.at(TokenKind::Identifier) {
            return false;
        }
        if parser.parse_brace_destructure_binding_list(false).is_none() {
            return false;
        }
        parser.match_token(TokenKind::RBrace) && parser.at(TokenKind::Eq)
    }

    /// Whether `{ f, g } <-` or `{ f, g } =` (brace destructuring in a `for`)
    /// starts here.
    pub(crate) fn is_for_brace_destructuring_binding_start(&self) -> (b: bool)
        requires
            self.wf(),
        ensures
            b ==> self.cur_kind() == TokenKind::LBrace,
            self.cur_kind() == TokenKind::LBrace && self.kind_at(self.index + 1) == TokenKind::At ==> b,
            self.cur_kind() == TokenKind::LBrace && self.kind_at(self.index + 1) != TokenKind::At
                && self.kind_at(self.index + 1) != TokenKind::Identifier ==> !b,
    {
        if !self.at(TokenKind::LBrace) {
            return false;
        }
        let mut parser = self.lookahead_at(self.index);
        if !parser.match_token(TokenKind::LBrace) {
            return false;
        }
        if parser.at(TokenKind::At) || parser.is_placeholder_identifier() {
            return true;
        }
        if !parser.at(TokenKind::Identifier) {
            return false;
        }
        if parser.parse_brace_destructure_binding_list(false).is_none() {
            return false;
        }
        parser.match_token(TokenKind::RBrace) && (parser.at(TokenKind::LeftArrow) || parser.at(TokenKind::Eq))
    }

    /// `targets op values` with `=`, `:=`, `+=`, `-=`, `*=` or `/=`; rewinds
    /// and gives up when no assignment starts here.
    pub(crate) fn try_parse_assignment_stmt(&mut self) -> (r: Option<AssignmentStmt>)
        requires
            old(self).wf(),
        ensures
            final(self).follows(*old(self)),
            r is Some ==> final(self).index > old(self).index,
            old(self).at_closed_lone_integer() ==> r is None && final(self).index == old(self).index
                && final(self).diagnostics@ == old(self).diagnostics@,
            old(self).at_lone_integer() && old(self).kind_at(old(self).next_significant() + 1) == TokenKind::Eq
                && old(self).kind_at(old(self).next_significant() + 2) == TokenKind::Integer
                && crate::parser::listless_lone_integer_from(old(self).tokens@, old(self).next_significant() + 2)
                ==> (r matches Some(a) && a.targets@.len() == 1 && a.values@.len() == 1),
            r matches Some(a) ==> exists|j: int| old(self).index <= j < final(self).index
                && #[trigger] assign_op_of(old(self).tokens@[j].kind) == Some(a.operator),
        decreases old(self).bound@, old(self).remaining(), 25nat,
    {
        let checkpoint = self.checkpoint();
        let targets = match self.parse_expr_list() {
            Some(targets) => targets,
            None => {
                self.restore(checkpoint);
                return None;
            },
        };
        proof {
            if old(self).at_listless_lone_integer() {
                old(self).lemma_lone_integer_rest(self.index as int);
            }
        }
        let ghost j = self.index as int;
        let operator = if self.match_token(TokenKind::Eq) {
            AssignOp::Assign
        } else if self.match_token(TokenKind::ColonAssign) {
            AssignOp::Reassign
        } else if self.match_token(TokenKind::PlusEq) {
            AssignOp::AddAssign
        } else if self.match_token(TokenKind::MinusEq) {
            AssignOp::SubAssign
        } else if self.match_token(TokenKind::StarEq) {
            AssignOp::MulAssign
        } else if self.match_token(TokenKind::SlashEq) {
            AssignOp::DivAssign
        } else {
            self.restore(checkpoint);
            return None;
        };
        if operator != AssignOp::Assign && self.at(TokenKind::Newline) {
            let lexeme = self.tokens[self.index - 1].lexeme.as_str();
            self.error_at_current_owned("expected_expression", same_line_message(lexeme));
            return None;
        }
        let values = match self.parse_expr_list() {
            Some(values) => values,
            None => {
                self.restore(checkpoint);
                return None;
            },
        };
        assert(assign_op_of(old(self).tokens@[j].kind) == Some(operator));
        let start = targets[0].span();
        let end = values[values.len() - 1].span();
        Some(AssignmentStmt { targets, operator, values, span: start.cover(end) })
    }

    /// `if cond { ... }`, `if let Pattern = v { ... }`, `if let { clauses }`,
    /// and `&&`-joined mixes of conditions and `let` clauses, with an
    /// optional `else` branch; a pattern without `let` is reported.
    pub(crate) fn parse_if_stmt(&mut self) -> (r: Option<IfStmt>)
        requires
            old(self).wf(),
        ensures
            r is None ==> final(self).diagnostics@.len() > old(self).diagnostics@.len()
                || final(self).silent_failures@ > old(self).silent_failures@,
            final(self).follows(*old(self)),
            r is Some ==> final(self).index > old(self).index,
        decreases old(self).bound@, old(self).remaining(), 1nat,
    {
        let start = self.consume_keyword(Keyword::If, "expected 'if'")?;
        assert(self.tokens@[self.index - 1].kind == TokenKind::Keyword(Keyword::If));
        assert(super::holds_if(self.tokens@));
        let mut condition: Option<Expr> = None;
        let mut condition_clauses: Vec<IfConditionClause> = Vec::new();
        let mut pattern: Option<Pattern> = None;
        let mut pattern_value: Option<Expr> = None;
        let mut pattern_clauses: Vec<RefutableClause> = Vec::new();
        if self.match_keyword(Keyword::Let) {
            if self.at(TokenKind::LBrace) {
                let (clauses, _) = self.parse_refutable_clause_block("if let")?;
                if self.at(TokenKind::AndAnd) {
                    let mut initial: Vec<IfConditionClause> = Vec::new();
                    let mut clauses = clauses;
                    while clauses.len() > 0
                        decreases clauses@.len(),
                    {
                        initial.push(IfConditionClause::Let(clauses.remove(0)));
                    }
                    condition_clauses = self.parse_if_condition_clauses(initial)?;
                } else {
                    pattern_clauses = clauses;
                }
            } else {
                let clause = self.parse_if_condition_refutable_clause("if let")?;
                if self.at(TokenKind::AndAnd) {
                    condition_clauses = self.parse_if_condition_clauses(vec![IfConditionClause::Let(clause)])?;
                } else {
                    pattern = Some(clause.pattern);
                    pattern_value = Some(clause.value);
                }
            }
        } else if self.pattern_followed_by_refutable_operator(self.index) {
            self.error_at_current(
                "unexpected_token",
                "pattern matches in 'if' require 'let'; use 'if let Pattern = value { ... }' or 'if let Pattern <- value { ... }'",
            );
            return None;
        } else {
            condition = Some(self.parse_expr_without_trailing_block_call()?);
        }
        let then_block = self.parse_if_body_block()?;
        let else_branch = if self.match_keyword(Keyword::Else) {
            if self.at(TokenKind::Newline) {
                self.error_at_current(
                    "unexpected_token",
                    "else body must stay on the same line unless it uses '{ ... }'",
                );
                return None;
            }
            if self.at_keyword(Keyword::If) {
                Some(ElseBranch::If(Box::new(self.parse_if_stmt()?)))
            } else {
                Some(ElseBranch::Block(self.parse_block_or_inline_stmt_body("else")?))
            }
        } else {
            None
        };
        let end = match &else_branch {
            Some(ElseBranch::If(if_stmt)) => if_stmt.span,
            Some(ElseBranch::Block(block)) => block.span,
            None => then_block.span,
        };
        Some(IfStmt {
            condition,
            condition_clauses,
            pattern,
            pattern_value,
            pattern_clauses,
            bindings: Vec::new(),
            binding_value: None,
            then_block,
            else_branch,
            span: start.cover(end),
        })
    }

    pub(crate) fn parse_while_stmt(&mut self) -> (r: Option<WhileStmt>)
        requires
            old(self).wf(),
        ensures
            r is None ==> final(self).diagnostics@.len() > old(self).diagnostics@.len()
                || final(self).silent_failures@ > old(self).silent_failures@,
            final(self).follows(*old(self)),
            r is Some ==> final(self).index > old(self).index,
        decreases old(self).bound@, old(self).remaining(), 1nat,
    {
        let start = self.consume_keyword(Keyword::While, "expected 'while'")?;
        let condition = self.parse_expr_without_trailing_block_call()?;
        let body = self.parse_block()?;
        let span = start.cover(body.span);
        Some(WhileStmt { condition, body, span })
    }

    /// `for target <- iterable { ... }`; the body must be a block.
    pub(crate) fn parse_for_stmt(&mut self) -> (r: Option<ForStmt>)
        requires
            old(self).wf(),
        ensures
            r is None ==> final(self).diagnostics@.len() > old(self).diagnostics@.len()
                || final(self).silent_failures@ > old(self).silent_failures@,
            final(self).follows(*old(self)),
            r is Some ==> final(self).index > old(self).index,
        decreases old(self).bound@, old(self).remaining(), 1nat,
    {
        let start = self.consume_keyword(Keyword::For, "expected 'for'")?;
        let target = self.parse_for_clause_target(false)?;
        self.consume(TokenKind::LeftArrow, "expected '<-' in for loop")?;
        if self.at(TokenKind::Newline) {
            self.error_at_current("expected_expression", "expected expression on same line after \"<-\"");
            return None;
        }
        let iterable = self.parse_expr_without_trailing_block_call()?;
        if !self.at(TokenKind::LBrace) {
            self.error_at_current(
                "unexpected_token",
                "for requires a '{ ... }' block body; one-line for forms are not supported",
            );
            return None;
        }
        let body = self.parse_block()?;
        let (bindings, destructure, pattern, target_span) = match target {
            ForClauseTarget::Bindings { bindings, destructure } => {
                let target_span = if bindings.len() > 0 { bindings[0].span } else { start };
                (bindings, destructure, None, target_span)
            },
            ForClauseTarget::Pattern(pattern) => {
                let pattern_span = pattern.span();
                (Vec::new(), None, Some(pattern), pattern_span)
            },
        };
        let binding_span = target_span.cover(iterable.span());
        let span = start.cover(body.span);
        Some(ForStmt {
            bindings: vec![ForBinding {
                span: binding_span,
                bindings,
                destructure,
                pattern,
                iterable: Some(iterable),
                values: Vec::new(),
            }],
            body,
            span,
        })
    }

    /// `match value { case ... }` (or `partial ...`) as a statement; a
    /// missing value stands as `_`.
    pub(crate) fn parse_match_stmt(&mut self, partial: bool) -> (r: Option<MatchStmt>)
        requires
            old(self).wf(),
        ensures
            r is None ==> final(self).diagnostics@.len() > old(self).diagnostics@.len()
                || final(self).silent_failures@ > old(self).silent_failures@,
            final(self).follows(*old(self)),
            r is Some ==> final(self).index > old(self).index,
        decreases old(self).bound@, old(self).remaining(), 1nat,
    {
        let start = if partial {
            self.consume_keyword(Keyword::Partial, "expected 'partial'")?
        } else {
            self.consume_keyword(Keyword::Match, "expected 'match'")?
        };
        let value = if self.at(TokenKind::LBrace) {
            Expr::Placeholder { span: start }
        } else {
            self.parse_expr_without_trailing_block_call()?
        };
        let (cases, end) = self.parse_match_cases()?;
        Some(MatchStmt { partial, value, cases, span: start.cover(end) })
    }

    /// `{ case Pattern [if guard] => body ... }`.
    pub(crate) fn parse_match_cases(&mut self) -> (r: Option<(Vec<MatchCase>, Span)>)
        requires
            old(self).wf(),
        ensures
            r is None ==> final(self).diagnostics@.len() > old(self).diagnostics@.len()
                || final(self).silent_failures@ > old(self).silent_failures@,
            final(self).follows(*old(self)),
            r is Some ==> final(self).index > old(self).index,
        decreases old(self).bound@, old(self).remaining(), 1nat,
    {
        if !self.at(TokenKind::LBrace) {
            let got = self.next_significant_token_string();
            let message = concat_strings(String::from_str("expected end of expression, got "), &got);
            self.error_at_current_owned("unexpected_token", message);
            return None;
        }
        self.consume(TokenKind::LBrace, "expected '{' after match value")?;
        self.skip_newlines();
        let mut cases = Vec::new();
        while !self.at(TokenKind::RBrace) && !self.at(TokenKind::Eof)
            invariant
                self.follows(*old(self)),
                self.index > old(self).index,
            decreases self.remaining(),
        {
            if !self.at_keyword(Keyword::Case) {
                let got = self.next_significant_token_string();
                let message = concat_strings(String::from_str("expected 'case' before match pattern, got "), &got);
                self.error_at_current_owned("unexpected_token", message);
                return None;
            }
            self.consume_keyword(Keyword::Case, "expected 'case' before match pattern")?;
            let pattern = self.parse_pattern()?;
            let guard = if self.match_keyword(Keyword::If) {
                Some(self.parse_expr()?)
            } else {
                None
            };
            self.consume(TokenKind::FatArrow, "expected '=>' after match pattern")?;
            let body = self.parse_match_case_body()?;
            let end = match &body {
                MatchCaseBody::Block(block) => block.span,
                MatchCaseBody::Expr(expr) => expr.span(),
            };
            let span = pattern.span().cover(end);
            cases.push(MatchCase { pattern, guard, body, span });
            self.skip_newlines();
        }
        let end = self.consume(TokenKind::RBrace, "expected '}' after match cases")?;
        Some((cases, end))
    }

    /// A case body: a block, an expression that ends the case, or one
    /// statement (wrapped in a block unless it is an expression).
    pub(crate) fn parse_match_case_body(&mut self) -> (r: Option<MatchCaseBody>)
        requires
            old(self).wf(),
        ensures
            r is None ==> final(self).diagnostics@.len() > old(self).diagnostics@.len()
                || final(self).silent_failures@ > old(self).silent_failures@,
            final(self).follows(*old(self)),
            r is Some ==> final(self).index > old(self).index,
            ({
                let k = old(self).kind_at(crate::parser::newline_run(old(self).tokens@, old(self).index as int));
                k == TokenKind::Keyword(Keyword::Case) || k == TokenKind::RBrace || k == TokenKind::Eof
            }) ==> r is None,
        decreases old(self).bound@, old(self).remaining(), 28nat,
    {
        self.skip_newlines();
        if self.at_match_case_body_boundary() {
            self.error_at_current(
                "expected_match_case_body",
                "expected match case body; use '()' for Unit or '{}' for an empty block",
            );
            return None;
        }
        if self.at(TokenKind::LBrace) {
            return match self.parse_block() {
                Some(block) => Some(MatchCaseBody::Block(block)),
                None => None,
            };
        }
        let checkpoint = self.checkpoint();
        if let Some(expr) = self.parse_expr() {
            if self.at_match_case_body_boundary() {
                return Some(MatchCaseBody::Expr(expr));
            }
        }
        self.restore(checkpoint);
        let stmt = self.parse_stmt()?;
        match stmt {
            Stmt::Expr(expr_stmt) => Some(MatchCaseBody::Expr(expr_stmt.expr)),
            other => {
                let span = other.span();
                Some(MatchCaseBody::Block(Block { statements: vec![other], span }))
            },
        }
    }

    /// `return` with an optional value on the same line.
    pub(crate) fn parse_return_stmt(&mut self) -> (r: Option<ReturnStmt>)
        requires
            old(self).wf(),
        ensures
            r is None ==> final(self).diagnostics@.len() > old(self).diagnostics@.len()
                || final(self).silent_failures@ > old(self).silent_failures@,
            final(self).follows(*old(self)),
            r is Some ==> final(self).index > old(self).index,
            old(self).cur_kind() != TokenKind::Keyword(Keyword::Return) ==> r is None,
            old(self).cur_kind() == TokenKind::Keyword(Keyword::Return) && (old(self).kind_at(old(self).index + 1)
                == TokenKind::Newline || old(self).kind_at(old(self).index + 1) == TokenKind::RBrace
                || old(self).kind_at(old(self).index + 1) == TokenKind::Eof)
                ==> (r matches Some(ret) && ret.value is None && ret.span == old(self).tokens@[old(self).index as int].span
                    && final(self).index == old(self).index + 1),
        decreases old(self).bound@, old(self).remaining(), 1nat,
    {
        let start = self.consume_keyword(Keyword::Return, "expected 'return'")?;
        if self.at(TokenKind::Newline) || self.at(TokenKind::RBrace) || self.at(TokenKind::Eof) {
            return Some(ReturnStmt { value: None, span: start });
        }
        let value = self.parse_expr()?;
        let end = value.span();
        Some(ReturnStmt { value: Some(value), span: start.cover(end) })
    }

    pub(crate) fn parse_break_stmt(&mut self) -> (r: Option<BreakStmt>)
        requires
            old(self).wf(),
        ensures
            r is None ==> final(self).diagnostics@.len() > old(self).diagnostics@.len()
                || final(self).silent_failures@ > old(self).silent_failures@,
            final(self).follows(*old(self)),
            r is Some ==> final(self).index > old(self).index,
            r is Some <==> old(self).cur_kind() == TokenKind::Keyword(Keyword::Break),
            r matches Some(b) ==> b.span == old(self).tokens@[old(self).index as int].span,
    {
        let span = self.consume_keyword(Keyword::Break, "expected 'break'")?;
        Some(BreakStmt { span })
    }

    pub(crate) fn parse_continue_stmt(&mut self) -> (r: Option<ContinueStmt>)
        requires
            old(self).wf(),
        ensures
            r is None ==> final(self).diagnostics@.len() > old(self).diagnostics@.len()
                || final(self).silent_failures@ > old(self).silent_failures@,
            final(self).follows(*old(self)),
            r is Some ==> final(self).index > old(self).index,
            r is Some <==> old(self).cur_kind() == TokenKind::Keyword(Keyword::Continue),
            r matches Some(c) ==> c.span == old(self).tokens@[old(self).index as int].span,
    {
        let span = self.consume_keyword(Keyword::Continue, "expected 'continue'")?;
        Some(ContinueStmt { span })
    }
}

} // verus!
