//! Expressions: lambdas, conditionals, operators by precedence, postfix
//! forms and primary expressions.
use vstd::prelude::*;
use crate::ast::{
    BinaryOp, Block, CallArg, ElseExprBranch, Expr, ExprStmt, ForBinding, LambdaBody,
    LambdaParam, Stmt, TypeRef, UnaryOp,
};
use crate::lexer::{Keyword, Token, TokenKind};
use crate::source::{spec_cover, Span};
use crate::text::{concat_str, string_is};
use super::Parser;

verus! {

/// How many tokens a simple postfix step at `j` takes (0 when none stands
/// there): `.name`, `()` or `(<integer>)`.
pub open spec fn simple_suffix_width(tokens: Seq<Token>, j: int) -> int {
    if tokens[j].kind == TokenKind::Dot && tokens[j + 1].kind == TokenKind::Identifier {
        2
    } else if tokens[j].kind == TokenKind::LParen && tokens[j + 1].kind == TokenKind::RParen {
        2
    } else if tokens[j].kind == TokenKind::LParen && tokens[j + 1].kind == TokenKind::Integer
        && tokens[j + 2].kind == TokenKind::RParen {
        3
    } else {
        0
    }
}

/// Where the run of simple postfix steps that starts at `j` ends.
pub open spec fn simple_chain_end(tokens: Seq<Token>, j: int) -> int
    decreases tokens.len() - j,
{
    if 0 <= j < tokens.len() && simple_suffix_width(tokens, j) > 0
        && j + simple_suffix_width(tokens, j) <= tokens.len() {
        simple_chain_end(tokens, j + simple_suffix_width(tokens, j))
    } else {
        j
    }
}

/// A run of postfix steps ends at or after where it starts.
pub proof fn lemma_simple_chain_end(tokens: Seq<Token>, j: int)
    ensures
        simple_chain_end(tokens, j) >= j,
    decreases tokens.len() - j,
{
    if 0 <= j < tokens.len() && simple_suffix_width(tokens, j) > 0
        && j + simple_suffix_width(tokens, j) <= tokens.len() {
        lemma_simple_chain_end(tokens, j + simple_suffix_width(tokens, j));
    }
}

/// `e` is the name at `start - 1` with the simple postfix steps in
/// `start..end` applied left to right: each step wraps everything before it
/// (`a.b(1)` is the call of the member `b` of `a`).
pub open spec fn built_by_suffixes(tokens: Seq<Token>, start: int, end: int, e: Expr) -> bool
    decreases e,
{
    if end <= start {
        end == start && (e matches Expr::Identifier { name, .. } && name@ == tokens[start - 1].lexeme@)
    } else {
        match e {
            Expr::Member { receiver, name, .. } => {
                &&& end - 2 >= start && tokens[end - 2].kind == TokenKind::Dot
                &&& tokens[end - 1].kind == TokenKind::Identifier && name@ == tokens[end - 1].lexeme@
                &&& built_by_suffixes(tokens, start, end - 2, *receiver)
            },
            Expr::Call { callee, args, .. } => {
                &&& tokens[end - 1].kind == TokenKind::RParen
                &&& if tokens[end - 2].kind == TokenKind::LParen {
                    end - 2 >= start && args@.len() == 0 && built_by_suffixes(tokens, start, end - 2, *callee)
                } else {
                    &&& end - 3 >= start && tokens[end - 3].kind == TokenKind::LParen
                    &&& tokens[end - 2].kind == TokenKind::Integer && args@.len() == 1 && args@[0].name is None
                    &&& (args@[0].value matches Expr::Integer { raw, .. } && raw@ == tokens[end - 2].lexeme@)
                    &&& built_by_suffixes(tokens, start, end - 3, *callee)
                }
            },
            _ => false,
        }
    }
}

/// From `i`, across newlines: entries `name = <integer>`, each followed
/// (across newlines) by `,` or by the closing `}`, up to that `}`: where each
/// entry starts.
pub open spec fn simple_record_entries(tokens: Seq<Token>, i: int) -> Option<Seq<int>>
    decreases tokens.len() - i,
{
    let s = super::newline_run(tokens, i);
    let after = super::newline_run(tokens, s + 3);
    if i < 0 || s < i || s >= tokens.len() {
        None
    } else if tokens[s].kind == TokenKind::RBrace {
        Some(Seq::empty())
    } else if tokens[s].kind == TokenKind::Identifier && tokens[s + 1].kind == TokenKind::Eq
        && tokens[s + 2].kind == TokenKind::Integer && s + 3 <= after < tokens.len() {
        if tokens[after].kind == TokenKind::RBrace {
            Some(seq![s])
        } else if tokens[after].kind == TokenKind::Comma {
            match simple_record_entries(tokens, after + 1) {
                Some(rest) => Some(seq![s] + rest),
                None => None,
            }
        } else {
            None
        }
    } else {
        None
    }
}

/// The field that the entry `name = <integer>` at `s` spells.
pub open spec fn simple_record_field(tokens: Seq<Token>, s: int, field: CallArg) -> bool {
    &&& field.name matches Some(n) && n@ == tokens[s].lexeme@
    &&& field.value matches Expr::Integer { raw, .. } && raw@ == tokens[s + 2].lexeme@
}

/// Where the `}` after the simple entries from `i` stands.
pub open spec fn simple_record_close(tokens: Seq<Token>, i: int) -> int
    decreases tokens.len() - i,
{
    let s = super::newline_run(tokens, i);
    let after = super::newline_run(tokens, s + 3);
    if i < 0 || s < i || s >= tokens.len() || tokens[s].kind == TokenKind::RBrace {
        s
    } else if tokens[after].kind == TokenKind::Comma && s + 3 <= after < tokens.len() {
        simple_record_close(tokens, after + 1)
    } else {
        after
    }
}

/// The operand levels of the left-associative binary operators, loosest first.
#[derive(Clone, Copy, PartialEq, Eq, Structural)]
pub(crate) enum OperandLevel {
    BitOr,
    And,
    BitAnd,
    Equality,
    Term,
    Factor,
    Unary,
}

/// The operator that a token of `kind` stands for between operands at `level`.
pub(crate) open spec fn level_operator(level: OperandLevel, kind: TokenKind) -> Option<BinaryOp> {
    match level {
        OperandLevel::BitOr => match kind {
            TokenKind::OrOr => Some(BinaryOp::Or),
            _ => None,
        },
        OperandLevel::And => match kind {
            TokenKind::Pipe => Some(BinaryOp::BitOr),
            _ => None,
        },
        OperandLevel::BitAnd => match kind {
            TokenKind::AndAnd => Some(BinaryOp::And),
            _ => None,
        },
        OperandLevel::Equality => match kind {
            TokenKind::Ampersand => Some(BinaryOp::BitAnd),
            _ => None,
        },
        OperandLevel::Term => match kind {
            TokenKind::Less => Some(BinaryOp::Less),
            TokenKind::LessEq => Some(BinaryOp::LessEq),
            TokenKind::Greater => Some(BinaryOp::Greater),
            TokenKind::GreaterEq => Some(BinaryOp::GreaterEq),
            _ => None,
        },
        OperandLevel::Factor => match kind {
            TokenKind::Plus => Some(BinaryOp::Add),
            TokenKind::Minus => Some(BinaryOp::Sub),
            TokenKind::PlusPlus => Some(BinaryOp::Concat),
            TokenKind::MinusMinus => Some(BinaryOp::Remove),
            TokenKind::ColonPlus => Some(BinaryOp::Append),
            TokenKind::ColonMinus => Some(BinaryOp::Prepend),
            _ => None,
        },
        OperandLevel::Unary => match kind {
            TokenKind::Star => Some(BinaryOp::Mul),
            TokenKind::Slash => Some(BinaryOp::Div),
            TokenKind::Percent => Some(BinaryOp::Mod),
            _ => None,
        },
    }
}

/// How loosely a binary operator token binds: `||` 0, `|` 1, `&&` 2, `&` 3,
/// the comparisons 4, `+ - ++ -- :+ :-` 5, `* / %` 6; -1 for any other
/// token.
pub open spec fn op_rank(kind: TokenKind) -> int {
    match kind {
        TokenKind::OrOr => 0,
        TokenKind::Pipe => 1,
        TokenKind::AndAnd => 2,
        TokenKind::Ampersand => 3,
        TokenKind::Less | TokenKind::LessEq | TokenKind::Greater | TokenKind::GreaterEq => 4,
        TokenKind::Plus | TokenKind::Minus | TokenKind::PlusPlus | TokenKind::MinusMinus
            | TokenKind::ColonPlus | TokenKind::ColonMinus => 5,
        TokenKind::Star | TokenKind::Slash | TokenKind::Percent => 6,
        _ => -1,
    }
}

/// The rank (as in `op_rank`) of the operators that join operands at `level`.
pub(crate) open spec fn level_rank(level: OperandLevel) -> int {
    match level {
        OperandLevel::BitOr => 0,
        OperandLevel::And => 1,
        OperandLevel::BitAnd => 2,
        OperandLevel::Equality => 3,
        OperandLevel::Term => 4,
        OperandLevel::Factor => 5,
        OperandLevel::Unary => 6,
    }
}

/// The operators of a level are exactly the tokens of that level's rank.
pub(crate) proof fn lemma_level_operator_rank(level: OperandLevel, kind: TokenKind)
    ensures
        level_operator(level, kind) is Some <==> op_rank(kind) == level_rank(level),
{
}

/// From `i`: integers joined by operators of `level` (`1 - 2 - 3`), the
/// last of them a lone integer (only newlines, then a token ending the
/// expression, follow it): how many operators; 0 when no such chain of at
/// least one operator starts at `i`.
pub(crate) open spec fn level_chain_len(tokens: Seq<Token>, level: OperandLevel, i: int) -> nat
    decreases tokens.len() - i,
{
    if 0 <= i && i + 2 < tokens.len() && tokens[i].kind == TokenKind::Integer
        && level_operator(level, tokens[i + 1].kind) is Some && tokens[i + 2].kind == TokenKind::Integer {
        if super::lone_integer_from(tokens, i + 2) {
            1
        } else {
            let rest = level_chain_len(tokens, level, i + 2);
            if rest > 0 {
                rest + 1
            } else {
                0
            }
        }
    } else {
        0
    }
}

/// `e` is the chain of the first `n` operators from `i` nested to the left:
/// each operator joins everything before it (left) with the integer after
/// it (right), so `1 - 2 - 3` is `(1 - 2) - 3`.
pub(crate) open spec fn left_chain_built(tokens: Seq<Token>, level: OperandLevel, i: int, n: nat, e: Expr) -> bool
    decreases n,
{
    if n == 0 {
        e matches Expr::Integer { raw, .. } && raw@ == tokens[i].lexeme@
    } else {
        &&& e matches Expr::Binary { left, op, right, .. }
        &&& Some(op) == level_operator(level, tokens[i + 2 * n - 1].kind)
        &&& (*right matches Expr::Integer { raw, .. } && raw@ == tokens[i + 2 * n].lexeme@)
        &&& left_chain_built(tokens, level, i, (n - 1) as nat, *left)
    }
}

/// The rank of parsing one operand at `level` in the termination order.
pub(crate) open spec fn operand_rank(level: OperandLevel) -> nat {
    match level {
        OperandLevel::BitOr => 24,
        OperandLevel::And => 21,
        OperandLevel::BitAnd => 18,
        OperandLevel::Equality => 15,
        OperandLevel::Term => 11,
        OperandLevel::Factor => 8,
        OperandLevel::Unary => 5,
    }
}

/// `owner` followed by `rest`.
pub(crate) fn owner_message(owner: &str, rest: &str) -> (s: String)
    ensures
        s@ == owner@ + rest@,
{
    concat_str(String::from_str(owner), rest)
}

impl<'a> Parser<'a> {
    /// Where the next token that is not a newline stands.
    pub(crate) open spec fn next_significant(self) -> int {
        super::newline_run(self.tokens@, self.index as int)
    }

    /// Where the newlines after the next significant token end.
    pub(crate) open spec fn after_next_significant(self) -> int {
        super::newline_run(self.tokens@, self.next_significant() + 1)
    }

    /// An integer directly followed by a binary operator looser than `rank`
    /// (of rank below it): a whole operand at any level tighter than that.
    pub(crate) open spec fn at_int_before_op(self, rank: int) -> bool {
        &&& self.cur_kind() == TokenKind::Integer
        &&& 0 <= op_rank(self.kind_at(self.index + 1)) < rank
    }

    /// `r` is the integer at the cursor of `self`, and `after` stands just
    /// past it with no diagnostic added.
    pub(crate) open spec fn parsed_int_alone(self, r: Option<Expr>, after: Parser<'a>) -> bool {
        &&& r matches Some(Expr::Integer { raw, span }) && raw@ == self.tokens@[self.index as int].lexeme@
            && span == self.tokens@[self.index as int].span
        &&& after.index == self.index + 1
        &&& after.diagnostics@ == self.diagnostics@
    }

    /// After any newlines, an integer that only newlines and then a token
    /// ending the expression follow: an expression made of that integer
    /// alone.
    pub(crate) open spec fn at_lone_integer(self) -> bool {
        super::lone_integer_from(self.tokens@, self.index as int)
    }

    /// A lone integer that no comma follows: a list of one expression.
    pub(crate) open spec fn at_listless_lone_integer(self) -> bool {
        super::listless_lone_integer_from(self.tokens@, self.index as int)
    }

    /// A lone integer that a closing token ends: a whole expression
    /// statement.
    pub(crate) open spec fn at_closed_lone_integer(self) -> bool {
        super::closed_lone_integer_from(self.tokens@, self.index as int)
    }

    /// `r` is the integer that `at_lone_integer` finds, `after` has moved
    /// past it, at most over the newlines behind it, and no diagnostic was
    /// added.
    pub(crate) open spec fn parsed_lone_integer(self, r: Option<Expr>, after: Parser<'a>) -> bool {
        let j = self.next_significant();
        &&& r matches Some(Expr::Integer { raw, span }) && raw@ == self.tokens@[j].lexeme@
            && span == self.tokens@[j].span
        &&& j < after.index <= self.after_next_significant()
        &&& after.diagnostics@ == self.diagnostics@
    }

    /// The lone integer and the end marker behind it lie inside the input.
    pub(crate) proof fn lemma_lone_integer_bounds(self)
        requires
            self.wf(),
            self.at_lone_integer(),
        ensures
            self.index <= self.next_significant(),
            self.next_significant() + 1 <= self.after_next_significant() < self.tokens@.len(),
    {
        let j = self.next_significant();
        super::lemma_newline_run_bounded(self.tokens@, self.index as int);
        assert(j + 1 < self.tokens@.len());
        super::lemma_newline_run_bounded(self.tokens@, j + 1);
    }

    /// From inside the newlines behind a lone integer, the input holds only
    /// newlines up to the token that ends it.
    pub(crate) proof fn lemma_lone_integer_rest(self, k: int)
        requires
            self.wf(),
            self.at_lone_integer(),
            self.next_significant() < k <= self.after_next_significant(),
        ensures
            super::newline_run(self.tokens@, k) == self.after_next_significant(),
            self.after_next_significant() < self.tokens@.len(),
            k < self.after_next_significant() ==> self.kind_at(k) == TokenKind::Newline,
            super::ends_operand(self.kind_at(self.after_next_significant())),
    {
        self.lemma_lone_integer_bounds();
        super::lemma_newline_run_from_inside(self.tokens@, self.next_significant() + 1, k);
    }
}

impl<'a> Parser<'a> {
    pub(crate) fn parse_expr(&mut self) -> (r: Option<Expr>)
        requires
            old(self).wf(),
        ensures
            r is None ==> final(self).diagnostics@.len() > old(self).diagnostics@.len(),
            final(self).follows(*old(self)),
            r is Some ==> final(self).index > old(self).index,
            old(self).at_lone_integer() ==> old(self).parsed_lone_integer(r, *final(self)),
        decreases old(self).bound@, old(self).remaining(), 28nat,
    {
        self.skip_newlines();
        if let Some(lambda) = self.try_parse_lambda_expr() {
            return Some(lambda);
        }
        if self.match_keyword(Keyword::If) {
            let start = self.previous_span();
            return self.parse_if_expr(start);
        }
        if self.at_keyword(Keyword::Match) {
            let start = self.consume_keyword(Keyword::Match, "expected 'match'")?;
            return self.parse_match_expr_after_keyword(start, false);
        }
        if self.at_keyword(Keyword::Partial) {
            let start = self.consume_keyword(Keyword::Partial, "expected 'partial'")?;
            return self.parse_match_expr_after_keyword(start, true);
        }
        if self.at_keyword(Keyword::For) {
            let start = self.consume_keyword(Keyword::For, "expected 'for'")?;
            return self.parse_for_yield_expr_after_start(start);
        }
        self.parse_colon_expr()
    }

    /// An expression in which a trailing `{ ... }` is not taken as a call
    /// argument (conditions, iterables, scrutinees).
    pub(crate) fn parse_expr_without_trailing_block_call(&mut self) -> (r: Option<Expr>)
        requires
            old(self).wf(),
        ensures
            r is None ==> final(self).diagnostics@.len() > old(self).diagnostics@.len(),
            final(self).follows(*old(self)),
            r is Some ==> final(self).index > old(self).index,
            old(self).at_lone_integer() ==> old(self).parsed_lone_integer(r, *final(self)),
        decreases old(self).bound@, old(self).remaining(), 29nat,
    {
        let previous = self.allow_trailing_block_call;
        self.allow_trailing_block_call = false;
        let result = self.parse_expr();
        self.allow_trailing_block_call = previous;
        result
    }

    /// `x -> body`, `x T -> body` or `(a, b T) -> body`; rewinds and gives up
    /// when no lambda starts here.
    pub(crate) fn try_parse_lambda_expr(&mut self) -> (r: Option<Expr>)
        requires
            old(self).wf(),
        ensures
            final(self).follows(*old(self)),
            r is Some ==> final(self).index > old(self).index,
            old(self).cur_kind() != TokenKind::Identifier && old(self).cur_kind() != TokenKind::LParen ==> r is None
                && final(self).index == old(self).index && final(self).diagnostics == old(self).diagnostics
                && final(self).allow_trailing_block_call == old(self).allow_trailing_block_call,
            old(self).cur_kind() == TokenKind::Identifier && old(self).kind_at(old(self).index + 1) == TokenKind::Arrow
                && super::lone_integer_from(old(self).tokens@, old(self).index + 2)
                ==> (r matches Some(Expr::Lambda { params, .. }) && params@.len() == 1),
        decreases old(self).bound@, old(self).remaining(), 1nat,
    {
        let checkpoint = self.checkpoint();
        if self.at(TokenKind::Identifier) {
            if let Some((name, start)) = self.expect_identifier("expected lambda parameter") {
                let mut ty: Option<TypeRef> = None;
                let ty_checkpoint = self.checkpoint();
                if self.can_start_type_ref() {
                    if let Some(primary) = self.parse_primary_type_ref() {
                        if self.at(TokenKind::Arrow) {
                            ty = Some(primary);
                        } else {
                            self.restore(ty_checkpoint);
                            ty = self.parse_type_ref();
                        }
                    } else {
                        self.restore(ty_checkpoint);
                    }
                }
                if self.match_token(TokenKind::Arrow) {
                    let end = match &ty {
                        Some(t) => t.span(),
                        None => start,
                    };
                    let param = LambdaParam { name, ty, span: start.cover(end) };
                    let body = match self.parse_lambda_body() {
                        Some(body) => body,
                        None => {
                            self.restore(checkpoint);
                            return None;
                        },
                    };
                    let end = body.span();
                    return Some(Expr::Lambda { params: vec![param], body, span: start.cover(end) });
                }
            }
            self.restore(checkpoint);
            return None;
        }
        if !self.match_token(TokenKind::LParen) {
            return None;
        }
        let start = self.previous_span();
        let mut params = Vec::new();
        self.skip_newlines();
        if !self.at(TokenKind::RParen) {
            match self.parse_lambda_param() {
                Some(param) => params.push(param),
                None => {
                    self.restore(checkpoint);
                    return None;
                },
            }
            while self.match_token(TokenKind::Comma)
                invariant
                    self.follows(*old(self)),
                    self.index > old(self).index,
                    checkpoint.index == old(self).index,
                    checkpoint.diagnostics_len == old(self).diagnostics@.len(),
                    old(self).cur_kind() == TokenKind::LParen,
                decreases self.remaining(),
            {
                match self.parse_lambda_param() {
                    Some(param) => params.push(param),
                    None => {
                        self.restore(checkpoint);
                        return None;
                    },
                }
            }
        }
        self.skip_newlines();
        if self.consume(TokenKind::RParen, "expected ')' after lambda parameters").is_none() {
            self.restore(checkpoint);
            return None;
        }
        if !self.match_token(TokenKind::Arrow) {
            self.restore(checkpoint);
            return None;
        }
        let body = match self.parse_lambda_body() {
            Some(body) => body,
            None => {
                self.restore(checkpoint);
                return None;
            },
        };
        let end = body.span();
        Some(Expr::Lambda { params, body, span: start.cover(end) })
    }

    pub(crate) fn parse_lambda_param(&mut self) -> (r: Option<LambdaParam>)
        requires
            old(self).wf(),
        ensures
            r is None ==> final(self).diagnostics@.len() > old(self).diagnostics@.len(),
            final(self).follows(*old(self)),
            r is Some ==> final(self).index > old(self).index,
    {
        let (name, start) = self.expect_identifier("expected lambda parameter")?;
        let ty = if self.can_start_type_ref() {
            Some(self.parse_type_ref()?)
        } else {
            None
        };
        let end = match &ty {
            Some(t) => t.span(),
            None => start,
        };
        Some(LambdaParam { name, ty, span: start.cover(end) })
    }

    pub(crate) fn parse_lambda_body(&mut self) -> (r: Option<LambdaBody>)
        requires
            old(self).wf(),
        ensures
            r is None ==> final(self).diagnostics@.len() > old(self).diagnostics@.len(),
            final(self).follows(*old(self)),
            r is Some ==> final(self).index > old(self).index,
            old(self).at_lone_integer() ==> (r matches Some(LambdaBody::Expr(e))
                && old(self).parsed_lone_integer(Some(*e), *final(self))),
        decreases old(self).bound@, old(self).remaining(), 29nat,
    {
        if self.at(TokenKind::LBrace) {
            return match self.parse_block() {
                Some(block) => Some(LambdaBody::Block(block)),
                None => None,
            };
        }
        match self.parse_expr() {
            Some(expr) => Some(LambdaBody::Expr(Box::new(expr))),
            None => None,
        }
    }

    /// The rest of `if cond { ... } else ...` used as an expression; the
    /// `if` is already consumed.
    pub(crate) fn parse_if_expr(&mut self, start: Span) -> (r: Option<Expr>)
        requires
            old(self).wf(),
        ensures
            r is None ==> final(self).diagnostics@.len() > old(self).diagnostics@.len(),
            final(self).follows(*old(self)),
            r is Some ==> final(self).index > old(self).index,
        decreases old(self).bound@, old(self).remaining(), 31nat,
    {
        let condition = self.parse_expr_without_trailing_block_call()?;
        let then_block = self.parse_then_expr_body_block("if")?;
        self.consume_keyword(Keyword::Else, "expected 'else' in if expression")?;
        if self.at(TokenKind::Newline) {
            self.error_at_current(
                "unexpected_token",
                "else body must stay on the same line unless it uses '{ ... }'",
            );
            return None;
        }
        let else_branch = if self.at_keyword(Keyword::If) {
            let else_start = self.consume_keyword(Keyword::If, "expected 'if'")?;
            let else_if = self.parse_if_expr(else_start)?;
            ElseExprBranch::If(Box::new(else_if))
        } else {
            ElseExprBranch::Block(self.parse_block_or_inline_expr_body("else")?)
        };
        let end = match &else_branch {
            ElseExprBranch::If(expr) => expr.span(),
            ElseExprBranch::Block(block) => block.span,
        };
        Some(Expr::If {
            condition: Box::new(condition),
            then_block,
            else_branch: Box::new(else_branch),
            span: start.cover(end),
        })
    }

    /// The rest of `match value { case ... }`; the keyword is already consumed.
    pub(crate) fn parse_match_expr_after_keyword(&mut self, start: Span, partial: bool) -> (r: Option<Expr>)
        requires
            old(self).wf(),
        ensures
            r is None ==> final(self).diagnostics@.len() > old(self).diagnostics@.len(),
            final(self).follows(*old(self)),
            r is Some ==> final(self).index > old(self).index,
        decreases old(self).bound@, old(self).remaining(), 31nat,
    {
        let value = if self.at(TokenKind::LBrace) {
            Expr::Placeholder { span: start }
        } else {
            self.parse_expr_without_trailing_block_call()?
        };
        let (cases, end) = self.parse_match_cases()?;
        Some(Expr::Match { partial, value: Box::new(value), cases, span: start.cover(end) })
    }

    /// The rest of `for x <- xs yield body` or `for { ... } yield body`.
    pub(crate) fn parse_for_yield_expr_after_start(&mut self, start: Span) -> (r: Option<Expr>)
        requires
            old(self).wf(),
        ensures
            r is None ==> final(self).diagnostics@.len() > old(self).diagnostics@.len(),
            final(self).follows(*old(self)),
            r is Some ==> final(self).index > old(self).index,
        decreases old(self).bound@, old(self).remaining(), 32nat,
    {
        let bindings = if self.match_token(TokenKind::LBrace) {
            self.parse_for_binding_block()?
        } else {
            let bindings = self.parse_binding_list(false)?;
            self.consume(TokenKind::LeftArrow, "expected '<-' after for bindings")?;
            let iterable = self.parse_expr_without_trailing_block_call()?;
            let first = if bindings.len() > 0 { bindings[0].span } else { iterable.span() };
            let span = first.cover(iterable.span());
            vec![ForBinding { span, bindings, iterable: Some(iterable), values: Vec::new() }]
        };
        self.consume_keyword(Keyword::Yield, "expected 'yield' after for bindings")?;
        let yield_body = self.parse_yield_body_block()?;
        Some(Expr::ForYield { span: start.cover(yield_body.span), bindings, yield_body })
    }

    /// The clauses of `for { x <- xs; y = f(x) }`, after the `{`.
    pub(crate) fn parse_for_binding_block(&mut self) -> (r: Option<Vec<ForBinding>>)
        requires
            old(self).wf(),
        ensures
            r is None ==> final(self).diagnostics@.len() > old(self).diagnostics@.len(),
            final(self).follows(*old(self)),
            r is Some ==> final(self).index > old(self).index,
        decreases old(self).bound@, old(self).remaining(), 31nat,
    {
        self.skip_newlines();
        let mut bindings = Vec::new();
        while !self.at(TokenKind::RBrace) && !self.at(TokenKind::Eof)
            invariant
                self.follows(*old(self)),
            decreases self.remaining(),
        {
            let mutable = self.match_keyword(Keyword::Var);
            let clause_bindings = self.parse_binding_list(mutable)?;
            if self.match_token(TokenKind::LeftArrow) {
                let iterable = self.parse_expr_without_trailing_block_call()?;
                let span = clause_bindings[0].span.cover(iterable.span());
                bindings.push(ForBinding {
                    bindings: clause_bindings,
                    iterable: Some(iterable),
                    values: Vec::new(),
                    span,
                });
            } else {
                self.consume(TokenKind::Eq, "expected '=' or '<-' in for binding block")?;
                let values = self.parse_expr_list()?;
                let start = clause_bindings[0].span;
                let end = values[values.len() - 1].span();
                bindings.push(ForBinding {
                    bindings: clause_bindings,
                    iterable: None,
                    values,
                    span: start.cover(end),
                });
            }
            self.skip_newlines();
        }
        self.consume(TokenKind::RBrace, "expected '}' after for bindings")?;
        Some(bindings)
    }

    pub(crate) fn parse_yield_body_block(&mut self) -> (r: Option<Block>)
        requires
            old(self).wf(),
        ensures
            r is None ==> final(self).diagnostics@.len() > old(self).diagnostics@.len(),
            final(self).follows(*old(self)),
            r is Some ==> final(self).index > old(self).index,
        decreases old(self).bound@, old(self).remaining(), 29nat,
    {
        if self.at(TokenKind::LBrace) {
            self.parse_block()
        } else {
            if self.at(TokenKind::Newline) {
                self.error_at_current(
                    "unexpected_token",
                    "yield body must stay on the same line unless it uses '{ ... }'",
                );
                return None;
            }
            let expr = self.parse_expr()?;
            let span = expr.span();
            Some(Block { statements: vec![Stmt::Expr(ExprStmt { expr, span })], span })
        }
    }

    /// `record { f = v }` or `record(a, b)`; the keyword is already consumed.
    pub(crate) fn parse_record_literal_expr(&mut self, start: Span) -> (r: Option<Expr>)
        requires
            old(self).wf(),
        ensures
            r is None ==> final(self).diagnostics@.len() > old(self).diagnostics@.len(),
            final(self).follows(*old(self)),
            r is Some ==> final(self).index > old(self).index,
        decreases old(self).bound@, old(self).remaining(), 1nat,
    {
        if self.match_token(TokenKind::LBrace) {
            return self.finish_brace_record_literal_expr(start);
        }
        self.consume(TokenKind::LParen, "expected '{' or '(' after 'record'")?;
        let mut values = Vec::new();
        if !self.at(TokenKind::RParen) {
            values = self.parse_expr_list()?;
        }
        let end = self.consume(TokenKind::RParen, "expected ')' after record literal")?;
        Some(Expr::RecordLiteral { fields: Vec::new(), values, span: start.cover(end) })
    }

    pub(crate) fn parse_brace_record_literal_expr(&mut self) -> (r: Option<Expr>)
        requires
            old(self).wf(),
        ensures
            r is None ==> final(self).diagnostics@.len() > old(self).diagnostics@.len(),
            final(self).follows(*old(self)),
            r is Some ==> final(self).index > old(self).index,
        decreases old(self).bound@, old(self).remaining(), 1nat,
    {
        let start = self.consume(TokenKind::LBrace, "expected '{'")?;
        self.finish_brace_record_literal_expr(start)
    }

    /// The fields `name = value` of a braced record literal, after the `{`.
    pub(crate) fn finish_brace_record_literal_expr(&mut self, start: Span) -> (r: Option<Expr>)
        requires
            old(self).wf(),
        ensures
            r is None ==> final(self).diagnostics@.len() > old(self).diagnostics@.len(),
            final(self).follows(*old(self)),
            r is Some ==> final(self).index > old(self).index,
            r matches Some(e) ==> e is RecordLiteral && e->RecordLiteral_values@.len() == 0
                && (forall|i: int| 0 <= i < e->RecordLiteral_fields@.len()
                    ==> (#[trigger] e->RecordLiteral_fields@[i]).name is Some)
                && final(self).kind_at(final(self).index - 1) == TokenKind::RBrace
                && e->RecordLiteral_span == spec_cover(start, final(self).tokens@[final(self).index - 1].span),
            simple_record_entries(old(self).tokens@, old(self).index as int) matches Some(starts)
                ==> (r matches Some(Expr::RecordLiteral { fields, .. }) && fields@.len() == starts.len()
                    && (forall|k: int| 0 <= k < starts.len()
                        ==> simple_record_field(old(self).tokens@, #[trigger] starts[k], fields@[k]))
                    && final(self).diagnostics@ == old(self).diagnostics@
                    && final(self).index == simple_record_close(old(self).tokens@, old(self).index as int) + 1),
        decreases old(self).bound@, old(self).remaining(), 1nat,
    {
        let ghost entries = simple_record_entries(old(self).tokens@, old(self).index as int);
        let ghost close = simple_record_close(old(self).tokens@, old(self).index as int);
        let mut fields: Vec<CallArg> = Vec::new();
        let ghost i0 = old(self).index as int;
        self.skip_newlines();
        proof {
            if entries is Some {
                super::lemma_newline_run_from_inside(old(self).tokens@, i0, self.index as int);
                assert(entries->Some_0.skip(0) =~= entries->Some_0);
            }
        }
        while !self.at(TokenKind::RBrace) && !self.at(TokenKind::Eof)
            invariant
                self.follows(*old(self)),
                forall|i: int| 0 <= i < fields@.len() ==> (#[trigger] fields@[i]).name is Some,
                entries == simple_record_entries(old(self).tokens@, old(self).index as int),
                close == simple_record_close(old(self).tokens@, old(self).index as int),
                entries is Some ==> self.diagnostics@ == old(self).diagnostics@
                    && super::newline_run(self.tokens@, self.index as int) == self.index
                    && fields@.len() <= entries->Some_0.len()
                    && simple_record_entries(self.tokens@, self.index as int) == Some(entries->Some_0.skip(fields@.len() as int))
                    && simple_record_close(self.tokens@, self.index as int) == close
                    && forall|k: int| 0 <= k < fields@.len() ==> simple_record_field(self.tokens@,
                        #[trigger] entries->Some_0[k], fields@[k]),
            decreases self.remaining(),
        {
            let ghost at = self.index as int;
            let ghost t = self.tokens@;
            let (name, name_span) = self.expect_identifier("expected record field name")?;
            self.consume(TokenKind::Eq, "expected '=' after record field name")?;
            proof {
                if entries is Some {
                    let all = entries->Some_0;
                    let n = fields@.len() as int;
                    assert(simple_record_entries(t, at) == Some(all.skip(n)));
                    assert(t[at].kind == TokenKind::Identifier);
                    assert(self.index == at + 2);
                    assert(super::newline_run(t, at + 2) == at + 2);
                    assert(self.at_lone_integer());
                }
            }
            let value = self.parse_expr()?;
            let span = name_span.cover(value.span());
            let ghost fields_before = fields@;
            fields.push(CallArg { name: Some(name), span, value });
            let ghost mid = self.index as int;
            self.skip_newlines();
            let ghost after = super::newline_run(t, at + 3);
            proof {
                if entries is Some {
                    super::lemma_newline_run_from_inside(t, at + 3, mid);
                    let all = entries->Some_0;
                    let n = fields_before.len() as int;
                    if t[after].kind == TokenKind::Comma {
                        assert(all.skip(n) == seq![at] + simple_record_entries(t, after + 1)->Some_0);
                        assert((seq![at] + simple_record_entries(t, after + 1)->Some_0)[0] == at);
                    } else {
                        assert(all.skip(n) == seq![at]);
                    }
                    assert(all.skip(n)[0] == at);
                    assert(all.skip(n).len() == all.len() - n);
                    assert(n < all.len());
                    assert(all.skip(n)[0] == all[n]);
                    assert(all[n] == at);
                    assert(fields@[n] == CallArg { name: Some(name), span, value });
                    assert(forall|k: int| 0 <= k < n ==> fields@[k] == fields_before[k]);
                }
            }
            if !self.match_token(TokenKind::Comma) && self.at(TokenKind::Identifier) {
                proof {
                    if entries is Some {
                        assert(false);
                    }
                }
                continue;
            }
            self.skip_newlines();
            proof {
                if entries is Some {
                    let all = entries->Some_0;
                    let n = fields_before.len() as int;
                    assert(simple_record_field(t, all[n], fields@[n]));
                    if t[after].kind == TokenKind::Comma {
                        super::lemma_newline_run_from_inside(t, after + 1, self.index as int);
                        assert(super::newline_run(t, self.index as int) == self.index);
                        assert(simple_record_entries(t, self.index as int) == simple_record_entries(t, after + 1));
                        assert(simple_record_close(t, self.index as int) == simple_record_close(t, after + 1));
                        assert(simple_record_close(t, at) == simple_record_close(t, after + 1));
                        assert(all.skip(n + 1) =~= all.skip(n).skip(1));
                        assert(all.skip(n) == seq![at] + simple_record_entries(t, after + 1)->Some_0);
                        assert((seq![at] + simple_record_entries(t, after + 1)->Some_0).skip(1)
                            =~= simple_record_entries(t, after + 1)->Some_0);
                    } else {
                        assert(self.index == after);
                        assert(simple_record_entries(t, self.index as int) == Some(Seq::<int>::empty()));
                        assert(simple_record_close(t, self.index as int) == after);
                        assert(simple_record_close(t, at) == after);
                        assert(simple_record_entries(t, at) == Some(seq![at]));
                        assert(all.skip(n) == seq![at]);
                        assert(all.skip(n + 1) =~= Seq::<int>::empty());
                    }
                }
            }
        }
        let end = self.consume(TokenKind::RBrace, "expected '}' after record literal")?;
        Some(Expr::RecordLiteral { fields, values: Vec::new(), span: start.cover(end) })
    }

    /// Whether `Iface with Other { def ... }` (an anonymous interface
    /// implementation) starts here; looks ahead without moving.
    pub(crate) fn is_anonymous_interface_expr_start(&self) -> (b: bool)
        requires
            self.wf(),
        ensures
            b ==> self.cur_kind() == TokenKind::Identifier || self.cur_kind() == TokenKind::LParen
                || self.cur_kind() == TokenKind::LBrace,
            self.cur_kind() == TokenKind::Identifier && self.kind_at(self.index + 1) == TokenKind::LBrace
                && !(self.index + 3 < self.tokens@.len() && self.kind_at(self.index + 3) == TokenKind::Eq)
                && self.kind_at(super::newline_run(self.tokens@, self.index + 2)) == TokenKind::Keyword(Keyword::Def) ==> b,
            self.cur_kind() == TokenKind::Identifier && (self.kind_at(self.index + 1) == TokenKind::Dot
                || self.kind_at(self.index + 1) == TokenKind::LParen) ==> !b,
    {
        proof {
            if self.cur_kind() == TokenKind::Identifier {
                assert(super::newline_run(self.tokens@, self.index as int) == self.index);
            }
        }
        if !self.can_start_type_ref() {
            return false;
        }
        let mut parser = Parser {
            tokens: self.tokens,
            index: self.index,
            diagnostics: Vec::new(),
            allow_trailing_block_call: self.allow_trailing_block_call,
            bound: self.bound,
        };
        if parser.parse_type_ref().is_none() {
            return false;
        }
        while parser.match_keyword(Keyword::With)
            invariant
                parser.wf(),
                parser.tokens == self.tokens,
                self.cur_kind() == TokenKind::Identifier && self.kind_at(self.index + 1) == TokenKind::LBrace
                    && !(self.index + 3 < self.tokens@.len() && self.kind_at(self.index + 3) == TokenKind::Eq)
                    && self.kind_at(super::newline_run(self.tokens@, self.index + 2)) == TokenKind::Keyword(Keyword::Def) ==> parser.index == self.index + 1,
                self.cur_kind() == TokenKind::Identifier && (self.kind_at(self.index + 1) == TokenKind::Dot
                    || self.kind_at(self.index + 1) == TokenKind::LParen) ==> parser.index == self.index + 1,
            decreases parser.remaining(),
        {
            if parser.parse_type_ref().is_none() {
                return false;
            }
        }
        if !parser.at(TokenKind::LBrace) {
            return false;
        }
        let n = parser.tokens.len();
        if parser.index + 2 < n && parser.tokens[parser.index + 2].kind == TokenKind::Eq {
            return false;
        }
        let mut lookahead = parser.index + 1;
        while lookahead < n && parser.tokens[lookahead].kind == TokenKind::Newline
            invariant
                n == parser.tokens@.len(),
                parser.tokens == self.tokens,
                parser.index + 1 <= lookahead,
                forall|k: int| parser.index + 1 <= k < lookahead ==> self.tokens@[k].kind == TokenKind::Newline,
            decreases n - lookahead,
        {
            lookahead = lookahead + 1;
        }
        proof {
            if lookahead < n {
                super::lemma_newline_run(self.tokens@, parser.index + 1, lookahead as int);
            }
        }
        if lookahead < n {
            match parser.tokens[lookahead].kind {
                TokenKind::At
                | TokenKind::Keyword(Keyword::Hidden)
                | TokenKind::Keyword(Keyword::Public)
                | TokenKind::Keyword(Keyword::Def) => true,
                _ => false,
            }
        } else {
            false
        }
    }

    /// `Iface with Other { def ... }`: an object implementing interfaces.
    pub(crate) fn parse_anonymous_interface_expr(&mut self) -> (r: Option<Expr>)
        requires
            old(self).wf(),
        ensures
            r is None ==> final(self).diagnostics@.len() > old(self).diagnostics@.len(),
            final(self).follows(*old(self)),
            r is Some ==> final(self).index > old(self).index,
        decreases old(self).bound@, old(self).remaining(), 1nat,
    {
        let first = self.parse_type_ref()?;
        let start = first.span();
        let mut interfaces = vec![first];
        while self.match_keyword(Keyword::With)
            invariant
                self.follows(*old(self)),
            decreases self.remaining(),
        {
            interfaces.push(self.parse_type_ref()?);
        }
        self.consume(TokenKind::LBrace, "expected '{' after anonymous interface list")?;
        self.skip_newlines();
        let mut methods = Vec::new();
        while !self.at(TokenKind::RBrace) && !self.at(TokenKind::Eof)
            invariant
                self.follows(*old(self)),
                self.index > old(self).index,
            decreases self.remaining(),
        {
            let annotations = self.parse_annotations()?;
            let visibility = self.parse_visibility();
            if !self.at_keyword(Keyword::Def) {
                self.error_at_current("unexpected_token", "expected anonymous interface member");
                return None;
            }
            methods.push(self.parse_method_decl(annotations, visibility, false)?);
            self.skip_newlines();
        }
        let end = self.consume(TokenKind::RBrace, "expected '}' after anonymous interface body")?;
        Some(Expr::AnonymousInterface { interfaces, methods, span: start.cover(end) })
    }

    /// `{ name = value, ... }` after `with`.
    pub(crate) fn parse_record_update_args(&mut self) -> (r: Option<(Vec<CallArg>, Span)>)
        requires
            old(self).wf(),
        ensures
            r is None ==> final(self).diagnostics@.len() > old(self).diagnostics@.len(),
            final(self).follows(*old(self)),
            r is Some ==> final(self).index > old(self).index,
        decreases old(self).bound@, old(self).remaining(), 1nat,
    {
        let start = self.consume(TokenKind::LBrace, "expected '{' after 'with'")?;
        self.skip_newlines();
        let mut updates = Vec::new();
        while !self.at(TokenKind::RBrace) && !self.at(TokenKind::Eof)
            invariant
                self.follows(*old(self)),
                self.index > old(self).index,
            decreases self.remaining(),
        {
            let (name, name_span) = self.expect_identifier("expected record field name")?;
            self.consume(TokenKind::Eq, "expected '=' after record field name")?;
            let value = self.parse_expr()?;
            let span = name_span.cover(value.span());
            updates.push(CallArg { name: Some(name), span, value });
            self.skip_newlines();
            if !self.match_token(TokenKind::Comma) {
                break;
            }
            self.skip_newlines();
        }
        let end = self.consume(TokenKind::RBrace, "expected '}' after record update")?;
        Some((updates, start.cover(end)))
    }

    /// A `{ ... }` block, or `then` followed by a one-line statement.
    pub(crate) fn parse_then_stmt_body_block(&mut self, owner: &str) -> (r: Option<Block>)
        requires
            old(self).wf(),
        ensures
            r is None ==> final(self).diagnostics@.len() > old(self).diagnostics@.len(),
            final(self).follows(*old(self)),
            r is Some ==> final(self).index > old(self).index,
        decreases old(self).bound@, old(self).remaining(), 35nat,
    {
        if self.at(TokenKind::LBrace) {
            return self.parse_block();
        }
        if !self.at_keyword(Keyword::Then) {
            let got = self.next_significant_token_string();
            let message = crate::text::concat_strings(
                String::from_str("expected end of expression, got "),
                &got,
            );
            self.error_at_current_owned("unexpected_token", message);
            return None;
        }
        self.consume_keyword(Keyword::Then, "expected 'then'")?;
        if self.at(TokenKind::Newline) {
            let message = owner_message(
                owner,
                " then-body must stay on the same line unless it uses '{ ... }'",
            );
            self.error_at_current_owned("unexpected_token", message);
            return None;
        }
        self.parse_block_or_inline_stmt_body(owner)
    }

    /// A `{ ... }` block, or one statement on the same line.
    pub(crate) fn parse_block_or_inline_stmt_body(&mut self, owner: &str) -> (r: Option<Block>)
        requires
            old(self).wf(),
        ensures
            r is None ==> final(self).diagnostics@.len() > old(self).diagnostics@.len(),
            final(self).follows(*old(self)),
            r is Some ==> final(self).index > old(self).index,
        decreases old(self).bound@, old(self).remaining(), 34nat,
    {
        if self.at(TokenKind::LBrace) {
            return self.parse_block();
        }
        if self.at(TokenKind::Newline) {
            let message = owner_message(
                owner,
                " body must stay on the same line unless it uses '{ ... }'",
            );
            self.error_at_current_owned("unexpected_token", message);
            return None;
        }
        if self.at(TokenKind::Eof) {
            let message = concat_str(String::from_str("expected statement after "), owner);
            self.error_at_current_owned("expected_statement", message);
            return None;
        }
        let stmt = self.parse_stmt()?;
        let span = stmt.span();
        Some(Block { statements: vec![stmt], span })
    }

    /// A `{ ... }` block, or `then` followed by a one-line expression.
    pub(crate) fn parse_then_expr_body_block(&mut self, owner: &str) -> (r: Option<Block>)
        requires
            old(self).wf(),
        ensures
            r is None ==> final(self).diagnostics@.len() > old(self).diagnostics@.len(),
            final(self).follows(*old(self)),
            r is Some ==> final(self).index > old(self).index,
        decreases old(self).bound@, old(self).remaining(), 30nat,
    {
        if self.at(TokenKind::LBrace) {
            return self.parse_block();
        }
        if !self.at_keyword(Keyword::Then) {
            let got = self.next_significant_token_string();
            let message = crate::text::concat_strings(
                String::from_str("expected end of expression, got "),
                &got,
            );
            self.error_at_current_owned("unexpected_token", message);
            return None;
        }
        self.consume_keyword(Keyword::Then, "expected 'then'")?;
        if self.at(TokenKind::Newline) {
            let message = owner_message(
                owner,
                " then-body must stay on the same line unless it uses '{ ... }'",
            );
            self.error_at_current_owned("unexpected_token", message);
            return None;
        }
        self.parse_block_or_inline_expr_body(owner)
    }

    /// A `{ ... }` block, or one expression on the same line.
    pub(crate) fn parse_block_or_inline_expr_body(&mut self, owner: &str) -> (r: Option<Block>)
        requires
            old(self).wf(),
        ensures
            r is None ==> final(self).diagnostics@.len() > old(self).diagnostics@.len(),
            final(self).follows(*old(self)),
            r is Some ==> final(self).index > old(self).index,
        decreases old(self).bound@, old(self).remaining(), 29nat,
    {
        if self.at(TokenKind::LBrace) {
            return self.parse_block();
        }
        if self.at(TokenKind::Newline) {
            let message = owner_message(
                owner,
                " body must stay on the same line unless it uses '{ ... }'",
            );
            self.error_at_current_owned("unexpected_token", message);
            return None;
        }
        if self.at(TokenKind::Eof) {
            let message = concat_str(String::from_str("expected expression after "), owner);
            self.error_at_current_owned("expected_expression", message);
            return None;
        }
        let expr = self.parse_expr()?;
        let span = expr.span();
        Some(Block { statements: vec![Stmt::Expr(ExprStmt { expr, span })], span })
    }

    /// `a : b : c`, left-associative.
    pub(crate) fn parse_colon_expr(&mut self) -> (r: Option<Expr>)
        requires
            old(self).wf(),
        ensures
            r is None ==> final(self).diagnostics@.len() > old(self).diagnostics@.len(),
            final(self).follows(*old(self)),
            r is Some ==> final(self).index > old(self).index,
            old(self).at_lone_integer() ==> old(self).parsed_lone_integer(r, *final(self)),
        decreases old(self).bound@, old(self).remaining(), 27nat,
    {
        let mut expr = self.parse_or_expr()?;
        loop
            invariant
                self.follows(*old(self)),
                self.index > old(self).index,
                old(self).at_lone_integer() ==> old(self).parsed_lone_integer(Some(expr), *self),
            decreases self.remaining(),
        {
            proof {
                if old(self).at_lone_integer() {
                    old(self).lemma_lone_integer_rest(self.index as int);
                }
            }
            self.skip_newlines();
            if !self.match_token(TokenKind::Colon) {
                break;
            }
            let right = self.parse_or_expr()?;
            let span = expr.span().cover(right.span());
            expr = Expr::Binary { left: Box::new(expr), op: BinaryOp::Colon, right: Box::new(right), span };
        }
        Some(expr)
    }

    pub(crate) fn parse_or_expr(&mut self) -> (r: Option<Expr>)
        requires
            old(self).wf(),
        ensures
            r is None ==> final(self).diagnostics@.len() > old(self).diagnostics@.len(),
            final(self).follows(*old(self)),
            r is Some ==> final(self).index > old(self).index,
            old(self).at_lone_integer() ==> old(self).parsed_lone_integer(r, *final(self)),
        decreases old(self).bound@, old(self).remaining(), 26nat,
    {
        self.parse_left_assoc(OperandLevel::BitOr)
    }

    pub(crate) fn parse_bit_or_expr(&mut self) -> (r: Option<Expr>)
        requires
            old(self).wf(),
        ensures
            r is None ==> final(self).diagnostics@.len() > old(self).diagnostics@.len(),
            final(self).follows(*old(self)),
            r is Some ==> final(self).index > old(self).index,
            old(self).at_lone_integer() ==> old(self).parsed_lone_integer(r, *final(self)),
            old(self).at_int_before_op(1) ==> old(self).parsed_int_alone(r, *final(self)),
        decreases old(self).bound@, old(self).remaining(), 23nat,
    {
        self.parse_left_assoc(OperandLevel::And)
    }

    pub(crate) fn parse_and_expr(&mut self) -> (r: Option<Expr>)
        requires
            old(self).wf(),
        ensures
            r is None ==> final(self).diagnostics@.len() > old(self).diagnostics@.len(),
            final(self).follows(*old(self)),
            r is Some ==> final(self).index > old(self).index,
            old(self).at_lone_integer() ==> old(self).parsed_lone_integer(r, *final(self)),
            old(self).at_int_before_op(2) ==> old(self).parsed_int_alone(r, *final(self)),
        decreases old(self).bound@, old(self).remaining(), 20nat,
    {
        self.parse_left_assoc(OperandLevel::BitAnd)
    }

    pub(crate) fn parse_bit_and_expr(&mut self) -> (r: Option<Expr>)
        requires
            old(self).wf(),
        ensures
            r is None ==> final(self).diagnostics@.len() > old(self).diagnostics@.len(),
            final(self).follows(*old(self)),
            r is Some ==> final(self).index > old(self).index,
            old(self).at_lone_integer() ==> old(self).parsed_lone_integer(r, *final(self)),
            old(self).at_int_before_op(3) ==> old(self).parsed_int_alone(r, *final(self)),
        decreases old(self).bound@, old(self).remaining(), 17nat,
    {
        self.parse_left_assoc(OperandLevel::Equality)
    }

    /// `==`, `!=` and `is Type`, left-associative.
    pub(crate) fn parse_equality_expr(&mut self) -> (r: Option<Expr>)
        requires
            old(self).wf(),
        ensures
            r is None ==> final(self).diagnostics@.len() > old(self).diagnostics@.len(),
            final(self).follows(*old(self)),
            r is Some ==> final(self).index > old(self).index,
            old(self).at_lone_integer() ==> old(self).parsed_lone_integer(r, *final(self)),
            old(self).at_int_before_op(4) ==> old(self).parsed_int_alone(r, *final(self)),
        decreases old(self).bound@, old(self).remaining(), 14nat,
    {
        let mut expr = self.parse_comparison_expr()?;
        loop
            invariant
                self.follows(*old(self)),
                self.index > old(self).index,
                old(self).at_lone_integer() ==> old(self).parsed_lone_integer(Some(expr), *self),
                old(self).at_int_before_op(4) ==> old(self).parsed_int_alone(Some(expr), *self),
            decreases self.remaining(),
        {
            proof {
                if old(self).at_lone_integer() {
                    old(self).lemma_lone_integer_rest(self.index as int);
                }
            }
            self.skip_newlines();
            if self.match_token(TokenKind::EqEq) {
                let right = self.parse_comparison_expr()?;
                let span = expr.span().cover(right.span());
                expr = Expr::Binary { left: Box::new(expr), op: BinaryOp::Eq, right: Box::new(right), span };
                continue;
            }
            if self.match_token(TokenKind::NotEq) {
                let right = self.parse_comparison_expr()?;
                let span = expr.span().cover(right.span());
                expr = Expr::Binary { left: Box::new(expr), op: BinaryOp::NotEq, right: Box::new(right), span };
                continue;
            }
            if self.match_keyword(Keyword::Is) {
                let target = self.parse_type_ref()?;
                let span = expr.span().cover(target.span());
                expr = Expr::Is { left: Box::new(expr), target, span };
                continue;
            }
            break;
        }
        Some(expr)
    }

    pub(crate) fn parse_comparison_expr(&mut self) -> (r: Option<Expr>)
        requires
            old(self).wf(),
        ensures
            r is None ==> final(self).diagnostics@.len() > old(self).diagnostics@.len(),
            final(self).follows(*old(self)),
            r is Some ==> final(self).index > old(self).index,
            old(self).at_lone_integer() ==> old(self).parsed_lone_integer(r, *final(self)),
            old(self).at_int_before_op(4) ==> old(self).parsed_int_alone(r, *final(self)),
        decreases old(self).bound@, old(self).remaining(), 13nat,
    {
        self.parse_left_assoc(OperandLevel::Term)
    }

    pub(crate) fn parse_term_expr(&mut self) -> (r: Option<Expr>)
        requires
            old(self).wf(),
        ensures
            r is None ==> final(self).diagnostics@.len() > old(self).diagnostics@.len(),
            final(self).follows(*old(self)),
            r is Some ==> final(self).index > old(self).index,
            old(self).at_lone_integer() ==> old(self).parsed_lone_integer(r, *final(self)),
            old(self).at_int_before_op(5) ==> old(self).parsed_int_alone(r, *final(self)),
        decreases old(self).bound@, old(self).remaining(), 10nat,
    {
        self.parse_left_assoc(OperandLevel::Factor)
    }

    pub(crate) fn parse_factor_expr(&mut self) -> (r: Option<Expr>)
        requires
            old(self).wf(),
        ensures
            r is None ==> final(self).diagnostics@.len() > old(self).diagnostics@.len(),
            final(self).follows(*old(self)),
            r is Some ==> final(self).index > old(self).index,
            old(self).at_lone_integer() ==> old(self).parsed_lone_integer(r, *final(self)),
            old(self).at_int_before_op(6) ==> old(self).parsed_int_alone(r, *final(self)),
        decreases old(self).bound@, old(self).remaining(), 7nat,
    {
        self.parse_left_assoc(OperandLevel::Unary)
    }

    /// One operand at `level`.
    pub(crate) fn parse_operand(&mut self, level: OperandLevel) -> (r: Option<Expr>)
        requires
            old(self).wf(),
        ensures
            r is None ==> final(self).diagnostics@.len() > old(self).diagnostics@.len(),
            final(self).follows(*old(self)),
            r is Some ==> final(self).index > old(self).index,
            old(self).at_lone_integer() ==> old(self).parsed_lone_integer(r, *final(self)),
            old(self).at_int_before_op(level_rank(level) + 1) ==> old(self).parsed_int_alone(r, *final(self)),
        decreases old(self).bound@, old(self).remaining(), operand_rank(level),
    {
        match level {
            OperandLevel::BitOr => self.parse_bit_or_expr(),
            OperandLevel::And => self.parse_and_expr(),
            OperandLevel::BitAnd => self.parse_bit_and_expr(),
            OperandLevel::Equality => self.parse_equality_expr(),
            OperandLevel::Term => self.parse_term_expr(),
            OperandLevel::Factor => self.parse_factor_expr(),
            OperandLevel::Unary => self.parse_unary_expr(),
        }
    }

    /// Consumes a binary operator that joins operands at `level`, if one is next.
    pub(crate) fn match_binary_operator(&mut self, level: OperandLevel) -> (r: Option<BinaryOp>)
        requires
            old(self).wf(),
        ensures
            final(self).follows(*old(self)),
            r is Some ==> final(self).index == old(self).index + 1,
            r is None ==> final(self).index == old(self).index,
            r == level_operator(level, old(self).cur_kind()),
            final(self).diagnostics == old(self).diagnostics,
    {
        match level {
            OperandLevel::BitOr => {
                if self.match_token(TokenKind::OrOr) { return Some(BinaryOp::Or); }
            },
            OperandLevel::And => {
                if self.match_token(TokenKind::Pipe) { return Some(BinaryOp::BitOr); }
            },
            OperandLevel::BitAnd => {
                if self.match_token(TokenKind::AndAnd) { return Some(BinaryOp::And); }
            },
            OperandLevel::Equality => {
                if self.match_token(TokenKind::Ampersand) { return Some(BinaryOp::BitAnd); }
            },
            OperandLevel::Term => {
                if self.match_token(TokenKind::Less) { return Some(BinaryOp::Less); }
                if self.match_token(TokenKind::LessEq) { return Some(BinaryOp::LessEq); }
                if self.match_token(TokenKind::Greater) { return Some(BinaryOp::Greater); }
                if self.match_token(TokenKind::GreaterEq) { return Some(BinaryOp::GreaterEq); }
            },
            OperandLevel::Factor => {
                if self.match_token(TokenKind::Plus) { return Some(BinaryOp::Add); }
                if self.match_token(TokenKind::Minus) { return Some(BinaryOp::Sub); }
                if self.match_token(TokenKind::PlusPlus) { return Some(BinaryOp::Concat); }
                if self.match_token(TokenKind::MinusMinus) { return Some(BinaryOp::Remove); }
                if self.match_token(TokenKind::ColonPlus) { return Some(BinaryOp::Append); }
                if self.match_token(TokenKind::ColonMinus) { return Some(BinaryOp::Prepend); }
            },
            OperandLevel::Unary => {
                if self.match_token(TokenKind::Star) { return Some(BinaryOp::Mul); }
                if self.match_token(TokenKind::Slash) { return Some(BinaryOp::Div); }
                if self.match_token(TokenKind::Percent) { return Some(BinaryOp::Mod); }
            },
        }
        None
    }

    /// Operands at `level` joined by that level's operators, left-associative:
    /// a chain of integers joined by this level's operators comes back nested
    /// to the left, each operator between the operands it stands between.
    pub(crate) fn parse_left_assoc(&mut self, level: OperandLevel) -> (r: Option<Expr>)
        requires
            old(self).wf(),
        ensures
            r is None ==> final(self).diagnostics@.len() > old(self).diagnostics@.len(),
            final(self).follows(*old(self)),
            r is Some ==> final(self).index > old(self).index,
            old(self).at_lone_integer() ==> old(self).parsed_lone_integer(r, *final(self)),
            old(self).at_int_before_op(level_rank(level)) ==> old(self).parsed_int_alone(r, *final(self)),
            level_chain_len(old(self).tokens@, level, old(self).index as int) > 0 ==> (r matches Some(e)
                && left_chain_built(old(self).tokens@, level, old(self).index as int,
                    level_chain_len(old(self).tokens@, level, old(self).index as int), e)
                && final(self).diagnostics@ == old(self).diagnostics@),
        decreases old(self).bound@, old(self).remaining(), operand_rank(level) + 1,
    {
        let ghost t = old(self).tokens@;
        let ghost i0 = old(self).index as int;
        let ghost n = level_chain_len(t, level, i0);
        let ghost mut k: int = 0;
        proof {
            if n > 0 {
                lemma_level_operator_rank(level, t[i0 + 1].kind);
            }
        }
        let mut expr = self.parse_operand(level)?;
        loop
            invariant
                self.follows(*old(self)),
                self.index > old(self).index,
                old(self).at_lone_integer() ==> old(self).parsed_lone_integer(Some(expr), *self),
                old(self).at_int_before_op(level_rank(level)) ==> old(self).parsed_int_alone(Some(expr), *self),
                t == old(self).tokens@,
                i0 == old(self).index,
                n == level_chain_len(t, level, i0),
                n > 0 ==> 0 <= k <= n && left_chain_built(t, level, i0, k as nat, expr)
                    && self.diagnostics@ == old(self).diagnostics@,
                n > 0 && k < n ==> self.index == i0 + 2 * k + 1 && level_chain_len(t, level, i0 + 2 * k) == n - k,
                n > 0 && k == n ==> super::lone_integer_from(t, i0 + 2 * n)
                    && i0 + 2 * n < self.index <= super::newline_run(t, i0 + 2 * n + 1),
            ensures
                self.follows(*old(self)),
                self.index > old(self).index,
                old(self).at_lone_integer() ==> old(self).parsed_lone_integer(Some(expr), *self),
                old(self).at_int_before_op(level_rank(level)) ==> old(self).parsed_int_alone(Some(expr), *self),
                n > 0 ==> left_chain_built(t, level, i0, n as nat, expr) && self.diagnostics@ == old(self).diagnostics@,
            decreases self.remaining(),
        {
            proof {
                if old(self).at_lone_integer() {
                    old(self).lemma_lone_integer_rest(self.index as int);
                }
                if old(self).at_int_before_op(level_rank(level)) {
                    lemma_level_operator_rank(level, t[i0 + 1].kind);
                    assert(super::newline_run(t, i0 + 1) == i0 + 1);
                }
                if n > 0 && k < n {
                    lemma_level_operator_rank(level, t[i0 + 2 * k + 1].kind);
                    assert(super::newline_run(t, i0 + 2 * k + 1) == i0 + 2 * k + 1);
                }
                if n > 0 && k == n {
                    super::lemma_newline_run_from_inside(t, i0 + 2 * n + 1, self.index as int);
                    lemma_level_operator_rank(level, t[super::newline_run(t, i0 + 2 * n + 1)].kind);
                }
            }
            self.skip_newlines();
            let op = match self.match_binary_operator(level) {
                Some(op) => op,
                None => break,
            };
            proof {
                if n > 0 {
                    assert(k < n);
                    assert(t[i0 + 2 * k + 2].kind == TokenKind::Integer);
                    assert(super::newline_run(t, i0 + 2 * k + 2) == i0 + 2 * k + 2);
                    if k + 1 < n {
                        assert(!super::lone_integer_from(t, i0 + 2 * k + 2));
                        assert(level_chain_len(t, level, i0 + 2 * k + 2) == n - k - 1);
                        lemma_level_operator_rank(level, t[i0 + 2 * k + 3].kind);
                    } else {
                        assert(super::lone_integer_from(t, i0 + 2 * k + 2));
                    }
                }
            }
            let right = self.parse_operand(level)?;
            let span = expr.span().cover(right.span());
            expr = Expr::Binary { left: Box::new(expr), op, right: Box::new(right), span };
            proof {
                if n > 0 {
                    k = k + 1;
                    assert(left_chain_built(t, level, i0, k as nat, expr));
                }
            }
        }
        Some(expr)
    }

    /// `try e`, `!e`, `-e`, or a postfix expression.
    pub(crate) fn parse_unary_expr(&mut self) -> (r: Option<Expr>)
        requires
            old(self).wf(),
        ensures
            r is None ==> final(self).diagnostics@.len() > old(self).diagnostics@.len(),
            final(self).follows(*old(self)),
            r is Some ==> final(self).index > old(self).index,
            old(self).at_lone_integer() ==> old(self).parsed_lone_integer(r, *final(self)),
            old(self).at_int_before_op(7) ==> old(self).parsed_int_alone(r, *final(self)),
        decreases old(self).bound@, old(self).remaining(), 4nat,
    {
        if self.match_keyword(Keyword::Try) {
            let start = self.previous_span();
            let value = self.parse_unary_expr()?;
            let span = start.cover(value.span());
            return Some(Expr::Try { value: Box::new(value), span });
        }
        if self.match_token(TokenKind::Bang) {
            let start = self.previous_span();
            let expr = self.parse_unary_expr()?;
            let span = start.cover(expr.span());
            return Some(Expr::Unary { op: UnaryOp::Not, expr: Box::new(expr), span });
        }
        if self.match_token(TokenKind::Minus) {
            let start = self.previous_span();
            let expr = self.parse_unary_expr()?;
            let span = start.cover(expr.span());
            return Some(Expr::Unary { op: UnaryOp::Neg, expr: Box::new(expr), span });
        }
        self.parse_postfix_expr()
    }

    /// Calls, member access, indexing, `with { ... }` updates, postfix
    /// `match`, and trailing `{ ... }` arguments.
    pub(crate) fn parse_postfix_expr(&mut self) -> (r: Option<Expr>)
        requires
            old(self).wf(),
        ensures
            r is None ==> final(self).diagnostics@.len() > old(self).diagnostics@.len(),
            final(self).follows(*old(self)),
            r is Some ==> final(self).index > old(self).index,
            old(self).at_lone_integer() ==> old(self).parsed_lone_integer(r, *final(self)),
            old(self).at_int_before_op(7) ==> old(self).parsed_int_alone(r, *final(self)),
            old(self).cur_kind() == TokenKind::Identifier && old(self).tokens@[old(self).index as int].lexeme@ != "_"@
                && simple_suffix_width(old(self).tokens@, old(self).index as int + 1) > 0
                && super::ends_operand(old(self).tokens@[simple_chain_end(old(self).tokens@, old(self).index as int + 1)].kind)
                ==> (r matches Some(e) && built_by_suffixes(old(self).tokens@, old(self).index as int + 1,
                    simple_chain_end(old(self).tokens@, old(self).index as int + 1), e)
                    && final(self).index == simple_chain_end(old(self).tokens@, old(self).index as int + 1)
                    && final(self).diagnostics@ == old(self).diagnostics@),
        decreases old(self).bound@, old(self).remaining(), 3nat,
    {
        let ghost chain = old(self).cur_kind() == TokenKind::Identifier && old(self).tokens@[old(self).index as int].lexeme@ != "_"@
                && simple_suffix_width(old(self).tokens@, old(self).index as int + 1) > 0
                && super::ends_operand(old(self).tokens@[simple_chain_end(old(self).tokens@, old(self).index as int + 1)].kind);
        let ghost chain_end = simple_chain_end(old(self).tokens@, old(self).index as int + 1);
        let mut expr = self.parse_primary_expr()?;
        proof {
            if chain {
                assert(self.index == old(self).index + 1);
                assert(built_by_suffixes(old(self).tokens@, old(self).index + 1, old(self).index + 1, expr));
                lemma_simple_chain_end(old(self).tokens@, old(self).index + 1);
            }
        }
        loop
            invariant
                self.follows(*old(self)),
                self.index > old(self).index,
                old(self).at_lone_integer() ==> old(self).parsed_lone_integer(Some(expr), *self),
                old(self).at_int_before_op(7) ==> old(self).parsed_int_alone(Some(expr), *self),
                chain == (old(self).cur_kind() == TokenKind::Identifier && old(self).tokens@[old(self).index as int].lexeme@ != "_"@
                && simple_suffix_width(old(self).tokens@, old(self).index as int + 1) > 0
                && super::ends_operand(old(self).tokens@[simple_chain_end(old(self).tokens@, old(self).index as int + 1)].kind)),
                chain_end == simple_chain_end(old(self).tokens@, old(self).index as int + 1),
                chain ==> old(self).index as int + 1 <= self.index <= chain_end
                    && simple_chain_end(old(self).tokens@, self.index as int) == chain_end
                    && built_by_suffixes(old(self).tokens@, old(self).index as int + 1, self.index as int, expr)
                    && self.diagnostics@ == old(self).diagnostics@,
            ensures
                self.follows(*old(self)),
                self.index > old(self).index,
                old(self).at_lone_integer() ==> old(self).parsed_lone_integer(Some(expr), *self),
                old(self).at_int_before_op(7) ==> old(self).parsed_int_alone(Some(expr), *self),
                chain ==> self.index == chain_end && built_by_suffixes(old(self).tokens@, old(self).index as int + 1, chain_end, expr)
                    && self.diagnostics@ == old(self).diagnostics@,
            decreases self.remaining(),
        {
            proof {
                if old(self).at_lone_integer() {
                    old(self).lemma_lone_integer_rest(self.index as int);
                }
                if chain && self.index < chain_end {
                    assert(simple_suffix_width(old(self).tokens@, self.index as int) > 0);
                    assert(self.index + simple_suffix_width(old(self).tokens@, self.index as int) <= old(self).tokens@.len());
                    assert(simple_chain_end(old(self).tokens@, self.index + simple_suffix_width(old(self).tokens@, self.index as int))
                        == chain_end);
                    lemma_simple_chain_end(old(self).tokens@, self.index + simple_suffix_width(old(self).tokens@, self.index as int));
                    assert(super::newline_run(old(self).tokens@, self.index + 1) == self.index + 1);
                }
            }
            if self.match_token(TokenKind::LParen) {
                let start = expr.span();
                let args = self.parse_call_args()?;
                let end = self.consume(TokenKind::RParen, "expected ')' after arguments")?;
                expr = Expr::Call { callee: Box::new(expr), args, span: start.cover(end) };
                continue;
            }
            if self.match_token(TokenKind::Dot) {
                self.skip_newlines();
                let (name, end) = self.expect_identifier("expected member name after '.'")?;
                let start = expr.span();
                expr = Expr::Member { receiver: Box::new(expr), name, span: start.cover(end) };
                continue;
            }
            if self.match_token(TokenKind::LBracket) {
                let start = expr.span();
                let index = self.parse_expr()?;
                let end = self.consume(TokenKind::RBracket, "expected ']' after index")?;
                expr = Expr::Index { receiver: Box::new(expr), index: Box::new(index), span: start.cover(end) };
                continue;
            }
            if self.match_keyword(Keyword::With) {
                let start = expr.span();
                let (updates, end) = self.parse_record_update_args()?;
                expr = Expr::RecordUpdate { receiver: Box::new(expr), updates, span: start.cover(end) };
                continue;
            }
            if self.match_keyword(Keyword::Match) {
                let start = expr.span();
                let (cases, end) = self.parse_match_cases()?;
                expr = Expr::Match { partial: false, value: Box::new(expr), cases, span: start.cover(end) };
                continue;
            }
            if self.allow_trailing_block_call && self.at(TokenKind::LBrace) {
                let start = expr.span();
                let checkpoint = self.checkpoint();
                let arg = match self.parse_brace_record_literal_expr() {
                    Some(record) => record,
                    None => {
                        self.restore(checkpoint);
                        let block = self.parse_block()?;
                        Expr::Block { span: block.span, body: block }
                    },
                };
                let arg_span = arg.span();
                expr = Expr::Call {
                    callee: Box::new(expr),
                    args: vec![CallArg { name: None, span: arg_span, value: arg }],
                    span: start.cover(arg_span),
                };
                continue;
            }
            break;
        }
        Some(expr)
    }

    /// Call arguments up to (not including) the `)`; `name = value` gives a
    /// named argument.
    pub(crate) fn parse_call_args(&mut self) -> (r: Option<Vec<CallArg>>)
        requires
            old(self).wf(),
        ensures
            r is None ==> final(self).diagnostics@.len() > old(self).diagnostics@.len(),
            final(self).follows(*old(self)),
            ({
                let l = super::newline_run(old(self).tokens@, old(self).index as int);
                &&& old(self).kind_at(l) == TokenKind::RParen ==> (r matches Some(v) && v@.len() == 0 && final(self).index == l
                    && final(self).diagnostics@ == old(self).diagnostics@)
                &&& old(self).kind_at(l) != TokenKind::RParen ==> (r matches Some(v) ==> v@.len() > 0 && final(self).index > l)
            }),
            old(self).cur_kind() == TokenKind::Integer && old(self).kind_at(old(self).index + 1) == TokenKind::RParen
                ==> (r matches Some(v) && v@.len() == 1 && v@[0].name is None
                    && (v@[0].value matches Expr::Integer { raw, .. } && raw@ == old(self).tokens@[old(self).index as int].lexeme@)
                    && final(self).index == old(self).index + 1 && final(self).diagnostics@ == old(self).diagnostics@),
        decreases old(self).bound@, old(self).remaining(), 29nat,
    {
        let mut args: Vec<CallArg> = Vec::new();
        self.skip_newlines();
        if self.at(TokenKind::RParen) {
            return Some(args);
        }
        proof {
            if old(self).cur_kind() == TokenKind::Integer && old(self).kind_at(old(self).index + 1) == TokenKind::RParen {
                assert(super::newline_run(old(self).tokens@, old(self).index as int) == old(self).index);
                assert(super::newline_run(old(self).tokens@, old(self).index + 1) == old(self).index + 1);
            }
        }
        loop
            invariant_except_break
                old(self).cur_kind() == TokenKind::Integer && old(self).kind_at(old(self).index + 1) == TokenKind::RParen
                    ==> args@.len() == 0 && self.index == old(self).index && self.diagnostics@ == old(self).diagnostics@,
            invariant
                self.follows(*old(self)),
                self.index >= super::newline_run(old(self).tokens@, old(self).index as int),
                old(self).kind_at(super::newline_run(old(self).tokens@, old(self).index as int)) != TokenKind::RParen,
                args@.len() > 0 ==> self.index > super::newline_run(old(self).tokens@, old(self).index as int),
            ensures
                self.follows(*old(self)),
                args@.len() > 0 && self.index > super::newline_run(old(self).tokens@, old(self).index as int),
                old(self).cur_kind() == TokenKind::Integer && old(self).kind_at(old(self).index + 1) == TokenKind::RParen ==> args@.len() == 1 && args@[0].name is None
                    && (args@[0].value matches Expr::Integer { raw, .. } && raw@ == old(self).tokens@[old(self).index as int].lexeme@)
                    && self.index == old(self).index + 1 && self.diagnostics@ == old(self).diagnostics@,
            decreases self.remaining(),
        {
            let ghost at_arg = *self;
            proof {
                if old(self).cur_kind() == TokenKind::Integer && old(self).kind_at(old(self).index + 1) == TokenKind::RParen {
                    assert(self.at_lone_integer());
                }
            }
            if self.at(TokenKind::Identifier) && self.at_next(TokenKind::Eq) {
                let (name, name_span) = self.expect_identifier("expected named argument")?;
                self.consume(TokenKind::Eq, "expected '=' after argument name")?;
                let value = self.parse_expr()?;
                let span = name_span.cover(value.span());
                args.push(CallArg { name: Some(name), value, span });
            } else {
                if self.is_bare_record_call_arg_start() {
                    self.error_at_current(
                        "unexpected_token",
                        "bare '{ ... }' record arguments are not allowed inside '(...)'; use 'Type { ... }' or 'Type(record { ... })'",
                    );
                    return None;
                }
                let value = self.parse_expr()?;
                let span = value.span();
                args.push(CallArg { name: None, span, value });
            }
            self.skip_newlines();
            if !self.match_token(TokenKind::Comma) {
                break;
            }
            self.skip_newlines();
            if self.at(TokenKind::RParen) {
                break;
            }
        }
        Some(args)
    }

    /// Literals, identifiers, blocks, lists, tuples, groups, `record`
    /// literals, `match`/`partial`/`for` forms and anonymous interfaces.
    pub(crate) fn parse_primary_expr(&mut self) -> (r: Option<Expr>)
        requires
            old(self).wf(),
        ensures
            r is None ==> final(self).diagnostics@.len() > old(self).diagnostics@.len(),
            final(self).follows(*old(self)),
            r is Some ==> final(self).index > old(self).index,
            old(self).at_lone_integer() ==> old(self).parsed_lone_integer(r, *final(self)),
            old(self).cur_kind() == TokenKind::Integer ==> old(self).parsed_int_alone(r, *final(self)),
            old(self).cur_kind() == TokenKind::Identifier && old(self).tokens@[old(self).index as int].lexeme@ != "_"@
                && (old(self).kind_at(old(self).index + 1) == TokenKind::Dot
                || old(self).kind_at(old(self).index + 1) == TokenKind::LParen)
                ==> (r matches Some(Expr::Identifier { name, .. }) && name@ == old(self).tokens@[old(self).index as int].lexeme@
                    && final(self).index == old(self).index + 1 && final(self).diagnostics@ == old(self).diagnostics@),
        decreases old(self).bound@, old(self).remaining(), 2nat,
    {
        proof {
            if old(self).at_lone_integer() {
                old(self).lemma_lone_integer_bounds();
            }
            if old(self).cur_kind() == TokenKind::Identifier || old(self).cur_kind() == TokenKind::Integer {
                assert(super::newline_run(old(self).tokens@, old(self).index as int) == old(self).index);
            }
        }
        self.skip_newlines();
        if self.can_start_type_ref() && self.is_anonymous_interface_expr_start() {
            return self.parse_anonymous_interface_expr();
        }
        match self.current_kind() {
            TokenKind::Identifier => {
                let token = self.current_token();
                self.advance();
                if string_is(&token.lexeme, "_") {
                    Some(Expr::Placeholder { span: token.span })
                } else {
                    Some(Expr::Identifier { name: token.lexeme, span: token.span })
                }
            },
            TokenKind::Integer => {
                let token = self.current_token();
                self.advance();
                Some(Expr::Integer { raw: token.lexeme, span: token.span })
            },
            TokenKind::Float => {
                let token = self.current_token();
                self.advance();
                Some(Expr::Float { raw: token.lexeme, span: token.span })
            },
            TokenKind::String => {
                let token = self.current_token();
                self.advance();
                self.parse_string_expr(token)
            },
            TokenKind::Keyword(Keyword::True) => {
                let span = self.current_span();
                self.advance();
                Some(Expr::Bool { value: true, span })
            },
            TokenKind::Keyword(Keyword::False) => {
                let span = self.current_span();
                self.advance();
                Some(Expr::Bool { value: false, span })
            },
            TokenKind::Keyword(Keyword::Record) => {
                let start = self.consume_keyword(Keyword::Record, "expected 'record'")?;
                self.parse_record_literal_expr(start)
            },
            TokenKind::Keyword(Keyword::Match) => {
                let start = self.consume_keyword(Keyword::Match, "expected 'match'")?;
                self.parse_match_expr_after_keyword(start, false)
            },
            TokenKind::Keyword(Keyword::Partial) => {
                let start = self.consume_keyword(Keyword::Partial, "expected 'partial'")?;
                self.parse_match_expr_after_keyword(start, true)
            },
            TokenKind::Keyword(Keyword::For) => {
                let start = self.consume_keyword(Keyword::For, "expected 'for'")?;
                self.parse_for_yield_expr_after_start(start)
            },
            TokenKind::LBracket => self.parse_list_literal(),
            TokenKind::LParen => self.parse_group_or_tuple_expr(),
            TokenKind::LBrace => {
                let block = self.parse_block()?;
                Some(Expr::Block { span: block.span, body: block })
            },
            _ => {
                self.error_at_current("expected_expression", "expected expression");
                None
            },
        }
    }

    /// Whether a `{ name = ...` record argument starts here.
    pub(crate) fn is_bare_record_call_arg_start(&self) -> (b: bool)
        requires
            self.wf(),
        ensures
            b == ({
                let l = super::newline_run(self.tokens@, self.index + 1);
                self.cur_kind() == TokenKind::LBrace && l + 1 < self.tokens@.len()
                    && self.kind_at(l) == TokenKind::Identifier && self.kind_at(l + 1) == TokenKind::Eq
            }),
    {
        if !self.at(TokenKind::LBrace) {
            return false;
        }
        let n = self.tokens.len();
        let mut lookahead = self.index + 1;
        while lookahead < n && self.tokens[lookahead].kind == TokenKind::Newline
            invariant
                n == self.tokens@.len(),
                self.index < lookahead,
                super::newline_run(self.tokens@, lookahead as int) == super::newline_run(self.tokens@, self.index + 1),
            decreases n - lookahead,
        {
            lookahead = lookahead + 1;
        }
        lookahead < n && self.tokens[lookahead].kind == TokenKind::Identifier && lookahead + 1 < n
            && self.tokens[lookahead + 1].kind == TokenKind::Eq
    }

    /// `[a, b, c]`, allowing a trailing comma.
    pub(crate) fn parse_list_literal(&mut self) -> (r: Option<Expr>)
        requires
            old(self).wf(),
        ensures
            r is None ==> final(self).diagnostics@.len() > old(self).diagnostics@.len(),
            final(self).follows(*old(self)),
            r is Some ==> final(self).index > old(self).index,
            old(self).cur_kind() != TokenKind::LBracket ==> r is None,
            old(self).cur_kind() == TokenKind::LBracket && old(self).kind_at(super::newline_run(old(self).tokens@, old(self).index + 1)) == TokenKind::RBracket
                ==> (r matches Some(Expr::ListLiteral { items, .. }) && items@.len() == 0
                    && final(self).index == super::newline_run(old(self).tokens@, old(self).index + 1) + 1),
        decreases old(self).bound@, old(self).remaining(), 1nat,
    {
        let start = self.consume(TokenKind::LBracket, "expected '['")?;
        self.skip_newlines();
        let mut items: Vec<Expr> = Vec::new();
        if !self.at(TokenKind::RBracket) {
            items.push(self.parse_expr()?);
            while self.match_token(TokenKind::Comma)
                invariant
                    self.follows(*old(self)),
                    self.index > old(self).index,
                    old(self).cur_kind() == TokenKind::LBracket ==> old(self).kind_at(super::newline_run(old(self).tokens@, old(self).index + 1)) != TokenKind::RBracket,
                decreases self.remaining(),
            {
                self.skip_newlines();
                if self.at(TokenKind::RBracket) {
                    break;
                }
                items.push(self.parse_expr()?);
            }
        }
        let end = self.consume(TokenKind::RBracket, "expected ']' after list literal")?;
        Some(Expr::ListLiteral { items, span: start.cover(end) })
    }

    /// `()`, `(e)` or `(a, b, ...)`.
    pub(crate) fn parse_group_or_tuple_expr(&mut self) -> (r: Option<Expr>)
        requires
            old(self).wf(),
        ensures
            r is None ==> final(self).diagnostics@.len() > old(self).diagnostics@.len(),
            final(self).follows(*old(self)),
            r is Some ==> final(self).index > old(self).index,
            old(self).cur_kind() != TokenKind::LParen ==> r is None,
            old(self).cur_kind() == TokenKind::LParen && old(self).kind_at(super::newline_run(old(self).tokens@, old(self).index + 1)) == TokenKind::RParen
                ==> (r matches Some(Expr::Unit { .. }) && final(self).index == super::newline_run(old(self).tokens@, old(self).index + 1) + 1),
        decreases old(self).bound@, old(self).remaining(), 1nat,
    {
        let start = self.consume(TokenKind::LParen, "expected '('")?;
        self.skip_newlines();
        if self.match_token(TokenKind::RParen) {
            let end = self.previous_span();
            return Some(Expr::Unit { span: start.cover(end) });
        }
        let first = self.parse_expr()?;
        self.skip_newlines();
        if self.match_token(TokenKind::Comma) {
            let mut items = vec![first];
            self.skip_newlines();
            if !self.at(TokenKind::RParen) {
                items.push(self.parse_expr()?);
                while self.match_token(TokenKind::Comma)
                    invariant
                        self.follows(*old(self)),
                        self.index > old(self).index,
                        old(self).cur_kind() == TokenKind::LParen ==> old(self).kind_at(super::newline_run(old(self).tokens@, old(self).index + 1)) != TokenKind::RParen,
                    decreases self.remaining(),
                {
                    self.skip_newlines();
                    if self.at(TokenKind::RParen) {
                        break;
                    }
                    items.push(self.parse_expr()?);
                }
            }
            let end = self.consume(TokenKind::RParen, "expected ')' after tuple literal")?;
            return Some(Expr::TupleLiteral { items, span: start.cover(end) });
        }
        let end = self.consume(TokenKind::RParen, "expected ')' after grouped expression")?;
        Some(Expr::Group { inner: Box::new(first), span: start.cover(end) })
    }

    /// `a, b, c`: at least one expression.
    pub(crate) fn parse_expr_list(&mut self) -> (r: Option<Vec<Expr>>)
        requires
            old(self).wf(),
        ensures
            r is None ==> final(self).diagnostics@.len() > old(self).diagnostics@.len(),
            final(self).follows(*old(self)),
            r is Some ==> final(self).index > old(self).index,
            r matches Some(v) ==> v@.len() > 0,
            old(self).at_listless_lone_integer() ==> (r matches Some(v) && v@.len() == 1
                && old(self).parsed_lone_integer(Some(v@[0]), *final(self))),
        decreases old(self).bound@, old(self).remaining(), 29nat,
    {
        let first = self.parse_expr()?;
        proof {
            if old(self).at_listless_lone_integer() {
                old(self).lemma_lone_integer_rest(self.index as int);
            }
        }
        let mut exprs = vec![first];
        while self.match_token(TokenKind::Comma)
            invariant
                self.follows(*old(self)),
                self.index > old(self).index,
                exprs@.len() > 0,
                old(self).at_listless_lone_integer() ==> exprs@.len() == 1 && old(self).parsed_lone_integer(Some(exprs@[0]), *self)
                    && (self.cur_kind() == TokenKind::Newline || (super::ends_operand(self.cur_kind()) && self.cur_kind() != TokenKind::Comma)),
            decreases self.remaining(),
        {
            exprs.push(self.parse_expr()?);
        }
        Some(exprs)
    }
}

} // verus!
