//! Operators by precedence, unary forms, postfix chains (calls, members,
//! indexing, lifted hops `.->`, shape updates `:<`, trailing blocks) and
//! primary expressions.
use vstd::prelude::*;
use super::tree::{BinaryOp, CallArg, Expr, LiftedChainSegment, UnaryOp};
use crate::diagnostic::Diagnostic;
use crate::lexer::{Keyword, Token, TokenKind};
use crate::source::Span;
use crate::text::{concat_strings, is_ascii_upper, starts_upper, string_is, usize_to_string};
use super::Parser;

verus! {

/// A hop `.->member...` waiting to be appended to a lifted chain.
pub(crate) struct ChainSegment {
    pub(crate) param: String,
    pub(crate) body: Expr,
    pub(crate) span: Span,
}

/// The operand levels of the left-associative binary operators, loosest first.
#[derive(Clone, Copy, PartialEq, Eq, Structural)]
pub(crate) enum OperandLevel {
    And,
    Equality,
    Term,
    Factor,
    Unary,
}

/// The operator that a token of `kind` stands for between operands at `level`.
pub(crate) open spec fn level_operator(level: OperandLevel, kind: TokenKind) -> Option<BinaryOp> {
    match level {
        OperandLevel::And => match kind {
            TokenKind::OrOr => Some(BinaryOp::Or),
            _ => None,
        },
        OperandLevel::Equality => match kind {
            TokenKind::AndAnd => Some(BinaryOp::And),
            _ => None,
        },
        OperandLevel::Term => match kind {
            TokenKind::Less => Some(BinaryOp::Less),
            TokenKind::LessEq => Some(BinaryOp::LessEq),
            TokenKind::Greater => Some(BinaryOp::Greater),
            TokenKind::GreaterEq => Some(BinaryOp::GreaterEq),
            _ => None,
        },
        OperandLevel::Factor => match kind {
            TokenKind::Plus => Some(BinaryOp::Add),
            TokenKind::Minus => Some(BinaryOp::Sub),
            _ => None,
        },
        OperandLevel::Unary => match kind {
            TokenKind::Star => Some(BinaryOp::Mul),
            TokenKind::Slash => Some(BinaryOp::Div),
            TokenKind::Percent => Some(BinaryOp::Mod),
            _ => None,
        },
    }
}

/// How loosely a binary operator token binds: `||` 0, `&&` 1, the
/// comparisons 2, `+ -` 3, `* / %` 4; -1 for any other token.
pub open spec fn op_rank(kind: TokenKind) -> int {
    match kind {
        TokenKind::OrOr => 0,
        TokenKind::AndAnd => 1,
        TokenKind::Less | TokenKind::LessEq | TokenKind::Greater | TokenKind::GreaterEq => 2,
        TokenKind::Plus | TokenKind::Minus => 3,
        TokenKind::Star | TokenKind::Slash | TokenKind::Percent => 4,
        _ => -1,
    }
}

/// The rank (as in `op_rank`) of the operators that join operands at `level`.
pub(crate) open spec fn level_rank(level: OperandLevel) -> int {
    match level {
        OperandLevel::And => 0,
        OperandLevel::Equality => 1,
        OperandLevel::Term => 2,
        OperandLevel::Factor => 3,
        OperandLevel::Unary => 4,
    }
}

/// The operators of a level are exactly the tokens of that level's rank.
pub(crate) proof fn lemma_level_operator_rank(level: OperandLevel, kind: TokenKind)
    ensures
        level_operator(level, kind) is Some <==> op_rank(kind) == level_rank(level),
{
}

/// From `i`: integers joined by operators of `level` (`1 - 2 - 3`), the
/// last of them a lone integer (only newlines, then a token ending the
/// expression, follow it): how many operators; 0 when no such chain of at
/// least one operator starts at `i`.
pub(crate) open spec fn level_chain_len(tokens: Seq<Token>, level: OperandLevel, i: int) -> nat
    decreases tokens.len() - i,
{
    if 0 <= i && i + 2 < tokens.len() && tokens[i].kind == TokenKind::Integer
        && level_operator(level, tokens[i + 1].kind) is Some && tokens[i + 2].kind == TokenKind::Integer {
        if crate::parser::lone_integer_from(tokens, i + 2) {
            1
        } else {
            let rest = level_chain_len(tokens, level, i + 2);
            if rest > 0 {
                rest + 1
            } else {
                0
            }
        }
    } else {
        0
    }
}

/// `e` is the chain of the first `n` operators from `i` nested to the left:
/// each operator joins everything before it (left) with the integer after
/// it (right), so `1 - 2 - 3` is `(1 - 2) - 3`.
pub(crate) open spec fn left_chain_built(tokens: Seq<Token>, level: OperandLevel, i: int, n: nat, e: Expr) -> bool
    decreases n,
{
    if n == 0 {
        e matches Expr::Integer { raw, .. } && raw@ == tokens[i].lexeme@
    } else {
        &&& e matches Expr::Binary { left, op, right, .. }
        &&& Some(op) == level_operator(level, tokens[i + 2 * n - 1].kind)
        &&& (*right matches Expr::Integer { raw, .. } && raw@ == tokens[i + 2 * n].lexeme@)
        &&& left_chain_built(tokens, level, i, (n - 1) as nat, *left)
    }
}

/// The rank of parsing one operand at `level` in the termination order.
pub(crate) open spec fn operand_rank(level: OperandLevel) -> nat {
    match level {
        OperandLevel::And => 18,
        OperandLevel::Equality => 15,
        OperandLevel::Term => 11,
        OperandLevel::Factor => 8,
        OperandLevel::Unary => 5,
    }
}

/// An expression that reads as a constructor: `new`, `this`, a capitalised
/// name, or a capitalised member of such an expression.
pub open spec fn constructor_like(e: Expr) -> bool
    decreases e,
{
    match e {
        Expr::Identifier { name, .. } => name@ == "new"@ || name@ == "this"@
            || (name@.len() > 0 && is_ascii_upper(name@[0])),
        Expr::Member { receiver, name, .. } => constructor_like(*receiver) && name@.len() > 0
            && is_ascii_upper(name@[0]),
        _ => false,
    }
}

/// How many tokens a simple postfix step at `j` takes (0 when none stands
/// there): `.name`, `()`, `(<integer>)` or `[<integer>]`.
pub open spec fn simple_suffix_width(tokens: Seq<Token>, j: int) -> int {
    if tokens[j].kind == TokenKind::Dot && tokens[j + 1].kind == TokenKind::Identifier {
        2
    } else if tokens[j].kind == TokenKind::LParen && tokens[j + 1].kind == TokenKind::RParen {
        2
    } else if tokens[j].kind == TokenKind::LParen && tokens[j + 1].kind == TokenKind::Integer
        && tokens[j + 2].kind == TokenKind::RParen {
        3
    } else if tokens[j].kind == TokenKind::LBracket && tokens[j + 1].kind == TokenKind::Integer
        && tokens[j + 2].kind == TokenKind::RBracket {
        3
    } else {
        0
    }
}

/// Where the run of simple postfix steps that starts at `j` ends.
pub open spec fn simple_chain_end(tokens: Seq<Token>, j: int) -> int
    decreases tokens.len() - j,
{
    if 0 <= j < tokens.len() && simple_suffix_width(tokens, j) > 0
        && j + simple_suffix_width(tokens, j) <= tokens.len() {
        simple_chain_end(tokens, j + simple_suffix_width(tokens, j))
    } else {
        j
    }
}

/// A run of postfix steps ends at or after where it starts.
pub proof fn lemma_simple_chain_end(tokens: Seq<Token>, j: int)
    ensures
        simple_chain_end(tokens, j) >= j,
    decreases tokens.len() - j,
{
    if 0 <= j < tokens.len() && simple_suffix_width(tokens, j) > 0
        && j + simple_suffix_width(tokens, j) <= tokens.len() {
        lemma_simple_chain_end(tokens, j + simple_suffix_width(tokens, j));
    }
}

/// `e` is the name at `start - 1` with the simple postfix steps in
/// `start..end` applied left to right: each step wraps everything before it
/// (`a.b(1)[2]` is the index of the call of the member `b` of `a`).
pub open spec fn built_by_suffixes(tokens: Seq<Token>, start: int, end: int, e: Expr) -> bool
    decreases e,
{
    if end <= start {
        end == start && (e matches Expr::Identifier { name, .. } && name@ == tokens[start - 1].lexeme@)
    } else {
        match e {
            Expr::Member { receiver, name, .. } => {
                &&& end - 2 >= start && tokens[end - 2].kind == TokenKind::Dot
                &&& tokens[end - 1].kind == TokenKind::Identifier && name@ == tokens[end - 1].lexeme@
                &&& built_by_suffixes(tokens, start, end - 2, *receiver)
            },
            Expr::Call { callee, args, uses_brace_syntax, .. } => {
                &&& !uses_brace_syntax && tokens[end - 1].kind == TokenKind::RParen
                &&& if tokens[end - 2].kind == TokenKind::LParen {
                    end - 2 >= start && args@.len() == 0 && built_by_suffixes(tokens, start, end - 2, *callee)
                } else {
                    &&& end - 3 >= start && tokens[end - 3].kind == TokenKind::LParen
                    &&& tokens[end - 2].kind == TokenKind::Integer && args@.len() == 1 && args@[0].name is None
                    &&& args@[0].ty is None
                    &&& (args@[0].value matches Expr::Integer { raw, .. } && raw@ == tokens[end - 2].lexeme@)
                    &&& built_by_suffixes(tokens, start, end - 3, *callee)
                }
            },
            Expr::Index { receiver, index, .. } => {
                &&& end - 3 >= start && tokens[end - 3].kind == TokenKind::LBracket
                &&& tokens[end - 2].kind == TokenKind::Integer && tokens[end - 1].kind == TokenKind::RBracket
                &&& (*index matches Expr::Integer { raw, .. } && raw@ == tokens[end - 2].lexeme@)
                &&& built_by_suffixes(tokens, start, end - 3, *receiver)
            },
            _ => false,
        }
    }
}

impl<'a> Parser<'a> {
    /// An integer directly followed by a binary operator looser than `rank`
    /// (of rank below it): a whole operand at any level tighter than that.
    pub(crate) open spec fn at_int_before_op(self, rank: int) -> bool {
        &&& self.cur_kind() == TokenKind::Integer
        &&& 0 <= op_rank(self.kind_at(self.index + 1)) < rank
    }

    /// `r` is the integer at the cursor of `self`, and `after` stands just
    /// past it with no diagnostic added.
    pub(crate) open spec fn parsed_int_alone(self, r: Option<Expr>, after: Parser<'a>) -> bool {
        &&& r matches Some(Expr::Integer { raw, span }) && raw@ == self.tokens@[self.index as int].lexeme@
            && span == self.tokens@[self.index as int].span
        &&& after.index == self.index + 1
        &&& after.diagnostics@ == self.diagnostics@
    }

    /// `a : b`, reported as removed but still parsed.
    pub(crate) fn parse_colon_expr(&mut self) -> (r: Option<Expr>)
        requires
            old(self).wf(),
        ensures
            r is None ==> final(self).diagnostics@.len() > old(self).diagnostics@.len()
                || final(self).silent_failures@ > old(self).silent_failures@,
            final(self).follows(*old(self)),
            r is Some ==> final(self).index > old(self).index,
            old(self).cur_kind() == TokenKind::Integer && old(self).at_lone_integer()
                ==> old(self).parsed_lone_integer(r, *final(self)),
        decreases old(self).bound@, old(self).remaining(), 21nat,
    {
        let mut expr = self.parse_or_expr()?;
        loop
            invariant
                self.follows(*old(self)),
                self.index > old(self).index,
                old(self).cur_kind() == TokenKind::Integer && old(self).at_lone_integer() ==> old(self).parsed_lone_integer(Some(expr), *self),
            decreases self.remaining(),
        {
            proof {
                if old(self).cur_kind() == TokenKind::Integer && old(self).at_lone_integer() {
                    old(self).lemma_lone_integer_rest(self.index as int);
                    if self.index < old(self).after_next_significant() {
                        old(self).lemma_lone_integer_rest(self.index + 1);
                    }
                }
            }
            if !self.match_token(TokenKind::Colon) {
                break;
            }
            let colon = self.previous_span();
            self.diagnostics.push(Diagnostic::error(
                "removed_pair_expression",
                String::from_str(
                    "':' pair expressions are no longer supported; use '(left, right)' for tuple pairs or keyed construction inside 'Type { key: value }'",
                ),
                colon,
            ));
            self.skip_newlines();
            let right = self.parse_or_expr()?;
            let span = expr.span().cover(right.span());
            expr = Expr::Binary { left: Box::new(expr), op: BinaryOp::Colon, right: Box::new(right), span };
        }
        Some(expr)
    }

    /// `value ?? fallback`, right-associative.
    pub(crate) fn parse_extract_or_expr(&mut self) -> (r: Option<Expr>)
        requires
            old(self).wf(),
        ensures
            r is None ==> final(self).diagnostics@.len() > old(self).diagnostics@.len()
                || final(self).silent_failures@ > old(self).silent_failures@,
            final(self).follows(*old(self)),
            r is Some ==> final(self).index > old(self).index,
            old(self).cur_kind() == TokenKind::Integer && old(self).at_lone_integer()
                ==> old(self).parsed_lone_integer(r, *final(self)),
        decreases old(self).bound@, old(self).remaining(), 22nat,
    {
        let value = self.parse_colon_expr()?;
        proof {
            if old(self).cur_kind() == TokenKind::Integer && old(self).at_lone_integer() {
                old(self).lemma_lone_integer_rest(self.index as int);
            }
        }
        if !self.match_token(TokenKind::QuestionQuestion) {
            return Some(value);
        }
        self.skip_newlines();
        let fallback = self.parse_extract_or_expr()?;
        let span = value.span().cover(fallback.span());
        Some(Expr::ExtractOr { value: Box::new(value), fallback: Box::new(fallback), span })
    }

    pub(crate) fn parse_or_expr(&mut self) -> (r: Option<Expr>)
        requires
            old(self).wf(),
        ensures
            r is None ==> final(self).diagnostics@.len() > old(self).diagnostics@.len()
                || final(self).silent_failures@ > old(self).silent_failures@,
            final(self).follows(*old(self)),
            r is Some ==> final(self).index > old(self).index,
            old(self).cur_kind() == TokenKind::Integer && old(self).at_lone_integer()
                ==> old(self).parsed_lone_integer(r, *final(self)),
        decreases old(self).bound@, old(self).remaining(), 20nat,
    {
        self.parse_left_assoc(OperandLevel::And)
    }

    pub(crate) fn parse_and_expr(&mut self) -> (r: Option<Expr>)
        requires
            old(self).wf(),
        ensures
            r is None ==> final(self).diagnostics@.len() > old(self).diagnostics@.len()
                || final(self).silent_failures@ > old(self).silent_failures@,
            final(self).follows(*old(self)),
            r is Some ==> final(self).index > old(self).index,
            old(self).cur_kind() == TokenKind::Integer && old(self).at_lone_integer()
                ==> old(self).parsed_lone_integer(r, *final(self)),
            old(self).at_int_before_op(1) ==> old(self).parsed_int_alone(r, *final(self)),
        decreases old(self).bound@, old(self).remaining(), 17nat,
    {
        self.parse_left_assoc(OperandLevel::Equality)
    }

    /// `==`, `!=` and `is Type`, left-associative.
    pub(crate) fn parse_equality_expr(&mut self) -> (r: Option<Expr>)
        requires
            old(self).wf(),
        ensures
            r is None ==> final(self).diagnostics@.len() > old(self).diagnostics@.len()
                || final(self).silent_failures@ > old(self).silent_failures@,
            final(self).follows(*old(self)),
            r is Some ==> final(self).index > old(self).index,
            old(self).cur_kind() == TokenKind::Integer && old(self).at_lone_integer()
                ==> old(self).parsed_lone_integer(r, *final(self)),
            old(self).at_int_before_op(2) ==> old(self).parsed_int_alone(r, *final(self)),
        decreases old(self).bound@, old(self).remaining(), 14nat,
    {
        let mut expr = self.parse_comparison_expr()?;
        loop
            invariant
                self.follows(*old(self)),
                self.index > old(self).index,
                old(self).cur_kind() == TokenKind::Integer && old(self).at_lone_integer() ==> old(self).parsed_lone_integer(Some(expr), *self),
                old(self).at_int_before_op(2) ==> old(self).parsed_int_alone(Some(expr), *self),
            decreases self.remaining(),
        {
            proof {
                if old(self).cur_kind() == TokenKind::Integer && old(self).at_lone_integer() {
                    old(self).lemma_lone_integer_rest(self.index as int);
                    if self.index < old(self).after_next_significant() {
                        old(self).lemma_lone_integer_rest(self.index + 1);
                    }
                }
            }
            if self.match_token(TokenKind::EqEq) {
                self.skip_newlines();
                let right = self.parse_comparison_expr()?;
                let span = expr.span().cover(right.span());
                expr = Expr::Binary { left: Box::new(expr), op: BinaryOp::Eq, right: Box::new(right), span };
                continue;
            }
            if self.match_token(TokenKind::NotEq) {
                self.skip_newlines();
                let right = self.parse_comparison_expr()?;
                let span = expr.span().cover(right.span());
                expr = Expr::Binary { left: Box::new(expr), op: BinaryOp::NotEq, right: Box::new(right), span };
                continue;
            }
            if self.match_keyword(Keyword::Is) {
                self.skip_newlines();
                let target = self.parse_type_ref()?;
                let span = expr.span().cover(target.span());
                expr = Expr::Is { left: Box::new(expr), target, span };
                continue;
            }
            break;
        }
        Some(expr)
    }

    pub(crate) fn parse_comparison_expr(&mut self) -> (r: Option<Expr>)
        requires
            old(self).wf(),
        ensures
            r is None ==> final(self).diagnostics@.len() > old(self).diagnostics@.len()
                || final(self).silent_failures@ > old(self).silent_failures@,
            final(self).follows(*old(self)),
            r is Some ==> final(self).index > old(self).index,
            old(self).cur_kind() == TokenKind::Integer && old(self).at_lone_integer()
                ==> old(self).parsed_lone_integer(r, *final(self)),
            old(self).at_int_before_op(2) ==> old(self).parsed_int_alone(r, *final(self)),
        decreases old(self).bound@, old(self).remaining(), 13nat,
    {
        self.parse_left_assoc(OperandLevel::Term)
    }

    pub(crate) fn parse_term_expr(&mut self) -> (r: Option<Expr>)
        requires
            old(self).wf(),
        ensures
            r is None ==> final(self).diagnostics@.len() > old(self).diagnostics@.len()
                || final(self).silent_failures@ > old(self).silent_failures@,
            final(self).follows(*old(self)),
            r is Some ==> final(self).index > old(self).index,
            old(self).cur_kind() == TokenKind::Integer && old(self).at_lone_integer()
                ==> old(self).parsed_lone_integer(r, *final(self)),
            old(self).at_int_before_op(3) ==> old(self).parsed_int_alone(r, *final(self)),
        decreases old(self).bound@, old(self).remaining(), 10nat,
    {
        self.parse_left_assoc(OperandLevel::Factor)
    }

    pub(crate) fn parse_factor_expr(&mut self) -> (r: Option<Expr>)
        requires
            old(self).wf(),
        ensures
            r is None ==> final(self).diagnostics@.len() > old(self).diagnostics@.len()
                || final(self).silent_failures@ > old(self).silent_failures@,
            final(self).follows(*old(self)),
            r is Some ==> final(self).index > old(self).index,
            old(self).cur_kind() == TokenKind::Integer && old(self).at_lone_integer()
                ==> old(self).parsed_lone_integer(r, *final(self)),
            old(self).at_int_before_op(4) ==> old(self).parsed_int_alone(r, *final(self)),
        decreases old(self).bound@, old(self).remaining(), 7nat,
    {
        self.parse_left_assoc(OperandLevel::Unary)
    }

    /// One operand at `level`.
    pub(crate) fn parse_operand(&mut self, level: OperandLevel) -> (r: Option<Expr>)
        requires
            old(self).wf(),
        ensures
            r is None ==> final(self).diagnostics@.len() > old(self).diagnostics@.len()
                || final(self).silent_failures@ > old(self).silent_failures@,
            final(self).follows(*old(self)),
            r is Some ==> final(self).index > old(self).index,
            old(self).cur_kind() == TokenKind::Integer && old(self).at_lone_integer()
                ==> old(self).parsed_lone_integer(r, *final(self)),
            old(self).at_int_before_op(level_rank(level) + 1) ==> old(self).parsed_int_alone(r, *final(self)),
        decreases old(self).bound@, old(self).remaining(), operand_rank(level),
    {
        match level {
            OperandLevel::And => self.parse_and_expr(),
            OperandLevel::Equality => self.parse_equality_expr(),
            OperandLevel::Term => self.parse_term_expr(),
            OperandLevel::Factor => self.parse_factor_expr(),
            OperandLevel::Unary => self.parse_unary_expr(),
        }
    }

    /// Consumes a binary operator that joins operands at `level`, if one is next.
    pub(crate) fn match_binary_operator(&mut self, level: OperandLevel) -> (r: Option<BinaryOp>)
        requires
            old(self).wf(),
        ensures
            final(self).follows(*old(self)),
            r is Some ==> final(self).index == old(self).index + 1,
            r is None ==> final(self).index == old(self).index,
            r == level_operator(level, old(self).cur_kind()),
            final(self).diagnostics == old(self).diagnostics,
    {
        match level {
            OperandLevel::And => {
                if self.match_token(TokenKind::OrOr) { return Some(BinaryOp::Or); }
            },
            OperandLevel::Equality => {
                if self.match_token(TokenKind::AndAnd) { return Some(BinaryOp::And); }
            },
            OperandLevel::Term => {
                if self.match_token(TokenKind::Less) { return Some(BinaryOp::Less); }
                if self.match_token(TokenKind::LessEq) { return Some(BinaryOp::LessEq); }
                if self.match_token(TokenKind::Greater) { return Some(BinaryOp::Greater); }
                if self.match_token(TokenKind::GreaterEq) { return Some(BinaryOp::GreaterEq); }
            },
            OperandLevel::Factor => {
                if self.match_token(TokenKind::Plus) { return Some(BinaryOp::Add); }
                if self.match_token(TokenKind::Minus) { return Some(BinaryOp::Sub); }
            },
            OperandLevel::Unary => {
                if self.match_token(TokenKind::Star) { return Some(BinaryOp::Mul); }
                if self.match_token(TokenKind::Slash) { return Some(BinaryOp::Div); }
                if self.match_token(TokenKind::Percent) { return Some(BinaryOp::Mod); }
            },
        }
        None
    }

    /// Operands at `level` joined by that level's operators, left-associative:
    /// a chain of integers joined by this level's operators comes back nested
    /// to the left, each operator between the operands it stands between.
    pub(crate) fn parse_left_assoc(&mut self, level: OperandLevel) -> (r: Option<Expr>)
        requires
            old(self).wf(),
        ensures
            r is None ==> final(self).diagnostics@.len() > old(self).diagnostics@.len()
                || final(self).silent_failures@ > old(self).silent_failures@,
            final(self).follows(*old(self)),
            r is Some ==> final(self).index > old(self).index,
            old(self).cur_kind() == TokenKind::Integer && old(self).at_lone_integer()
                ==> old(self).parsed_lone_integer(r, *final(self)),
            old(self).at_int_before_op(level_rank(level)) ==> old(self).parsed_int_alone(r, *final(self)),
            level_chain_len(old(self).tokens@, level, old(self).index as int) > 0 ==> (r matches Some(e)
                && left_chain_built(old(self).tokens@, level, old(self).index as int,
                    level_chain_len(old(self).tokens@, level, old(self).index as int), e)
                && final(self).diagnostics@ == old(self).diagnostics@),
        decreases old(self).bound@, old(self).remaining(), operand_rank(level) + 1,
    {
        let ghost t = old(self).tokens@;
        let ghost i0 = old(self).index as int;
        let ghost n = level_chain_len(t, level, i0);
        let ghost mut k: int = 0;
        proof {
            if n > 0 {
                lemma_level_operator_rank(level, t[i0 + 1].kind);
            }
        }
        let mut expr = self.parse_operand(level)?;
        loop
            invariant
                self.follows(*old(self)),
                self.index > old(self).index,
                old(self).cur_kind() == TokenKind::Integer && old(self).at_lone_integer() ==> old(self).parsed_lone_integer(Some(expr), *self),
                old(self).at_int_before_op(level_rank(level)) ==> old(self).parsed_int_alone(Some(expr), *self),
                t == old(self).tokens@,
                i0 == old(self).index,
                n == level_chain_len(t, level, i0),
                n > 0 ==> 0 <= k <= n && left_chain_built(t, level, i0, k as nat, expr)
                    && self.diagnostics@ == old(self).diagnostics@,
                n > 0 && k < n ==> self.index == i0 + 2 * k + 1 && level_chain_len(t, level, i0 + 2 * k) == n - k,
                n > 0 && k == n ==> crate::parser::lone_integer_from(t, i0 + 2 * n)
                    && i0 + 2 * n < self.index <= crate::parser::newline_run(t, i0 + 2 * n + 1),
            ensures
                self.follows(*old(self)),
                self.index > old(self).index,
                old(self).cur_kind() == TokenKind::Integer && old(self).at_lone_integer() ==> old(self).parsed_lone_integer(Some(expr), *self),
                old(self).at_int_before_op(level_rank(level)) ==> old(self).parsed_int_alone(Some(expr), *self),
                n > 0 ==> left_chain_built(t, level, i0, n as nat, expr) && self.diagnostics@ == old(self).diagnostics@,
            decreases self.remaining(),
        {
            proof {
                if old(self).cur_kind() == TokenKind::Integer && old(self).at_lone_integer() {
                    old(self).lemma_lone_integer_rest(self.index as int);
                    if self.index < old(self).after_next_significant() {
                        old(self).lemma_lone_integer_rest(self.index + 1);
                    }
                }
                if old(self).at_int_before_op(level_rank(level)) {
                    lemma_level_operator_rank(level, t[i0 + 1].kind);
                }
                if n > 0 && k < n {
                    lemma_level_operator_rank(level, t[i0 + 2 * k + 1].kind);
                }
                if n > 0 && k == n {
                    crate::parser::lemma_newline_run_from_inside(t, i0 + 2 * n + 1, self.index as int);
                    lemma_level_operator_rank(level, t[self.index as int].kind);
                }
            }
            let op = match self.match_binary_operator(level) {
                Some(op) => op,
                None => break,
            };
            proof {
                if n > 0 {
                    assert(k < n);
                    assert(t[i0 + 2 * k + 2].kind == TokenKind::Integer);
                    assert(crate::parser::newline_run(t, i0 + 2 * k + 2) == i0 + 2 * k + 2);
                    if k + 1 < n {
                        assert(!crate::parser::lone_integer_from(t, i0 + 2 * k + 2));
                        assert(level_chain_len(t, level, i0 + 2 * k + 2) == n - k - 1);
                        lemma_level_operator_rank(level, t[i0 + 2 * k + 3].kind);
                    } else {
                        assert(crate::parser::lone_integer_from(t, i0 + 2 * k + 2));
                    }
                }
            }
            self.skip_newlines();
            let right = self.parse_operand(level)?;
            let span = expr.span().cover(right.span());
            expr = Expr::Binary { left: Box::new(expr), op, right: Box::new(right), span };
            proof {
                if n > 0 {
                    k = k + 1;
                    assert(left_chain_built(t, level, i0, k as nat, expr));
                }
            }
        }
        Some(expr)
    }

    /// `return`, `break`, `continue`, `try e`, `!e`, `-e`, or a postfix
    /// expression; the removed `lift` operator is reported.
    pub(crate) fn parse_unary_expr(&mut self) -> (r: Option<Expr>)
        requires
            old(self).wf(),
        ensures
            r is None ==> final(self).diagnostics@.len() > old(self).diagnostics@.len()
                || final(self).silent_failures@ > old(self).silent_failures@,
            final(self).follows(*old(self)),
            r is Some ==> final(self).index > old(self).index,
            old(self).cur_kind() == TokenKind::Integer && old(self).at_lone_integer()
                ==> old(self).parsed_lone_integer(r, *final(self)),
            old(self).at_int_before_op(5) ==> old(self).parsed_int_alone(r, *final(self)),
        decreases old(self).bound@, old(self).remaining(), 4nat,
    {
        if self.match_keyword(Keyword::Return) {
            let start = self.previous_span();
            return self.parse_return_expr(start);
        }
        if self.match_keyword(Keyword::Break) {
            let span = self.previous_span();
            return Some(Expr::Break { span });
        }
        if self.match_keyword(Keyword::Continue) {
            let span = self.previous_span();
            return Some(Expr::Continue { span });
        }
        if self.match_keyword(Keyword::Try) {
            let start = self.previous_span();
            self.skip_newlines();
            let value = self.parse_unary_expr()?;
            if self.at(TokenKind::Identifier) && string_is(&self.current().lexeme, "catch") {
                self.error_at_current(
                    "removed_try_catch",
                    "try catch syntax was removed; transform the source before try, for example 'try source.mapError { err => mappedFailure }'",
                );
            }
            let span = start.cover(value.span());
            return Some(Expr::Try { value: Box::new(value), span });
        }
        if self.at_removed_lift_operator() {
            self.error_at_current(
                "lift_removed",
                "lift operator was removed; use explicit try/let extraction and construct the value directly",
            );
            return None;
        }
        if self.match_token(TokenKind::Bang) {
            let start = self.previous_span();
            self.skip_newlines();
            let expr = self.parse_unary_expr()?;
            let span = start.cover(expr.span());
            return Some(Expr::Unary { op: UnaryOp::Not, expr: Box::new(expr), span });
        }
        if self.match_token(TokenKind::Minus) {
            let start = self.previous_span();
            self.skip_newlines();
            let expr = self.parse_unary_expr()?;
            let span = start.cover(expr.span());
            return Some(Expr::Unary { op: UnaryOp::Neg, expr: Box::new(expr), span });
        }
        self.parse_postfix_expr()
    }

    /// The rest of `return [value]`; `return` is consumed.
    pub(crate) fn parse_return_expr(&mut self, start: Span) -> (r: Option<Expr>)
        requires
            old(self).wf(),
        ensures
            r is None ==> final(self).diagnostics@.len() > old(self).diagnostics@.len()
                || final(self).silent_failures@ > old(self).silent_failures@,
            final(self).follows(*old(self)),
            r matches Some(e) ==> e is Return,
            old(self).cur_kind() == TokenKind::Newline || old(self).cur_kind() == TokenKind::RBrace
                || old(self).cur_kind() == TokenKind::RParen || old(self).cur_kind() == TokenKind::RBracket
                || old(self).cur_kind() == TokenKind::Comma || old(self).cur_kind() == TokenKind::Eof
                ==> r == Some(Expr::Return { value: None, span: start }) && final(self).index == old(self).index,
            old(self).at_lone_integer() && old(self).cur_kind() == TokenKind::Integer
                ==> (r matches Some(Expr::Return { value: Some(v), .. })
                    && old(self).parsed_lone_integer(Some(*v), *final(self))),
        decreases old(self).bound@, old(self).remaining(), 24nat,
    {
        if self.return_expr_value_is_omitted() {
            return Some(Expr::Return { value: None, span: start });
        }
        let value = self.parse_expr()?;
        let span = start.cover(value.span());
        Some(Expr::Return { value: Some(Box::new(value)), span })
    }

    /// Whether the token after `return` ends the expression, so that no
    /// value follows.
    pub(crate) fn return_expr_value_is_omitted(&self) -> (b: bool)
        requires
            self.wf(),
        ensures
            b == (self.cur_kind() == TokenKind::Newline || self.cur_kind() == TokenKind::RBrace
                || self.cur_kind() == TokenKind::RParen || self.cur_kind() == TokenKind::RBracket
                || self.cur_kind() == TokenKind::Comma || self.cur_kind() == TokenKind::Eof),
    {
        match self.current_kind() {
            TokenKind::Newline | TokenKind::RBrace | TokenKind::RParen | TokenKind::RBracket
            | TokenKind::Comma | TokenKind::Eof => true,
            _ => false,
        }
    }

    /// Calls, members, indexing (`typeOf[T]`), lifted hops `.->`, shape
    /// updates `:<`, and trailing `{ ... }` arguments after a primary.
    pub(crate) fn parse_postfix_expr(&mut self) -> (r: Option<Expr>)
        requires
            old(self).wf(),
        ensures
            r is None ==> final(self).diagnostics@.len() > old(self).diagnostics@.len()
                || final(self).silent_failures@ > old(self).silent_failures@,
            final(self).follows(*old(self)),
            r is Some ==> final(self).index > old(self).index,
            old(self).cur_kind() == TokenKind::Integer && old(self).at_lone_integer()
                ==> old(self).parsed_lone_integer(r, *final(self)),
            old(self).at_int_before_op(5) ==> old(self).parsed_int_alone(r, *final(self)),
            old(self).cur_kind() == TokenKind::Identifier && old(self).tokens@[old(self).index as int].lexeme@ != "_"@
                && old(self).tokens@[old(self).index as int].lexeme@ != "typeOf"@ && simple_suffix_width(old(self).tokens@, old(self).index as int + 1) > 0
                && crate::parser::ends_operand(old(self).tokens@[simple_chain_end(old(self).tokens@, old(self).index as int + 1)].kind)
                ==> (r matches Some(e) && built_by_suffixes(old(self).tokens@, old(self).index as int + 1, simple_chain_end(old(self).tokens@, old(self).index as int + 1), e)
                    && final(self).index == simple_chain_end(old(self).tokens@, old(self).index as int + 1)
                    && final(self).diagnostics@ == old(self).diagnostics@),
        decreases old(self).bound@, old(self).remaining(), 3nat,
    {
        let ghost chain = old(self).cur_kind() == TokenKind::Identifier && old(self).tokens@[old(self).index as int].lexeme@ != "_"@
                && old(self).tokens@[old(self).index as int].lexeme@ != "typeOf"@ && simple_suffix_width(old(self).tokens@, old(self).index as int + 1) > 0
                && crate::parser::ends_operand(old(self).tokens@[simple_chain_end(old(self).tokens@, old(self).index as int + 1)].kind);
        let ghost chain_end = simple_chain_end(old(self).tokens@, old(self).index as int + 1);
        let mut expr = self.parse_primary_expr()?;
        let mut chain_segment_count: usize = 0;
        proof {
            if chain {
                assert(self.index == old(self).index + 1);
                assert(expr matches Expr::Identifier { name, .. } && name@ == old(self).tokens@[old(self).index as int].lexeme@);
                assert(built_by_suffixes(old(self).tokens@, old(self).index + 1, old(self).index + 1, expr));
                lemma_simple_chain_end(old(self).tokens@, old(self).index + 1);
            }
        }
        loop
            invariant
                self.follows(*old(self)),
                self.index > old(self).index,
                chain_segment_count <= self.index,
                chain == (old(self).cur_kind() == TokenKind::Identifier && old(self).tokens@[old(self).index as int].lexeme@ != "_"@
                    && old(self).tokens@[old(self).index as int].lexeme@ != "typeOf"@ && simple_suffix_width(old(self).tokens@, old(self).index as int + 1) > 0
                    && crate::parser::ends_operand(old(self).tokens@[simple_chain_end(old(self).tokens@, old(self).index as int + 1)].kind)),
                chain_end == simple_chain_end(old(self).tokens@, old(self).index as int + 1),
                chain ==> old(self).index as int + 1 <= self.index <= chain_end && simple_chain_end(old(self).tokens@, self.index as int) == chain_end
                    && built_by_suffixes(old(self).tokens@, old(self).index as int + 1, self.index as int, expr)
                    && self.diagnostics@ == old(self).diagnostics@,
                old(self).cur_kind() == TokenKind::Integer && old(self).at_lone_integer() ==> old(self).parsed_lone_integer(Some(expr), *self),
                old(self).at_int_before_op(5) ==> old(self).parsed_int_alone(Some(expr), *self),
            ensures
                self.follows(*old(self)),
                self.index > old(self).index,
                old(self).cur_kind() == TokenKind::Integer && old(self).at_lone_integer() ==> old(self).parsed_lone_integer(Some(expr), *self),
                old(self).at_int_before_op(5) ==> old(self).parsed_int_alone(Some(expr), *self),
                chain ==> self.index == chain_end && built_by_suffixes(old(self).tokens@, old(self).index as int + 1, chain_end, expr)
                    && self.diagnostics@ == old(self).diagnostics@,
            decreases self.remaining(),
        {
            proof {
                if old(self).cur_kind() == TokenKind::Integer && old(self).at_lone_integer() {
                    old(self).lemma_lone_integer_rest(self.index as int);
                    if self.index < old(self).after_next_significant() {
                        old(self).lemma_lone_integer_rest(self.index + 1);
                    }
                }
                if chain && self.index < chain_end {
                    assert(simple_suffix_width(old(self).tokens@, self.index as int) > 0);
                    assert(self.index + simple_suffix_width(old(self).tokens@, self.index as int) <= old(self).tokens@.len());
                    assert(simple_chain_end(old(self).tokens@, self.index + simple_suffix_width(old(self).tokens@, self.index as int))
                        == chain_end);
                    lemma_simple_chain_end(old(self).tokens@, self.index + simple_suffix_width(old(self).tokens@, self.index as int));
                    assert(crate::parser::newline_run(old(self).tokens@, self.index + 1) == self.index + 1);
                }
            }
            let ghost j = self.index as int;
            if self.at(TokenKind::Newline) && (self.at_next(TokenKind::Dot) || self.at_next(TokenKind::DotArrow)) {
                self.advance();
                continue;
            }
            if self.match_token(TokenKind::DotArrow) {
                let operator_span = self.previous_span();
                let (name, end) = self.parse_member_name("expected member name after '.->'")?;
                let param = concat_strings(String::from_str("__lume_chain"), &usize_to_string(chain_segment_count));
                chain_segment_count = chain_segment_count + 1;
                let receiver = Expr::Identifier { name: param.clone(), span: end };
                let start = receiver.span();
                let body = Expr::Member { receiver: Box::new(receiver), name, span: start.cover(end) };
                let body = self.parse_lifted_hop_postfixes(body)?;
                let span = operator_span.cover(body.span());
                expr = Self::append_lifted_hop(expr, ChainSegment { param, body, span });
                continue;
            }
            if self.match_token(TokenKind::LParen) {
                let args = self.parse_call_args()?;
                let end = self.consume(TokenKind::RParen, "expected ')' after arguments")?;
                let start = expr.span();
                expr = Expr::Call { callee: Box::new(expr), args, uses_brace_syntax: false, span: start.cover(end) };
                continue;
            }
            if self.match_token(TokenKind::Dot) {
                self.skip_newlines();
                if self.at(TokenKind::Arrow) {
                    self.error_at_current(
                        "spaced_lifted_access_operator",
                        "lifted access operator must be written as '.->' without whitespace",
                    );
                    return None;
                }
                let (name, end) = self.parse_member_name("expected member name after '.'")?;
                let start = expr.span();
                expr = Expr::Member { receiver: Box::new(expr), name, span: start.cover(end) };
                continue;
            }
            if self.match_token(TokenKind::LBracket) {
                let start = expr.span();
                let is_type_of = match &expr {
                    Expr::Identifier { name, .. } => string_is(name, "typeOf"),
                    _ => false,
                };
                if is_type_of {
                    let ty = self.parse_type_ref()?;
                    let end = self.consume(TokenKind::RBracket, "expected ']' after typeOf type")?;
                    expr = Expr::TypeOf { ty, span: start.cover(end) };
                    continue;
                }
                let index = self.parse_expr()?;
                let end = self.consume(TokenKind::RBracket, "expected ']' after index")?;
                expr = Expr::Index { receiver: Box::new(expr), index: Box::new(index), span: start.cover(end) };
                continue;
            }
            if self.allow_shape_update_operator && self.match_token(TokenKind::ColonLess) {
                let start = expr.span();
                self.skip_newlines();
                let previous = self.allow_shape_update_operator;
                self.allow_shape_update_operator = false;
                let patch = self.parse_expr();
                self.allow_shape_update_operator = previous;
                let patch = patch?;
                let end = patch.span();
                expr = Expr::RecordUpdate { receiver: Box::new(expr), patch: Box::new(patch), span: start.cover(end) };
                continue;
            }
            if self.at_keyword(Keyword::Match) {
                self.error_at_current(
                    "postfix_match_not_supported",
                    "postfix match is not supported; use 'match value { ... }'",
                );
                return None;
            }
            if self.allow_trailing_block_call && self.at(TokenKind::LBrace) {
                let start = expr.span();
                let open_span = self.current_span();
                let arg = if self.looks_like_brace_record_literal(true) || Self::is_constructor_like_expr(&expr) {
                    self.parse_brace_record_literal_expr()?
                } else if let Some(arg) = self.parse_trailing_lambda_block_arg(open_span) {
                    arg
                } else {
                    let block = self.parse_block()?;
                    if !self.validate_trailing_lambda_block(&block, open_span) {
                        self.diagnostics.push(Diagnostic::error(
                            "invalid_trailing_lambda",
                            String::from_str(
                                "trailing lambda syntax requires an explicit parameter arrow; write '{ () => ... }' for zero-argument callbacks",
                            ),
                            open_span,
                        ));
                    }
                    Expr::Block { span: block.span, body: block }
                };
                let arg_span = arg.span();
                expr = match self.keyed_record_literal_call(expr, arg, start) {
                    Ok(keyed_call) => keyed_call,
                    Err((callee, arg)) => Expr::Call {
                        callee: Box::new(callee),
                        args: vec![CallArg { name: None, ty: None, span: arg_span, value: arg }],
                        uses_brace_syntax: true,
                        span: start.cover(arg_span),
                    },
                };
                continue;
            }
            proof {
                if chain && self.index < chain_end {
                    assert(false);
                }
            }
            break;
        }
        Some(expr)
    }

    /// Calls and indexing applied to the body of a lifted hop.
    pub(crate) fn parse_lifted_hop_postfixes(&mut self, body: Expr) -> (r: Option<Expr>)
        requires
            old(self).wf(),
        ensures
            r is None ==> final(self).diagnostics@.len() > old(self).diagnostics@.len()
                || final(self).silent_failures@ > old(self).silent_failures@,
            final(self).follows(*old(self)),
            old(self).cur_kind() != TokenKind::LParen && old(self).cur_kind() != TokenKind::LBracket
                ==> r == Some(body) && final(self).index == old(self).index,
            final(self).index == old(self).index ==> (r matches Some(e) ==> e == body),
        decreases old(self).bound@, old(self).remaining(), 1nat,
    {
        let ghost first = body;
        let mut body = body;
        loop
            invariant
                self.follows(*old(self)),
                self.index == old(self).index ==> body == first,
                old(self).cur_kind() != TokenKind::LParen && old(self).cur_kind() != TokenKind::LBracket
                    ==> self.index == old(self).index,
            decreases self.remaining(),
        {
            if self.match_token(TokenKind::LParen) {
                let args = self.parse_call_args()?;
                let end = self.consume(TokenKind::RParen, "expected ')' after arguments")?;
                let start = body.span();
                body = Expr::Call { callee: Box::new(body), args, uses_brace_syntax: false, span: start.cover(end) };
                continue;
            }
            if self.match_token(TokenKind::LBracket) {
                let start = body.span();
                let index = self.parse_expr()?;
                let end = self.consume(TokenKind::RBracket, "expected ']' after index")?;
                body = Expr::Index { receiver: Box::new(body), index: Box::new(index), span: start.cover(end) };
                continue;
            }
            break;
        }
        Some(body)
    }

    /// Whether the cursor is on the removed `lift` operator: `lift {` or
    /// `lift (` with a space before the parenthesis.
    pub(crate) fn at_removed_lift_operator(&self) -> (b: bool)
        requires
            self.wf(),
        ensures
            b == (self.cur_kind() == TokenKind::Identifier && self.tokens@[self.index as int].lexeme@ == "lift"@
                && self.index + 1 < self.tokens@.len() && (self.kind_at(self.index + 1) == TokenKind::LBrace
                || (self.kind_at(self.index + 1) == TokenKind::LParen
                && self.tokens@[self.index as int].span.end != self.tokens@[self.index + 1].span.start))),
    {
        if self.current_kind() != TokenKind::Identifier || !string_is(&self.current().lexeme, "lift") {
            return false;
        }
        if self.index + 1 >= self.tokens.len() {
            return false;
        }
        let next = &self.tokens[self.index + 1];
        if next.kind == TokenKind::LBrace {
            return true;
        }
        next.kind == TokenKind::LParen && !super::support::spans_touch(self.current_span(), next.span)
    }

    /// A member name after `.` or `.->`: an identifier, or the words
    /// `annotation` and `case`.
    pub(crate) fn parse_member_name(&mut self, message: &str) -> (r: Option<(String, Span)>)
        requires
            old(self).wf(),
        ensures
            r is None ==> final(self).diagnostics@.len() > old(self).diagnostics@.len()
                || final(self).silent_failures@ > old(self).silent_failures@,
            final(self).follows(*old(self)),
            r is Some ==> final(self).index == old(self).index + 1,
            r is Some <==> (old(self).cur_kind() == TokenKind::Identifier
                || old(self).cur_kind() == TokenKind::Keyword(Keyword::Annotation)
                || old(self).cur_kind() == TokenKind::Keyword(Keyword::Case)),
            r matches Some((name, span)) ==> name@ == old(self).tokens@[old(self).index as int].lexeme@
                && span == old(self).tokens@[old(self).index as int].span,
            r is Some ==> final(self).diagnostics@ == old(self).diagnostics@,
    {
        if self.at(TokenKind::Keyword(Keyword::Annotation)) || self.at(TokenKind::Keyword(Keyword::Case)) {
            let token = self.current_token();
            self.advance();
            Some((token.lexeme, token.span))
        } else {
            self.expect_identifier(message)
        }
    }

    /// `expr` with one more lifted hop: appended to an existing chain, or a
    /// new chain with `expr` as its base.
    pub(crate) fn append_lifted_hop(expr: Expr, segment: ChainSegment) -> (r: Expr)
        ensures
            r is LiftedChain,
    {
        match expr {
            Expr::LiftedChain { base, segments, span: chain_span } => {
                let span = chain_span.cover(segment.span);
                let mut segments = segments;
                segments.push(LiftedChainSegment { param: segment.param, body: segment.body, span: segment.span });
                Expr::LiftedChain { base, segments, span }
            },
            other => {
                let span = other.span().cover(segment.span);
                Expr::LiftedChain {
                    base: Box::new(other),
                    segments: vec![LiftedChainSegment { param: segment.param, body: segment.body, span: segment.span }],
                    span,
                }
            },
        }
    }

    /// Call arguments up to (not including) the `)`: `...spread`,
    /// `name = value`, or a value.
    pub(crate) fn parse_call_args(&mut self) -> (r: Option<Vec<CallArg>>)
        requires
            old(self).wf(),
        ensures
            r is None ==> final(self).diagnostics@.len() > old(self).diagnostics@.len()
                || final(self).silent_failures@ > old(self).silent_failures@,
            final(self).follows(*old(self)),
            ({
                let l = crate::parser::newline_run(old(self).tokens@, old(self).index as int);
                &&& old(self).kind_at(l) == TokenKind::RParen ==> (r matches Some(v) && v@.len() == 0 && final(self).index == l
                    && final(self).diagnostics@ == old(self).diagnostics@)
                &&& old(self).kind_at(l) != TokenKind::RParen ==> (r matches Some(v) ==> v@.len() > 0 && final(self).index > l)
            }),
            old(self).cur_kind() == TokenKind::Integer && old(self).kind_at(old(self).index + 1) == TokenKind::RParen
                ==> (r matches Some(v) && v@.len() == 1 && v@[0].name is None && v@[0].ty is None
                    && (v@[0].value matches Expr::Integer { raw, .. } && raw@ == old(self).tokens@[old(self).index as int].lexeme@)
                    && final(self).index == old(self).index + 1 && final(self).diagnostics@ == old(self).diagnostics@),
        decreases old(self).bound@, old(self).remaining(), 24nat,
    {
        let mut args: Vec<CallArg> = Vec::new();
        self.skip_newlines();
        if self.at(TokenKind::RParen) {
            return Some(args);
        }
        proof {
            if old(self).cur_kind() == TokenKind::Integer && old(self).kind_at(old(self).index + 1) == TokenKind::RParen {
                assert(crate::parser::newline_run(old(self).tokens@, old(self).index as int) == old(self).index);
                assert(crate::parser::newline_run(old(self).tokens@, old(self).index + 1) == old(self).index + 1);
            }
        }
        loop
            invariant_except_break
                old(self).cur_kind() == TokenKind::Integer && old(self).kind_at(old(self).index + 1) == TokenKind::RParen ==> args@.len() == 0 && self.index == old(self).index
                    && self.diagnostics@ == old(self).diagnostics@,
            invariant
                self.follows(*old(self)),
                self.index >= crate::parser::newline_run(old(self).tokens@, old(self).index as int),
                old(self).kind_at(crate::parser::newline_run(old(self).tokens@, old(self).index as int)) != TokenKind::RParen,
                args@.len() > 0 ==> self.index > crate::parser::newline_run(old(self).tokens@, old(self).index as int),
            ensures
                self.follows(*old(self)),
                args@.len() > 0 && self.index > crate::parser::newline_run(old(self).tokens@, old(self).index as int),
                old(self).cur_kind() == TokenKind::Integer && old(self).kind_at(old(self).index + 1) == TokenKind::RParen ==> args@.len() == 1 && args@[0].name is None
                    && args@[0].ty is None
                    && (args@[0].value matches Expr::Integer { raw, .. } && raw@ == old(self).tokens@[old(self).index as int].lexeme@)
                    && self.index == old(self).index + 1 && self.diagnostics@ == old(self).diagnostics@,
            decreases self.remaining(),
        {
            let start = self.current_span();
            if self.match_token(TokenKind::Ellipsis) {
                let value = self.parse_expr()?;
                let span = start.cover(value.span());
                args.push(CallArg { name: None, ty: None, span, value: Expr::Spread { value: Box::new(value), span } });
            } else if self.at(TokenKind::Identifier) && self.at_next(TokenKind::Eq) {
                let (name, name_span) = self.expect_identifier("expected named argument")?;
                self.consume(TokenKind::Eq, "expected '=' after argument name")?;
                let value = self.parse_expr()?;
                let span = name_span.cover(value.span());
                args.push(CallArg { name: Some(name), ty: None, value, span });
            } else {
                let value = self.parse_expr()?;
                let span = value.span();
                args.push(CallArg { name: None, ty: None, span, value });
            }
            self.skip_newlines();
            if !self.match_token(TokenKind::Comma) {
                break;
            }
            self.skip_newlines();
            if self.at(TokenKind::RParen) {
                break;
            }
        }
        Some(args)
    }

    /// Literals, identifiers, `shape(...)`, `match`/`partial`/`for` forms,
    /// lists, tuples, groups, brace payloads, blocks and anonymous
    /// interfaces; `class { ... }` and `shape { ... }` are reported.
    pub(crate) fn parse_primary_expr(&mut self) -> (r: Option<Expr>)
        requires
            old(self).wf(),
        ensures
            r is None ==> final(self).diagnostics@.len() > old(self).diagnostics@.len()
                || final(self).silent_failures@ > old(self).silent_failures@,
            final(self).follows(*old(self)),
            r is Some ==> final(self).index > old(self).index,
            old(self).cur_kind() == TokenKind::Integer && old(self).at_lone_integer()
                ==> old(self).parsed_lone_integer(r, *final(self)),
            old(self).cur_kind() == TokenKind::Integer ==> old(self).parsed_int_alone(r, *final(self)),
            old(self).cur_kind() == TokenKind::Identifier && old(self).tokens@[old(self).index as int].lexeme@ != "_"@
                && (old(self).kind_at(old(self).index as int + 1) == TokenKind::Dot || old(self).kind_at(old(self).index as int + 1) == TokenKind::LParen
                || (old(self).kind_at(old(self).index as int + 1) == TokenKind::LBracket && old(self).kind_at(old(self).index as int + 2) == TokenKind::Integer))
                ==> (r matches Some(Expr::Identifier { name, .. }) && name@ == old(self).tokens@[old(self).index as int].lexeme@
                    && final(self).index == old(self).index + 1 && final(self).diagnostics@ == old(self).diagnostics@),
        decreases old(self).bound@, old(self).remaining(), 2nat,
    {
        proof {
            if old(self).cur_kind() == TokenKind::Integer && old(self).at_lone_integer() {
                old(self).lemma_lone_integer_bounds();
            }
        }
        if self.can_start_type_ref() && self.is_anonymous_interface_expr_start() {
            return self.parse_anonymous_interface_expr();
        }
        match self.current_kind() {
            TokenKind::Identifier => {
                let token = self.current_token();
                self.advance();
                if string_is(&token.lexeme, "_") {
                    Some(Expr::Placeholder { span: token.span })
                } else {
                    Some(Expr::Identifier { name: token.lexeme, span: token.span })
                }
            },
            TokenKind::Integer => {
                let token = self.current_token();
                self.advance();
                Some(Expr::Integer { raw: token.lexeme, span: token.span })
            },
            TokenKind::Float => {
                let token = self.current_token();
                self.advance();
                Some(Expr::Float { raw: token.lexeme, span: token.span })
            },
            TokenKind::String => {
                let token = self.current_token();
                self.advance();
                self.parse_string_expr(token)
            },
            TokenKind::Keyword(Keyword::True) => {
                let span = self.current_span();
                self.advance();
                Some(Expr::Bool { value: true, span })
            },
            TokenKind::Keyword(Keyword::False) => {
                let span = self.current_span();
                self.advance();
                Some(Expr::Bool { value: false, span })
            },
            TokenKind::Keyword(Keyword::Class) => {
                self.consume_keyword(Keyword::Class, "expected 'class'")?;
                let message = if self.at(TokenKind::LBrace) {
                    "anonymous shape literals now use '{ ... }'; 'class { ... }' was removed"
                } else {
                    "anonymous shape literals use '{ ... }'; 'class(...)' is not supported"
                };
                self.error_at_current("unexpected_token", message);
                None
            },
            TokenKind::Keyword(Keyword::Shape) => {
                let start = self.consume_keyword(Keyword::Shape, "expected 'shape'")?;
                if self.match_token(TokenKind::LParen) {
                    let mut args = self.parse_call_args()?;
                    let end = self.consume(TokenKind::RParen, "expected ')' after shape values")?;
                    let mut items: Vec<Expr> = Vec::new();
                    while args.len() > 0
                        invariant
                            self.follows(*old(self)),
                            self.index > old(self).index,
                        decreases args@.len(),
                    {
                        let arg = args.remove(0);
                        if arg.name.is_some() || arg.ty.is_some() {
                            self.diagnostics.push(Diagnostic::error(
                                "invalid_shape_positional_argument",
                                String::from_str(
                                    "shape(...) accepts positional values only; use '{ field: value }' for named anonymous shape construction",
                                ),
                                arg.span,
                            ));
                        }
                        items.push(arg.value);
                    }
                    return Some(Expr::ShapeLiteral { items, span: start.cover(end) });
                }
                let message = if self.at(TokenKind::LBrace) {
                    "anonymous shape literals use '{ ... }'; 'shape { ... }' is not supported"
                } else {
                    "shape positional construction uses 'shape(...)'"
                };
                self.error_at_current("unexpected_token", message);
                None
            },
            TokenKind::Keyword(Keyword::Match) => {
                let start = self.consume_keyword(Keyword::Match, "expected 'match'")?;
                self.parse_match_expr_after_keyword(start, false)
            },
            TokenKind::Keyword(Keyword::Partial) => {
                let start = self.consume_keyword(Keyword::Partial, "expected 'partial'")?;
                self.parse_partial_match_expr_after_partial(start)
            },
            TokenKind::Keyword(Keyword::For) => {
                let start = self.consume_keyword(Keyword::For, "expected 'for'")?;
                self.parse_for_yield_expr_after_start(start)
            },
            TokenKind::LBracket => self.parse_list_literal(),
            TokenKind::LParen => self.parse_group_or_tuple_expr(),
            TokenKind::LBrace => {
                if self.looks_like_brace_record_literal(false) {
                    self.parse_brace_record_literal_expr()
                } else {
                    let block = self.parse_block()?;
                    Some(Expr::Block { span: block.span, body: block })
                }
            },
            _ => {
                self.error_at_current("expected_expression", "expected expression");
                None
            },
        }
    }

    /// Whether the `{` at the cursor opens a brace payload rather than a
    /// block: `{}` (when `allow_empty`), `{ ...x`, `{ name: ...`,
    /// `{ name Type: ...`, or a top-level `,` or `:` before the closing `}`.
    pub(crate) fn looks_like_brace_record_literal(&self, allow_empty: bool) -> (b: bool)
        requires
            self.wf(),
        ensures
            b ==> self.cur_kind() == TokenKind::LBrace,
            ({
                let l = crate::parser::newline_run(self.tokens@, self.index + 1);
                self.cur_kind() == TokenKind::LBrace && l < self.tokens@.len() ==> {
                    &&& self.kind_at(l) == TokenKind::RBrace ==> b == allow_empty
                    &&& self.kind_at(l) == TokenKind::Ellipsis ==> b
                    &&& self.kind_at(l) == TokenKind::Identifier && l + 1 < self.tokens@.len()
                        && self.kind_at(l + 1) == TokenKind::Colon ==> b
                }
            }),
    {
        if !self.at(TokenKind::LBrace) {
            return false;
        }
        let n = self.tokens.len();
        let mut lookahead = self.index + 1;
        while lookahead < n && self.tokens[lookahead].kind == TokenKind::Newline
            invariant
                self.wf(),
                n == self.tokens@.len(),
                self.index < lookahead,
                crate::parser::newline_run(self.tokens@, lookahead as int) == crate::parser::newline_run(self.tokens@, self.index + 1),
            decreases n - lookahead,
        {
            lookahead = lookahead + 1;
        }
        assert(crate::parser::newline_run(self.tokens@, lookahead as int) == lookahead);
        if lookahead < n && self.tokens[lookahead].kind == TokenKind::RBrace {
            return allow_empty;
        }
        if lookahead < n && self.tokens[lookahead].kind == TokenKind::Ellipsis {
            return true;
        }
        if lookahead < n && self.tokens[lookahead].kind == TokenKind::Identifier {
            if lookahead + 1 < n && self.tokens[lookahead + 1].kind == TokenKind::Colon {
                return true;
            }
            if lookahead + 1 < n {
                let mut parser = self.lookahead_at(lookahead + 1);
                if parser.parse_type_ref().is_some() && parser.at(TokenKind::Colon) {
                    return true;
                }
            }
        }
        let mut depth: usize = 1;
        let mut nested_parens: usize = 0;
        let mut nested_brackets: usize = 0;
        let ghost first = lookahead;
        while lookahead < n
            invariant
                self.wf(),
                self.cur_kind() == TokenKind::LBrace,
                n == self.tokens@.len(),
                first <= lookahead,
                first == crate::parser::newline_run(self.tokens@, self.index + 1),
                first < n ==> self.kind_at(first as int) != TokenKind::RBrace,
                depth <= lookahead - first + 1,
                nested_parens <= lookahead - first,
                nested_brackets <= lookahead - first,
            decreases n - lookahead,
        {
            let flat = depth == 1 && nested_parens == 0 && nested_brackets == 0;
            match self.tokens[lookahead].kind {
                TokenKind::LBrace => depth = depth + 1,
                TokenKind::RBrace => {
                    depth = if depth > 0 { depth - 1 } else { 0 };
                    if depth == 0 {
                        break;
                    }
                },
                TokenKind::LParen => nested_parens = nested_parens + 1,
                TokenKind::RParen => nested_parens = if nested_parens > 0 { nested_parens - 1 } else { 0 },
                TokenKind::LBracket => nested_brackets = nested_brackets + 1,
                TokenKind::RBracket => nested_brackets = if nested_brackets > 0 { nested_brackets - 1 } else { 0 },
                TokenKind::Comma => {
                    if flat {
                        return true;
                    }
                },
                TokenKind::Colon => {
                    if flat {
                        return true;
                    }
                },
                _ => {},
            }
            lookahead = lookahead + 1;
        }
        false
    }

    /// Whether `expr` reads as a constructor (see `constructor_like`).
    pub(crate) fn is_constructor_like_expr(expr: &Expr) -> (b: bool)
        ensures
            b == constructor_like(*expr),
        decreases expr,
    {
        match expr {
            Expr::Identifier { name, .. } => {
                string_is(name, "new") || string_is(name, "this") || starts_upper(name.as_str())
            },
            Expr::Member { receiver, name, .. } => {
                Self::is_constructor_like_expr(receiver) && starts_upper(name.as_str())
            },
            _ => false,
        }
    }

    /// `[a, ...rest, b]`, allowing a trailing comma.
    pub(crate) fn parse_list_literal(&mut self) -> (r: Option<Expr>)
        requires
            old(self).wf(),
        ensures
            r is None ==> final(self).diagnostics@.len() > old(self).diagnostics@.len()
                || final(self).silent_failures@ > old(self).silent_failures@,
            final(self).follows(*old(self)),
            r is Some ==> final(self).index > old(self).index,
            old(self).cur_kind() != TokenKind::LBracket ==> r is None,
            old(self).cur_kind() == TokenKind::LBracket && old(self).kind_at(crate::parser::newline_run(old(self).tokens@, old(self).index + 1)) == TokenKind::RBracket
                ==> (r matches Some(Expr::ListLiteral { items, .. }) && items@.len() == 0
                    && final(self).index == crate::parser::newline_run(old(self).tokens@, old(self).index + 1) + 1),
        decreases old(self).bound@, old(self).remaining(), 1nat,
    {
        let start = self.consume(TokenKind::LBracket, "expected '['")?;
        self.skip_newlines();
        let mut items: Vec<Expr> = Vec::new();
        if !self.at(TokenKind::RBracket) {
            items.push(self.parse_list_literal_item()?);
            self.skip_newlines();
            while self.match_token(TokenKind::Comma)
                invariant
                    self.follows(*old(self)),
                    self.index > old(self).index,
                    old(self).cur_kind() == TokenKind::LBracket ==> old(self).kind_at(crate::parser::newline_run(old(self).tokens@, old(self).index + 1)) != TokenKind::RBracket,
                decreases self.remaining(),
            {
                self.skip_newlines();
                if self.at(TokenKind::RBracket) {
                    break;
                }
                items.push(self.parse_list_literal_item()?);
                self.skip_newlines();
            }
        }
        let end = self.consume(TokenKind::RBracket, "expected ']' after list literal")?;
        Some(Expr::ListLiteral { items, span: start.cover(end) })
    }

    /// A list item: `...value` spreads, anything else is a value.
    pub(crate) fn parse_list_literal_item(&mut self) -> (r: Option<Expr>)
        requires
            old(self).wf(),
        ensures
            r is None ==> final(self).diagnostics@.len() > old(self).diagnostics@.len()
                || final(self).silent_failures@ > old(self).silent_failures@,
            final(self).follows(*old(self)),
            r is Some ==> final(self).index > old(self).index,
            old(self).at_lone_integer() ==> old(self).parsed_lone_integer(r, *final(self)),
        decreases old(self).bound@, old(self).remaining(), 24nat,
    {
        if self.match_token(TokenKind::Ellipsis) {
            let start = self.previous_span();
            let value = self.parse_expr()?;
            let span = start.cover(value.span());
            return Some(Expr::Spread { value: Box::new(value), span });
        }
        self.parse_expr()
    }

    /// `()`, `(e)` or `(a, b, ...)`.
    pub(crate) fn parse_group_or_tuple_expr(&mut self) -> (r: Option<Expr>)
        requires
            old(self).wf(),
        ensures
            r is None ==> final(self).diagnostics@.len() > old(self).diagnostics@.len()
                || final(self).silent_failures@ > old(self).silent_failures@,
            final(self).follows(*old(self)),
            r is Some ==> final(self).index > old(self).index,
            old(self).cur_kind() != TokenKind::LParen ==> r is None,
            old(self).cur_kind() == TokenKind::LParen && old(self).kind_at(crate::parser::newline_run(old(self).tokens@, old(self).index + 1)) == TokenKind::RParen
                ==> (r matches Some(Expr::Unit { .. }) && final(self).index == crate::parser::newline_run(old(self).tokens@, old(self).index + 1) + 1),
        decreases old(self).bound@, old(self).remaining(), 1nat,
    {
        let start = self.consume(TokenKind::LParen, "expected '('")?;
        self.skip_newlines();
        if self.match_token(TokenKind::RParen) {
            let end = self.previous_span();
            return Some(Expr::Unit { span: start.cover(end) });
        }
        let first = self.parse_expr()?;
        self.skip_newlines();
        if self.match_token(TokenKind::Comma) {
            let mut items = vec![first];
            self.skip_newlines();
            if !self.at(TokenKind::RParen) {
                items.push(self.parse_expr()?);
                while self.match_token(TokenKind::Comma)
                    invariant
                        self.follows(*old(self)),
                        self.index > old(self).index,
                        old(self).cur_kind() == TokenKind::LParen ==> old(self).kind_at(crate::parser::newline_run(old(self).tokens@, old(self).index + 1)) != TokenKind::RParen,
                    decreases self.remaining(),
                {
                    self.skip_newlines();
                    if self.at(TokenKind::RParen) {
                        break;
                    }
                    items.push(self.parse_expr()?);
                }
            }
            let end = self.consume(TokenKind::RParen, "expected ')' after tuple literal")?;
            return Some(Expr::TupleLiteral { items, span: start.cover(end) });
        }
        let end = self.consume(TokenKind::RParen, "expected ')' after grouped expression")?;
        Some(Expr::Group { inner: Box::new(first), span: start.cover(end) })
    }

    /// `a, b, c`: at least one expression.
    pub(crate) fn parse_expr_list(&mut self) -> (r: Option<Vec<Expr>>)
        requires
            old(self).wf(),
        ensures
            r is None ==> final(self).diagnostics@.len() > old(self).diagnostics@.len()
                || final(self).silent_failures@ > old(self).silent_failures@,
            final(self).follows(*old(self)),
            r is Some ==> final(self).index > old(self).index,
            r matches Some(v) ==> v@.len() > 0,
            old(self).at_listless_lone_integer() ==> (r matches Some(v) && v@.len() == 1
                && old(self).parsed_lone_integer(Some(v@[0]), *final(self))),
        decreases old(self).bound@, old(self).remaining(), 24nat,
    {
        let first = self.parse_expr()?;
        proof {
            if old(self).at_listless_lone_integer() {
                old(self).lemma_lone_integer_rest(self.index as int);
            }
        }
        let mut exprs = vec![first];
        while self.match_token(TokenKind::Comma)
            invariant
                self.follows(*old(self)),
                self.index > old(self).index,
                exprs@.len() > 0,
                old(self).at_listless_lone_integer() ==> exprs@.len() == 1 && old(self).parsed_lone_integer(Some(exprs@[0]), *self)
                    && (self.cur_kind() == TokenKind::Newline || (crate::parser::ends_operand(self.cur_kind()) && self.cur_kind() != TokenKind::Comma)),
            decreases self.remaining(),
        {
            exprs.push(self.parse_expr()?);
        }
        Some(exprs)
    }
}

} // verus!
