//! Recursive-descent parser for the `record`/`import` dialect, from tokens
//! to the tree of `ast`.
use vstd::prelude::*;
use crate::ast::{Item, Program};
use crate::diagnostic::Diagnostic;
use crate::lexer::{token_matches_text, well_lexed, Keyword, Token, TokenKind};
use crate::source::Span;
use crate::text::{concat_str, concat_strings, decimal, string_is, usize_to_string};
use items::item_rules;

pub(crate) mod expr;
pub mod items;
mod pattern;
mod stmt;
pub mod strings;
pub(crate) mod types;



verus! {

/// Whether a `yield` comes at or after `i` before any `{`, newline or end of
/// input.
pub open spec fn yield_on_line(tokens: Seq<Token>, i: int) -> bool
    decreases tokens.len() - i,
{
    if i < 0 || i >= tokens.len() {
        false
    } else if tokens[i].kind == TokenKind::Keyword(Keyword::Yield) {
        true
    } else if tokens[i].kind == TokenKind::LBrace || tokens[i].kind == TokenKind::Newline
        || tokens[i].kind == TokenKind::Eof {
        false
    } else {
        yield_on_line(tokens, i + 1)
    }
}

/// The index of the last token before `i` that is not a newline, or -1 when
/// there is none.
pub open spec fn last_non_newline(tokens: Seq<Token>, i: int) -> int
    decreases i,
{
    if i <= 0 {
        -1
    } else if tokens[i - 1].kind != TokenKind::Newline {
        i - 1
    } else {
        last_non_newline(tokens, i - 1)
    }
}

/// Where recovery after a failed item stops, scanning from `i`: just past
/// the next newline, or on the end of input or a declaration keyword.
pub open spec fn item_sync_point(tokens: Seq<Token>, i: int) -> int
    decreases tokens.len() - i,
{
    if i < 0 || i >= tokens.len() {
        i
    } else {
        let k = tokens[i].kind;
        if k == TokenKind::Eof {
            i
        } else if k == TokenKind::Newline {
            i + 1
        } else if k == TokenKind::Keyword(Keyword::Def) || k == TokenKind::Keyword(Keyword::Class) || k == TokenKind::Keyword(Keyword::Record) || k == TokenKind::Keyword(Keyword::Object) || k == TokenKind::Keyword(Keyword::Interface) || k == TokenKind::Keyword(Keyword::Enum) || k == TokenKind::Keyword(Keyword::Impl) {
            i
        } else {
            item_sync_point(tokens, i + 1)
        }
    }
}

/// The label that names a token kind in messages.
pub open spec fn kind_label(kind: TokenKind) -> Seq<char> {
    match kind {
        TokenKind::Identifier => "IDENT"@,
        TokenKind::Integer => "INT"@,
        TokenKind::Float => "FLOAT"@,
        TokenKind::String => "STRING"@,
        TokenKind::Keyword(Keyword::Case) => "CASE"@,
        TokenKind::Keyword(Keyword::If) => "IF"@,
        TokenKind::Keyword(Keyword::Then) => "THEN"@,
        TokenKind::Keyword(Keyword::Else) => "ELSE"@,
        TokenKind::Keyword(Keyword::Match) => "MATCH"@,
        TokenKind::Keyword(Keyword::Partial) => "PARTIAL"@,
        TokenKind::Keyword(Keyword::For) => "FOR"@,
        TokenKind::Keyword(Keyword::Yield) => "YIELD"@,
        TokenKind::Keyword(Keyword::Unwrap) => "UNWRAP"@,
        TokenKind::Keyword(Keyword::Def) => "DEF"@,
        TokenKind::Keyword(Keyword::Class) => "CLASS"@,
        TokenKind::Keyword(Keyword::Record) => "RECORD"@,
        TokenKind::Keyword(Keyword::Object) => "OBJECT"@,
        TokenKind::Keyword(Keyword::Interface) => "INTERFACE"@,
        TokenKind::Keyword(Keyword::Enum) => "ENUM"@,
        TokenKind::Keyword(Keyword::Public) => "PUB"@,
        TokenKind::Keyword(Keyword::Hidden) => "PRIVATE"@,
        TokenKind::Keyword(Keyword::Var) => "VAR"@,
        TokenKind::LBrace => "{"@,
        TokenKind::RBrace => "}"@,
        TokenKind::LParen => "("@,
        TokenKind::RParen => ")"@,
        TokenKind::LBracket => "["@,
        TokenKind::RBracket => "]"@,
        TokenKind::Eq => "="@,
        TokenKind::FatArrow => "=>"@,
        TokenKind::LeftArrow => "<-"@,
        TokenKind::Newline => "NEWLINE"@,
        TokenKind::Eof => "EOF"@,
        _ => "TOKEN"@,
    }
}

/// How a token reads in messages: `LABEL("lexeme" @ line:column)`.
pub open spec fn token_like(token: Token) -> Seq<char> {
    kind_label(token.kind) + "(\""@ + token.lexeme@ + "\" @ "@ + decimal(token.span.start_pos.line as nat)
        + ":"@ + decimal(token.span.start_pos.column as nat) + ")"@
}


/// What the parser hands back: a program (always present) and the problems
/// found on the way.
pub struct ParseResult {
    pub program: Option<Program>,
    pub diagnostics: Vec<Diagnostic>,
}

/// Where the header (`module`, then `import` lines) ends: after the
/// newlines that open the input, and right there when the input does not
/// open with `module` or `import`.
pub open spec fn header_ends_at(tokens: Seq<Token>, header: int) -> bool {
    let first = newline_run(tokens, 0);
    &&& first <= header < tokens.len()
    &&& tokens[first].kind != TokenKind::Keyword(Keyword::Module)
        && tokens[first].kind != TokenKind::Keyword(Keyword::Import) ==> header == first
}

/// A token stream the parser can walk: non-empty and closed by an
/// end-of-file token.
pub open spec fn tokens_well_formed(tokens: Seq<Token>) -> bool {
    &&& 0 < tokens.len() <= usize::MAX
    &&& tokens[tokens.len() - 1].kind == TokenKind::Eof
}

/// The length of the longest lexeme among `tokens`.
pub open spec fn max_lexeme_len(tokens: Seq<Token>) -> nat
    decreases tokens.len(),
{
    if tokens.len() == 0 {
        0
    } else {
        let rest = max_lexeme_len(tokens.drop_last());
        let last = tokens.last().lexeme@.len();
        if last > rest { last } else { rest }
    }
}

pub(crate) proof fn lemma_max_lexeme_len(tokens: Seq<Token>)
    requires
        forall|i: int| 0 <= i < tokens.len() ==> #[trigger] tokens[i].lexeme@.len() + 3 < usize::MAX,
    ensures
        forall|i: int|
            0 <= i < tokens.len() ==> #[trigger] tokens[i].lexeme@.len() <= max_lexeme_len(tokens),
        max_lexeme_len(tokens) + 3 < usize::MAX,
    decreases tokens.len(),
{
    if tokens.len() > 0 {
        assert forall|i: int| 0 <= i < tokens.drop_last().len() implies #[trigger] tokens.drop_last()[i].lexeme@.len() + 3 < usize::MAX by {
            assert(tokens.drop_last()[i] == tokens[i]);
        }
        assert(tokens.last() == tokens[tokens.len() - 1]);
        lemma_max_lexeme_len(tokens.drop_last());
        assert forall|i: int| 0 <= i < tokens.len() implies #[trigger] tokens[i].lexeme@.len()
            <= max_lexeme_len(tokens) by {
            if i < tokens.len() - 1 {
                assert(tokens[i] == tokens.drop_last()[i]);
            }
        }
    }
}

/// The index of the first token at or after `from` that is not a newline
/// (the length of `tokens` when there is none).
pub open spec fn newline_run(tokens: Seq<Token>, from: int) -> int
    decreases tokens.len() - from,
{
    if 0 <= from < tokens.len() && tokens[from].kind == TokenKind::Newline {
        newline_run(tokens, from + 1)
    } else {
        from
    }
}

/// A newline run that starts inside a stream closed by a non-newline token
/// ends inside it.
pub proof fn lemma_newline_run_bounded(tokens: Seq<Token>, from: int)
    requires
        0 <= from < tokens.len(),
        tokens.last().kind != TokenKind::Newline,
    ensures
        from <= newline_run(tokens, from) < tokens.len(),
    decreases tokens.len() - from,
{
    if tokens[from].kind == TokenKind::Newline {
        assert(from + 1 < tokens.len());
        lemma_newline_run_bounded(tokens, from + 1);
    }
}

/// When the tokens in `from..to` are newlines and the one at `to` is not,
/// `to` is where the newline run from `from` ends.
pub proof fn lemma_newline_run(tokens: Seq<Token>, from: int, to: int)
    requires
        0 <= from <= to < tokens.len(),
        forall|j: int| from <= j < to ==> tokens[j].kind == TokenKind::Newline,
        tokens[to].kind != TokenKind::Newline,
    ensures
        newline_run(tokens, from) == to,
    decreases to - from,
{
    if from < to {
        lemma_newline_run(tokens, from + 1, to);
    }
}

/// A token that ends an expression without being part of it: the end of
/// the input or a closing bracket.
pub open spec fn closes_expression(kind: TokenKind) -> bool {
    kind == TokenKind::Eof || kind == TokenKind::RBrace || kind == TokenKind::RParen || kind == TokenKind::RBracket
}

/// A token that no expression continues with: one that closes it, a comma,
/// or an assignment operator.
pub open spec fn ends_operand(kind: TokenKind) -> bool {
    ||| closes_expression(kind)
    ||| kind == TokenKind::Comma
    ||| kind == TokenKind::Eq || kind == TokenKind::ColonAssign || kind == TokenKind::PlusEq
    ||| kind == TokenKind::MinusEq || kind == TokenKind::StarEq || kind == TokenKind::SlashEq
}

/// From `i`, after any newlines, an integer that only newlines and then a
/// token ending the expression follow.
pub open spec fn lone_integer_from(tokens: Seq<Token>, i: int) -> bool {
    let j = newline_run(tokens, i);
    &&& tokens[j].kind == TokenKind::Integer
    &&& ends_operand(tokens[newline_run(tokens, j + 1)].kind)
}

/// A lone integer from `i` that no comma follows: a whole list of one
/// expression.
pub open spec fn listless_lone_integer_from(tokens: Seq<Token>, i: int) -> bool {
    &&& lone_integer_from(tokens, i)
    &&& tokens[newline_run(tokens, newline_run(tokens, i) + 1)].kind != TokenKind::Comma
}

/// A lone integer from `i` that a closing token (not an assignment
/// operator) ends: a whole expression statement.
pub open spec fn closed_lone_integer_from(tokens: Seq<Token>, i: int) -> bool {
    &&& lone_integer_from(tokens, i)
    &&& closes_expression(tokens[newline_run(tokens, newline_run(tokens, i) + 1)].kind)
}

/// Starting anywhere inside the newline run from `from` leads to the same
/// end; every token before that end is a newline.
pub proof fn lemma_newline_run_from_inside(tokens: Seq<Token>, from: int, k: int)
    requires
        0 <= from <= k <= newline_run(tokens, from),
    ensures
        newline_run(tokens, k) == newline_run(tokens, from),
        k < newline_run(tokens, from) ==> tokens[k].kind == TokenKind::Newline,
    decreases k - from,
{
    if from < k {
        lemma_newline_run_from_inside(tokens, from + 1, k);
    }
}

/// The span that a parsed program covers: from the first token that is not a
/// newline to the token before the end marker (or that first token alone when
/// nothing precedes the end marker).
pub open spec fn program_span(tokens: Seq<Token>) -> Span {
    let first = tokens[newline_run(tokens, 0)].span;
    let last = if tokens.len() >= 2 { tokens[tokens.len() - 2].span } else { first };
    crate::source::spec_cover(first, last)
}

/// Only the last token is the end-of-file marker.
pub open spec fn eof_only_last(tokens: Seq<Token>) -> bool {
    forall|i: int| 0 <= i < tokens.len() - 1 ==> tokens[i].kind != TokenKind::Eof
}

/// Every token before the end-of-file marker is a newline.
pub open spec fn only_newlines(tokens: Seq<Token>) -> bool {
    forall|i: int| 0 <= i < tokens.len() - 1 ==> tokens[i].kind == TokenKind::Newline
}

/// Whatever the lexer produces from a text of sensible length is input that
/// both parsers accept: a non-empty stream closed by the end-of-file token,
/// whose lexemes are all short enough. The end marker comes only last, so the
/// span of the program parsed from it is `program_span`, and that span lies
/// within the text.
pub proof fn lemma_lexed_tokens_are_parser_input(tokens: Seq<Token>, text: Seq<char>)
    requires
        well_lexed(tokens, text),
        text.len() + 3 < usize::MAX,
        tokens.len() <= usize::MAX,
    ensures
        tokens_well_formed(tokens),
        crate::syntax::tokens_well_formed(tokens),
        forall|i: int| 0 <= i < tokens.len() ==> #[trigger] tokens[i].lexeme@.len() + 3 < usize::MAX,
        eof_only_last(tokens),
        program_span(tokens).start <= program_span(tokens).end <= text.len(),
{
    assert(tokens.last() == tokens[tokens.len() - 1]);
    assert forall|i: int| 0 <= i < tokens.len() - 1 implies tokens[i].kind != TokenKind::Eof by {
        assert(tokens.drop_last()[i] == tokens[i]);
    }
    assert forall|i: int| 0 <= i < tokens.len() implies #[trigger] tokens[i].span.start <= tokens[i].span.end <= text.len() by {
        if i < tokens.len() - 1 {
            assert(tokens.drop_last()[i] == tokens[i]);
            assert(token_matches_text(tokens.drop_last()[i], text));
        }
    }
    lemma_newline_run_bounded(tokens, 0);
    let first = newline_run(tokens, 0);
    assert(tokens[first].span.start <= tokens[first].span.end <= text.len());
    if tokens.len() >= 2 {
        assert(tokens[tokens.len() - 2].span.start <= tokens[tokens.len() - 2].span.end <= text.len());
    }
    assert forall|i: int| 0 <= i < tokens.len() implies #[trigger] tokens[i].lexeme@.len() + 3 < usize::MAX by {
        if i < tokens.len() - 1 {
            assert(tokens.drop_last()[i] == tokens[i]);
            assert(token_matches_text(tokens.drop_last()[i], text));
        } else {
            assert(tokens.last() == tokens[i]);
        }
    }
}

/// Parses a whole token stream. The result always holds a program; syntax
/// errors are reported in `diagnostics` and the parser resynchronises at the
/// next item.
pub fn parse_program(tokens: &[Token]) -> (r: ParseResult)
    requires
        tokens_well_formed(tokens@),
        forall|i: int| 0 <= i < tokens@.len() ==> #[trigger] tokens@[i].lexeme@.len() + 3 < usize::MAX,
    ensures
        r.program is Some,
        eof_only_last(tokens@) ==> (r.program matches Some(p) && p.span == Some(program_span(tokens@))),
        only_newlines(tokens@) ==> (r.program matches Some(p) && p.module is None && p.imports@.len() == 0
            && p.items@.len() == 0) && r.diagnostics@.len() == 0,
        r.program matches Some(p) ==> forall|k: int| 0 <= k < p.items@.len() ==> item_rules(#[trigger] p.items@[k]),
            r.program matches Some(p) ==> exists|header: int, cuts: Seq<int>, ends: Seq<int>, slots: Seq<int>|
                header_ends_at(tokens@, header) && #[trigger] items::program_layout(tokens@, p.items@, header,
                    cuts, ends, slots, r.diagnostics@.len()),
        items::simple_decls_from(tokens@, 0) matches Some(starts) ==> r.diagnostics@.len() == 0
            && (r.program matches Some(p) && p.module is None && p.imports@.len() == 0
                && p.items@.len() == starts.len() && forall|k: int| 0 <= k < starts.len()
                    ==> items::simple_decl_item(tokens@, #[trigger] starts[k], p.items@[k])),
{
    proof {
        lemma_max_lexeme_len(tokens@);
    }
    let parser = Parser::new(tokens, Ghost(max_lexeme_len(tokens@)));
    parser.parse_program()
}

pub(crate) struct Parser<'a> {
    pub(crate) tokens: &'a [Token],
    pub(crate) index: usize,
    pub(crate) diagnostics: Vec<Diagnostic>,
    pub(crate) allow_trailing_block_call: bool,
    /// An upper bound on the length of every lexeme; parsing an interpolated
    /// string starts a parser with a strictly smaller bound.
    pub(crate) bound: Ghost<nat>,
}

#[derive(Clone, Copy)]
pub(crate) struct Checkpoint {
    pub(crate) index: usize,
    pub(crate) diagnostics_len: usize,
    pub(crate) allow_trailing_block_call: bool,
}

impl<'a> Parser<'a> {
    /// The cursor is on a token of a well-formed stream whose lexemes all fit
    /// within `bound`.
    pub(crate) open spec fn wf(self) -> bool {
        &&& tokens_well_formed(self.tokens@)
        &&& self.index < self.tokens@.len()
        &&& self.bound@ + 3 < usize::MAX
        &&& forall|i: int|
            0 <= i < self.tokens@.len() ==> #[trigger] self.tokens@[i].lexeme@.len() <= self.bound@
    }

    /// How many tokens are left, counting the end-of-file token.
    pub(crate) open spec fn remaining(self) -> nat {
        (self.tokens@.len() - self.index) as nat
    }

    /// `self` is a later state of `before`: same tokens, cursor not moved back.
    pub(crate) open spec fn follows(self, before: Parser<'a>) -> bool {
        &&& self.wf()
        &&& self.tokens == before.tokens
        &&& self.bound == before.bound
        &&& self.index >= before.index
        &&& self.diagnostics@.len() >= before.diagnostics@.len()
    }

    pub(crate) open spec fn kind_at(self, i: int) -> TokenKind {
        self.tokens@[i].kind
    }

    pub(crate) open spec fn cur_kind(self) -> TokenKind {
        self.tokens@[self.index as int].kind
    }

    pub(crate) fn new(tokens: &'a [Token], bound: Ghost<nat>) -> (p: Parser<'a>)
        requires
            tokens_well_formed(tokens@),
            bound@ + 3 < usize::MAX,
            forall|i: int| 0 <= i < tokens@.len() ==> #[trigger] tokens@[i].lexeme@.len() <= bound@,
        ensures
            p.wf(),
            p.tokens == tokens,
            p.index == 0,
            p.bound == bound,
            p.diagnostics@.len() == 0,
            p.allow_trailing_block_call,
    {
        Parser { tokens, index: 0, diagnostics: Vec::new(), allow_trailing_block_call: true, bound }
    }

    fn parse_program(self) -> (r: ParseResult)
        requires
            self.wf(),
            self.index == 0,
            self.diagnostics@.len() == 0,
        ensures
            r.program is Some,
            eof_only_last(self.tokens@) ==> (r.program matches Some(p) && p.span == Some(program_span(self.tokens@))),
            only_newlines(self.tokens@) ==> (r.program matches Some(p) && p.module is None
                && p.imports@.len() == 0 && p.items@.len() == 0) && r.diagnostics@.len() == 0,
            r.program matches Some(p) ==> forall|k: int| 0 <= k < p.items@.len() ==> item_rules(#[trigger] p.items@[k]),
            r.program matches Some(p) ==> exists|header: int, cuts: Seq<int>, ends: Seq<int>, slots: Seq<int>|
                header_ends_at(self.tokens@, header) && #[trigger] items::program_layout(self.tokens@, p.items@, header,
                    cuts, ends, slots, r.diagnostics@.len()),
            items::simple_decls_from(self.tokens@, 0) matches Some(starts) ==> r.diagnostics@.len() == 0
                && (r.program matches Some(p) && p.module is None && p.imports@.len() == 0
                    && p.items@.len() == starts.len() && forall|k: int| 0 <= k < starts.len()
                        ==> items::simple_decl_item(self.tokens@, #[trigger] starts[k], p.items@[k])),
    {
        let mut parser = self;
        parser.parse_all()
    }

    fn parse_all(&mut self) -> (r: ParseResult)
        requires
            old(self).wf(),
            old(self).index == 0,
            old(self).diagnostics@.len() == 0,
        ensures
            r.program is Some,
            eof_only_last(old(self).tokens@) ==> (r.program matches Some(p)
                && p.span == Some(program_span(old(self).tokens@))),
            only_newlines(old(self).tokens@) ==> (r.program matches Some(p) && p.module is None
                && p.imports@.len() == 0 && p.items@.len() == 0) && r.diagnostics@.len() == 0,
            r.program matches Some(p) ==> forall|k: int| 0 <= k < p.items@.len() ==> item_rules(#[trigger] p.items@[k]),
            r.program matches Some(p) ==> exists|header: int, cuts: Seq<int>, ends: Seq<int>, slots: Seq<int>|
                header_ends_at(old(self).tokens@, header) && #[trigger] items::program_layout(old(self).tokens@, p.items@, header,
                    cuts, ends, slots, r.diagnostics@.len()),
            items::simple_decls_from(old(self).tokens@, 0) matches Some(starts) ==> r.diagnostics@.len() == 0
                && (r.program matches Some(p) && p.module is None && p.imports@.len() == 0
                    && p.items@.len() == starts.len() && forall|k: int| 0 <= k < starts.len()
                        ==> items::simple_decl_item(old(self).tokens@, #[trigger] starts[k], p.items@[k])),
    {
        self.skip_newlines();
        let start_span = self.current_span();
        proof {
            assert forall|j: int| 0 <= j < self.index implies self.tokens@[j].kind == TokenKind::Newline by {
                assert(old(self).kind_at(j) == TokenKind::Newline);
            }
            lemma_newline_run(self.tokens@, 0, self.index as int);
        }
        let ghost quiet = only_newlines(old(self).tokens@);
        assert(quiet ==> self.index == self.tokens@.len() - 1);
        let ghost bare = self.tokens@[self.index as int].kind != TokenKind::Keyword(Keyword::Module)
            && self.tokens@[self.index as int].kind != TokenKind::Keyword(Keyword::Import);
        let ghost total = items::simple_decls_from(old(self).tokens@, 0);
        let ghost s0 = self.index as int;
        proof {
            if total is Some {
                assert(s0 == newline_run(old(self).tokens@, 0));
                assert(self.tokens@[s0].kind != TokenKind::Newline);
                assert(newline_run(self.tokens@, s0) == s0);
                assert(items::simple_decls_from(self.tokens@, s0) == total);
                assert(total->Some_0.skip(0) =~= total->Some_0);
            }
        }

        let module = if self.match_keyword(Keyword::Module) {
            self.parse_module_decl()
        } else {
            None
        };

        self.skip_newlines();
        let mut imports = Vec::new();
        while self.match_keyword(Keyword::Import)
            invariant
                self.wf(),
                self.tokens == old(self).tokens,
                start_span == old(self).tokens@[newline_run(old(self).tokens@, 0)].span,
                quiet == only_newlines(old(self).tokens@),
                quiet ==> self.index == self.tokens@.len() - 1 && self.diagnostics@.len() == 0
                    && module is None && imports@.len() == 0,
                s0 == newline_run(old(self).tokens@, 0),
                s0 <= self.index,
                bare == (old(self).tokens@[s0].kind != TokenKind::Keyword(Keyword::Module)
                    && old(self).tokens@[s0].kind != TokenKind::Keyword(Keyword::Import)),
                bare ==> self.index == s0,
                total == items::simple_decls_from(old(self).tokens@, 0),
                total is Some ==> self.index == s0 && self.diagnostics@.len() == 0 && module is None
                    && imports@.len() == 0 && items::simple_decls_from(self.tokens@, s0) == total,
            decreases self.remaining(),
        {
            if let Some(import) = self.parse_import_decl() {
                imports.push(import);
            }
            self.skip_newlines();
        }

        let mut items: Vec<Item> = Vec::new();
        let ghost header: int = self.index as int;
        let ghost mut cuts: Seq<int> = Seq::empty();
        let ghost mut ends: Seq<int> = Seq::empty();
        let ghost mut slots: Seq<int> = Seq::empty();
        assert(items::items_in(slots) == 0);
        while !self.at(TokenKind::Eof)
            invariant
                items::stretches_read(self.tokens@, items@, header, cuts, ends, slots, self.diagnostics@.len()),
                header <= self.index,
                header_ends_at(old(self).tokens@, header),
                items::layout_end(header, ends) <= self.index,
                crate::parser::newline_run(self.tokens@, items::layout_end(header, ends))
                    == crate::parser::newline_run(self.tokens@, self.index as int),
                self.wf(),
                self.tokens == old(self).tokens,
                start_span == old(self).tokens@[newline_run(old(self).tokens@, 0)].span,
                quiet == only_newlines(old(self).tokens@),
                quiet ==> self.index == self.tokens@.len() - 1 && self.diagnostics@.len() == 0
                    && module is None && imports@.len() == 0 && items@.len() == 0,
                forall|k: int| 0 <= k < items@.len() ==> item_rules(#[trigger] items@[k]),
                total == items::simple_decls_from(old(self).tokens@, 0),
                total is Some ==> self.diagnostics@.len() == 0 && module is None
                    && imports@.len() == 0 && items@.len() <= total->Some_0.len()
                    && items::simple_decls_from(self.tokens@, self.index as int) == Some(total->Some_0.skip(items@.len() as int))
                    && forall|k: int| 0 <= k < items@.len() ==> items::simple_decl_item(self.tokens@,
                        #[trigger] total->Some_0[k], items@[k]),
            ensures
                self.wf(),
                self.tokens == old(self).tokens,
                self.cur_kind() == TokenKind::Eof,
                items::stretches_read(self.tokens@, items@, header, cuts, ends, slots, self.diagnostics@.len()),
                header <= self.index,
                header_ends_at(old(self).tokens@, header),
                items::layout_end(header, ends) <= self.index,
                crate::parser::newline_run(self.tokens@, items::layout_end(header, ends))
                    == crate::parser::newline_run(self.tokens@, self.index as int),
                quiet ==> self.index == self.tokens@.len() - 1 && self.diagnostics@.len() == 0
                    && module is None && imports@.len() == 0 && items@.len() == 0,
                forall|k: int| 0 <= k < items@.len() ==> item_rules(#[trigger] items@[k]),
                total is Some ==> self.diagnostics@.len() == 0 && module is None
                    && imports@.len() == 0 && items@.len() == total->Some_0.len()
                    && forall|k: int| 0 <= k < items@.len() ==> items::simple_decl_item(self.tokens@,
                        #[trigger] total->Some_0[k], items@[k]),
            decreases self.remaining(),
        {
            let ghost loop_start = self.index as int;
            self.skip_newlines();
            proof {
                if total is Some {
                    crate::parser::lemma_newline_run_bounded(self.tokens@, loop_start);
                    crate::parser::lemma_newline_run_from_inside(self.tokens@, loop_start, self.index as int);
                }
            }
            if self.at(TokenKind::Eof) {
                break;
            }
            let before = self.index;
            let ghost diags_before: nat = self.diagnostics@.len();
            let ghost toks = self.tokens@;
            let ghost left = items::simple_decls_from(toks, loop_start);
            proof {
                if total is Some {
                    assert(self.index as int == crate::parser::newline_run(toks, loop_start));
                    assert(items::simple_decl_end(toks, before as int) > before);
                    assert(items::simple_decls_from(toks, items::simple_decl_end(toks, before as int)) is Some);
                    assert(left->Some_0 == seq![before as int]
                        + items::simple_decls_from(toks, items::simple_decl_end(toks, before as int))->Some_0);
                }
            }
            proof {
                crate::parser::lemma_newline_run_bounded(toks, loop_start);
                crate::parser::lemma_newline_run_from_inside(toks, loop_start, before as int);
                assert(before as int == crate::parser::newline_run(toks, items::layout_end(header, ends)));
            }
            let ghost items_before = items@;
            let ghost mut slot: int = -2;
            let ghost mut pushed: Item = arbitrary();
            if let Some(item) = self.parse_item() {
                proof {
                    slot = items_before.len() as int;
                    pushed = item;
                }
                items.push(item);
                assert(items@ == items_before.push(pushed));
            } else {
                proof {
                    if self.diagnostics@.len() == diags_before {
                        slot = -1;
                    }
                }
                self.synchronize_item();
                if self.index == before && !self.at(TokenKind::Eof) {
                    self.advance();
                }
            }
            let ghost after_item = self.index as int;
            proof {
                let reported = self.diagnostics@.len();
                items::lemma_stretches_reported(toks, items_before, header, cuts, ends, slots, diags_before, reported);
                items::lemma_stretches_push(toks, items_before, header, cuts, ends, slots, reported,
                    before as int, after_item, slot, pushed);
                cuts = cuts.push(before as int);
                ends = ends.push(after_item);
                slots = slots.push(slot);
            }
            self.skip_newlines();
            proof {
                crate::parser::lemma_newline_run_bounded(self.tokens@, after_item);
                crate::parser::lemma_newline_run_from_inside(self.tokens@, after_item, self.index as int);
                if total is Some {
                    let e = items::simple_decl_end(toks, before as int);
                    assert(crate::parser::newline_run(toks, self.index as int) == self.index);
                    assert(self.index == crate::parser::newline_run(toks, e));
                    assert(items::simple_decls_from(toks, self.index as int) == items::simple_decls_from(toks, e));
                    let all = total->Some_0;
                    assert(all.skip(items@.len() - 1) == seq![before as int] + items::simple_decls_from(toks, e)->Some_0);
                    assert((seq![before as int] + items::simple_decls_from(toks, e)->Some_0)[0] == before);
                    assert(all.skip(items@.len() - 1)[0] == before);
                    assert(all[items@.len() - 1] == before);
                    assert(all.skip(items@.len() as int) =~= all.skip(items@.len() - 1).skip(1));
                    assert(seq![before as int].add(items::simple_decls_from(toks, e)->Some_0).skip(1)
                        =~= items::simple_decls_from(toks, e)->Some_0);
                }
            }
        }

        let end_span = if self.index > 0 {
            self.tokens[self.index - 1].span
        } else {
            start_span
        };

        let program = Program {
            module,
            imports,
            items,
            span: Some(start_span.cover(end_span)),
        };

        let mut diagnostics = Vec::new();
        std::mem::swap(&mut diagnostics, &mut self.diagnostics);
        proof {
            assert(crate::parser::newline_run(self.tokens@, self.index as int) == self.index);
            assert(items::program_layout(old(self).tokens@, program.items@, header, cuts, ends, slots,
                diagnostics@.len()));
        }
        let ghost layout_items = program.items@;
        let r = ParseResult { program: Some(program), diagnostics };
        proof {
            assert(r.program->Some_0.items@ == layout_items);
            assert(header_ends_at(old(self).tokens@, header));
            assert(items::program_layout(old(self).tokens@, r.program->Some_0.items@, header, cuts, ends, slots,
                r.diagnostics@.len()));
        }
        r
    }

    pub(crate) fn synchronize_item(&mut self)
        requires
            old(self).wf(),
        ensures
            final(self).follows(*old(self)),
            final(self).index == item_sync_point(old(self).tokens@, old(self).index as int),
            final(self).diagnostics == old(self).diagnostics,
    {
        while !self.at(TokenKind::Eof)
            invariant
                self.follows(*old(self)),
                item_sync_point(self.tokens@, self.index as int) == item_sync_point(old(self).tokens@, old(self).index as int),
                self.diagnostics == old(self).diagnostics,
            decreases self.remaining(),
        {
            if self.at(TokenKind::Newline) {
                self.advance();
                return;
            }
            match self.current_kind() {
                TokenKind::Keyword(Keyword::Def)
                | TokenKind::Keyword(Keyword::Class)
                | TokenKind::Keyword(Keyword::Record)
                | TokenKind::Keyword(Keyword::Object)
                | TokenKind::Keyword(Keyword::Interface)
                | TokenKind::Keyword(Keyword::Enum)
                | TokenKind::Keyword(Keyword::Impl) => return,
                _ => self.advance(),
            }
        }
    }

    pub(crate) fn synchronize_member(&mut self)
        requires
            old(self).wf(),
        ensures
            final(self).follows(*old(self)),
            old(self).cur_kind() != TokenKind::Eof && old(self).cur_kind() != TokenKind::RBrace
                ==> final(self).index > old(self).index,
    {
        while !self.at(TokenKind::Eof) && !self.at(TokenKind::RBrace)
            invariant
                self.follows(*old(self)),
                old(self).cur_kind() != TokenKind::Eof && old(self).cur_kind() != TokenKind::RBrace
                    && self.index == old(self).index ==> self.cur_kind() == old(self).cur_kind(),
            decreases self.remaining(),
        {
            if self.at(TokenKind::Newline) {
                self.advance();
                return;
            }
            self.advance();
        }
    }

    pub(crate) fn synchronize_stmt(&mut self)
        requires
            old(self).wf(),
        ensures
            final(self).follows(*old(self)),
            old(self).cur_kind() != TokenKind::Eof && old(self).cur_kind() != TokenKind::RBrace
                ==> final(self).index > old(self).index,
    {
        while !self.at(TokenKind::Eof) && !self.at(TokenKind::RBrace)
            invariant
                self.follows(*old(self)),
                old(self).cur_kind() != TokenKind::Eof && old(self).cur_kind() != TokenKind::RBrace
                    && self.index == old(self).index ==> self.cur_kind() == old(self).cur_kind(),
            decreases self.remaining(),
        {
            if self.at(TokenKind::Newline) {
                self.advance();
                return;
            }
            self.advance();
        }
    }

    pub(crate) fn checkpoint(&self) -> (c: Checkpoint)
        ensures
            c.index == self.index,
            c.diagnostics_len == self.diagnostics@.len(),
            c.allow_trailing_block_call == self.allow_trailing_block_call,
    {
        Checkpoint {
            index: self.index,
            diagnostics_len: self.diagnostics.len(),
            allow_trailing_block_call: self.allow_trailing_block_call,
        }
    }

    /// Rewinds to a checkpoint, dropping the diagnostics reported since.
    pub(crate) fn restore(&mut self, checkpoint: Checkpoint)
        requires
            old(self).wf(),
            checkpoint.index < old(self).tokens@.len(),
        ensures
            final(self).wf(),
            final(self).tokens == old(self).tokens,
            final(self).bound == old(self).bound,
            final(self).index == checkpoint.index,
            final(self).allow_trailing_block_call == checkpoint.allow_trailing_block_call,
            checkpoint.diagnostics_len <= old(self).diagnostics@.len() ==> final(self).diagnostics@
                == old(self).diagnostics@.subrange(0, checkpoint.diagnostics_len as int),
            checkpoint.diagnostics_len > old(self).diagnostics@.len() ==> final(self).diagnostics@
                == old(self).diagnostics@,
    {
        self.index = checkpoint.index;
        self.diagnostics.truncate(checkpoint.diagnostics_len);
        self.allow_trailing_block_call = checkpoint.allow_trailing_block_call;
    }

    pub(crate) fn skip_newlines(&mut self)
        requires
            old(self).wf(),
        ensures
            final(self).follows(*old(self)),
            final(self).cur_kind() != TokenKind::Newline,
            forall|j: int| old(self).index <= j < final(self).index ==> old(self).kind_at(j) == TokenKind::Newline,
            final(self).allow_trailing_block_call == old(self).allow_trailing_block_call,
            final(self).diagnostics == old(self).diagnostics,
            final(self).index == newline_run(old(self).tokens@, old(self).index as int),
    {
        while self.match_token(TokenKind::Newline)
            invariant
                self.follows(*old(self)),
                forall|j: int| old(self).index <= j < self.index ==> old(self).kind_at(j) == TokenKind::Newline,
                self.allow_trailing_block_call == old(self).allow_trailing_block_call,
                self.diagnostics == old(self).diagnostics,
            decreases self.remaining(),
        {
        }
        proof {
            assert forall|j: int| old(self).index <= j < self.index implies self.tokens@[j].kind == TokenKind::Newline by {
                assert(old(self).kind_at(j) == TokenKind::Newline);
            }
            lemma_newline_run(self.tokens@, old(self).index as int, self.index as int);
        }
    }

    /// Consumes a token of `kind`, or reports `message` and gives up.
    pub(crate) fn consume(&mut self, kind: TokenKind, message: &str) -> (r: Option<Span>)
        requires
            old(self).wf(),
            kind != TokenKind::Eof,
        ensures
            r is None ==> final(self).diagnostics@.len() > old(self).diagnostics@.len(),
            final(self).follows(*old(self)),
            final(self).allow_trailing_block_call == old(self).allow_trailing_block_call,
            r is Some <==> old(self).cur_kind() == kind,
            r is Some ==> final(self).index == old(self).index + 1,
            r is Some ==> r == Some(old(self).tokens@[old(self).index as int].span),
            r is None ==> final(self).index == old(self).index,
            r is Some ==> final(self).diagnostics == old(self).diagnostics,
    {
        if self.match_token(kind) {
            Some(self.previous_span())
        } else {
            self.error_at_current("unexpected_token", message);
            None
        }
    }

    /// Consumes the keyword `keyword`, or reports `message` and gives up.
    pub(crate) fn consume_keyword(&mut self, keyword: Keyword, message: &str) -> (r: Option<Span>)
        requires
            old(self).wf(),
        ensures
            r is None ==> final(self).diagnostics@.len() > old(self).diagnostics@.len(),
            final(self).follows(*old(self)),
            final(self).allow_trailing_block_call == old(self).allow_trailing_block_call,
            r is Some <==> old(self).cur_kind() == TokenKind::Keyword(keyword),
            r is Some ==> final(self).index == old(self).index + 1,
            r is Some ==> r == Some(old(self).tokens@[old(self).index as int].span),
            r is None ==> final(self).index == old(self).index,
            r is Some ==> final(self).diagnostics == old(self).diagnostics,
    {
        if self.match_keyword(keyword) {
            Some(self.previous_span())
        } else {
            self.error_at_current("unexpected_token", message);
            None
        }
    }

    /// Takes an identifier's text and span, or reports `message`.
    pub(crate) fn expect_identifier(&mut self, message: &str) -> (r: Option<(String, Span)>)
        requires
            old(self).wf(),
        ensures
            r is None ==> final(self).diagnostics@.len() > old(self).diagnostics@.len(),
            final(self).follows(*old(self)),
            final(self).allow_trailing_block_call == old(self).allow_trailing_block_call,
            r is Some <==> old(self).cur_kind() == TokenKind::Identifier,
            r is Some ==> final(self).index == old(self).index + 1,
            r matches Some((name, span)) ==> name@ == old(self).tokens@[old(self).index as int].lexeme@
                && span == old(self).tokens@[old(self).index as int].span,
            r is None ==> final(self).index == old(self).index,
            r is Some ==> final(self).diagnostics == old(self).diagnostics,
    {
        if self.at(TokenKind::Identifier) {
            let token = self.current_token();
            self.advance();
            Some((token.lexeme, token.span))
        } else {
            self.error_at_current("expected_identifier", message);
            None
        }
    }

    pub(crate) fn expect_binding_name(&mut self, message: &str) -> (r: Option<(String, Span)>)
        requires
            old(self).wf(),
        ensures
            r is None ==> final(self).diagnostics@.len() > old(self).diagnostics@.len(),
            final(self).follows(*old(self)),
            final(self).allow_trailing_block_call == old(self).allow_trailing_block_call,
            r is Some <==> old(self).cur_kind() == TokenKind::Identifier,
            r is Some ==> final(self).index == old(self).index + 1,
            r matches Some((name, span)) ==> name@ == old(self).tokens@[old(self).index as int].lexeme@,
            r is Some ==> final(self).diagnostics == old(self).diagnostics,
    {
        self.expect_identifier(message)
    }

    /// A function or method name: an identifier, `[]`, or an operator symbol.
    pub(crate) fn parse_callable_name(&mut self, message: &str) -> (r: Option<(String, Span)>)
        requires
            old(self).wf(),
        ensures
            r is None ==> final(self).diagnostics@.len() > old(self).diagnostics@.len(),
            final(self).follows(*old(self)),
            final(self).allow_trailing_block_call == old(self).allow_trailing_block_call,
            r is Some ==> final(self).index > old(self).index,
            old(self).cur_kind() == TokenKind::Identifier ==> (r matches Some((name, span))
                && name@ == old(self).tokens@[old(self).index as int].lexeme@
                && span == old(self).tokens@[old(self).index as int].span && final(self).index == old(self).index + 1),
            old(self).cur_kind() == TokenKind::Identifier ==> final(self).diagnostics == old(self).diagnostics,
    {
        if self.at(TokenKind::Identifier) {
            return self.expect_identifier(message);
        }
        if self.match_token(TokenKind::LBracket) {
            let start = self.previous_span();
            let end = self.consume(TokenKind::RBracket, "expected ']' in operator name")?;
            return Some((String::from_str("[]"), start.cover(end)));
        }
        let token = self.current_token();
        let name = match token.kind {
            TokenKind::Plus => "+",
            TokenKind::Minus => "-",
            TokenKind::Star => "*",
            TokenKind::Slash => "/",
            TokenKind::Percent => "%",
            TokenKind::PlusPlus => "++",
            TokenKind::MinusMinus => "--",
            TokenKind::ColonPlus => ":+",
            TokenKind::ColonMinus => ":-",
            _ => {
                self.error_at_current("expected_identifier", message);
                return None;
            },
        };
        self.advance();
        Some((String::from_str(name), token.span))
    }

    pub(crate) fn match_keyword(&mut self, keyword: Keyword) -> (b: bool)
        requires
            old(self).wf(),
        ensures
            final(self).follows(*old(self)),
            final(self).allow_trailing_block_call == old(self).allow_trailing_block_call,
            final(self).diagnostics == old(self).diagnostics,
            b <==> old(self).cur_kind() == TokenKind::Keyword(keyword),
            b ==> final(self).index == old(self).index + 1,
            !b ==> final(self).index == old(self).index,
    {
        if self.at_keyword(keyword) {
            self.advance();
            true
        } else {
            false
        }
    }

    pub(crate) fn at_keyword(&self, keyword: Keyword) -> (b: bool)
        requires
            self.wf(),
        ensures
            b <==> self.cur_kind() == TokenKind::Keyword(keyword),
    {
        match self.current_kind() {
            TokenKind::Keyword(k) => k == keyword,
            _ => false,
        }
    }

    pub(crate) fn match_token(&mut self, kind: TokenKind) -> (b: bool)
        requires
            old(self).wf(),
        ensures
            final(self).follows(*old(self)),
            final(self).allow_trailing_block_call == old(self).allow_trailing_block_call,
            final(self).diagnostics == old(self).diagnostics,
            b <==> old(self).cur_kind() == kind,
            b && kind != TokenKind::Eof ==> final(self).index == old(self).index + 1,
            !b || kind == TokenKind::Eof ==> final(self).index == old(self).index,
    {
        if self.at(kind) {
            self.advance();
            true
        } else {
            false
        }
    }

    pub(crate) fn at(&self, kind: TokenKind) -> (b: bool)
        requires
            self.wf(),
        ensures
            b <==> self.cur_kind() == kind,
    {
        self.current_kind() == kind
    }

    pub(crate) fn at_next(&self, kind: TokenKind) -> (b: bool)
        requires
            self.wf(),
        ensures
            b <==> (self.index + 1 < self.tokens@.len() && self.kind_at(self.index + 1) == kind),
    {
        if self.index + 1 < self.tokens.len() {
            self.tokens[self.index + 1].kind == kind
        } else {
            false
        }
    }

    pub(crate) fn binding_type_starts_on_same_line(&self, name_span: Span) -> (b: bool)
        requires
            self.wf(),
        ensures
            b == (self.tokens@[self.index as int].span.start_pos.line == name_span.end_pos.line),
    {
        self.current_span().start_pos.line == name_span.end_pos.line
    }

    pub(crate) fn is_placeholder_identifier(&self) -> (b: bool)
        requires
            self.wf(),
        ensures
            b == (self.cur_kind() == TokenKind::Identifier
                && self.tokens@[self.index as int].lexeme@ == "_"@),
    {
        self.at(TokenKind::Identifier) && string_is(&self.current().lexeme, "_")
    }

    pub(crate) fn current(&self) -> (t: &Token)
        requires
            self.wf(),
        ensures
            *t == self.tokens@[self.index as int],
    {
        let last = self.tokens.len() - 1;
        let i = if self.index < last { self.index } else { last };
        &self.tokens[i]
    }

    /// A copy of the current token.
    pub(crate) fn current_token(&self) -> (t: Token)
        requires
            self.wf(),
        ensures
            t.kind == self.cur_kind(),
            t.lexeme@ == self.tokens@[self.index as int].lexeme@,
            t.span == self.tokens@[self.index as int].span,
    {
        let token = self.current();
        Token { kind: token.kind, lexeme: token.lexeme.clone(), span: token.span }
    }

    pub(crate) fn current_kind(&self) -> (k: TokenKind)
        requires
            self.wf(),
        ensures
            k == self.cur_kind(),
    {
        self.current().kind
    }

    pub(crate) fn current_span(&self) -> (s: Span)
        requires
            self.wf(),
        ensures
            s == self.tokens@[self.index as int].span,
    {
        self.current().span
    }

    /// The span of the token before the cursor (the current one at the start).
    pub(crate) fn previous_span(&self) -> (s: Span)
        requires
            self.wf(),
        ensures
            self.index > 0 ==> s == self.tokens@[self.index - 1].span,
            self.index == 0 ==> s == self.tokens@[0].span,
    {
        if self.index > 0 {
            self.tokens[self.index - 1].span
        } else {
            self.current_span()
        }
    }

    /// The span of the last token before the cursor that is not a newline.
    pub(crate) fn last_non_newline_span(&self, fallback: Span) -> (s: Span)
        requires
            self.wf(),
        ensures
            (forall|i: int| 0 <= i < self.index ==> self.kind_at(i) == TokenKind::Newline)
                ==> s == fallback,
            s == (if last_non_newline(self.tokens@, self.index as int) >= 0 {
                self.tokens@[last_non_newline(self.tokens@, self.index as int)].span
            } else {
                fallback
            }),
    {
        let mut i = self.index;
        while i > 0
            invariant
                self.wf(),
                i <= self.index,
                forall|j: int| i <= j < self.index ==> self.kind_at(j) == TokenKind::Newline,
                last_non_newline(self.tokens@, i as int) == last_non_newline(self.tokens@, self.index as int),
            decreases i,
        {
            let token = &self.tokens[i - 1];
            if token.kind != TokenKind::Newline {
                assert(self.kind_at(i - 1) != TokenKind::Newline);
                return token.span;
            }
            i = i - 1;
        }
        fallback
    }

    /// The first token from the cursor on that is not a newline.
    pub(crate) fn next_significant_token(&self) -> (t: &Token)
        requires
            self.wf(),
        ensures
            (exists|j: int| self.index <= j < self.tokens@.len() && *t == self.tokens@[j]
                && t.kind != TokenKind::Newline
                && forall|k: int| self.index <= k < j ==> #[trigger] self.kind_at(k) == TokenKind::Newline)
            || ((forall|k: int| self.index <= k < self.tokens@.len() ==> #[trigger] self.kind_at(k) == TokenKind::Newline)
                && *t == self.tokens@[self.index as int]),
            *t == self.tokens@[newline_run(self.tokens@, self.index as int)],
    {
        let mut index = self.index;
        while index < self.tokens.len()
            invariant
                self.wf(),
                self.index <= index,
                forall|k: int| self.index <= k < index ==> #[trigger] self.kind_at(k) == TokenKind::Newline,
            decreases self.tokens@.len() - index,
        {
            let token = &self.tokens[index];
            if token.kind != TokenKind::Newline {
                proof {
                    assert forall|j: int| self.index <= j < index implies self.tokens@[j].kind == TokenKind::Newline by {
                        assert(self.kind_at(j) == TokenKind::Newline);
                    }
                    lemma_newline_run(self.tokens@, self.index as int, index as int);
                }
                return token;
            }
            index = index + 1;
        }
        proof {
            assert(self.kind_at(self.tokens@.len() - 1) == TokenKind::Newline);
        }
        self.current()
    }

    pub(crate) fn next_significant_token_string(&self) -> (s: String)
        requires
            self.wf(),
        ensures
            s@ == token_like(self.tokens@[newline_run(self.tokens@, self.index as int)]),
    {
        self.format_token_like(self.next_significant_token())
    }

    /// `LABEL("lexeme" @ line:column)`.
    pub(crate) fn format_token_like(&self, token: &Token) -> (s: String)
        ensures
            s@ == token_like(*token),
    {
        let mut s = String::from_str(self.token_kind_label(token.kind));
        s = concat_str(s, "(\"");
        s = concat_strings(s, &token.lexeme);
        s = concat_str(s, "\" @ ");
        s = concat_strings(s, &usize_to_string(token.span.start_pos.line));
        s = concat_str(s, ":");
        s = concat_strings(s, &usize_to_string(token.span.start_pos.column));
        concat_str(s, ")")
    }

    pub(crate) fn token_kind_label(&self, kind: TokenKind) -> (s: &'static str)
        ensures
            s@ == kind_label(kind),
    {
        match kind {
            TokenKind::Identifier => "IDENT",
            TokenKind::Integer => "INT",
            TokenKind::Float => "FLOAT",
            TokenKind::String => "STRING",
            TokenKind::Keyword(Keyword::Case) => "CASE",
            TokenKind::Keyword(Keyword::If) => "IF",
            TokenKind::Keyword(Keyword::Then) => "THEN",
            TokenKind::Keyword(Keyword::Else) => "ELSE",
            TokenKind::Keyword(Keyword::Match) => "MATCH",
            TokenKind::Keyword(Keyword::Partial) => "PARTIAL",
            TokenKind::Keyword(Keyword::For) => "FOR",
            TokenKind::Keyword(Keyword::Yield) => "YIELD",
            TokenKind::Keyword(Keyword::Unwrap) => "UNWRAP",
            TokenKind::Keyword(Keyword::Def) => "DEF",
            TokenKind::Keyword(Keyword::Class) => "CLASS",
            TokenKind::Keyword(Keyword::Record) => "RECORD",
            TokenKind::Keyword(Keyword::Object) => "OBJECT",
            TokenKind::Keyword(Keyword::Interface) => "INTERFACE",
            TokenKind::Keyword(Keyword::Enum) => "ENUM",
            TokenKind::Keyword(Keyword::Public) => "PUB",
            TokenKind::Keyword(Keyword::Hidden) => "PRIVATE",
            TokenKind::Keyword(Keyword::Var) => "VAR",
            TokenKind::LBrace => "{",
            TokenKind::RBrace => "}",
            TokenKind::LParen => "(",
            TokenKind::RParen => ")",
            TokenKind::LBracket => "[",
            TokenKind::RBracket => "]",
            TokenKind::Eq => "=",
            TokenKind::FatArrow => "=>",
            TokenKind::LeftArrow => "<-",
            TokenKind::Newline => "NEWLINE",
            TokenKind::Eof => "EOF",
            _ => "TOKEN",
        }
    }

    /// Moves to the next token; the end-of-file token is never passed.
    pub(crate) fn advance(&mut self)
        requires
            old(self).wf(),
        ensures
            final(self).follows(*old(self)),
            final(self).allow_trailing_block_call == old(self).allow_trailing_block_call,
            final(self).diagnostics == old(self).diagnostics,
            old(self).cur_kind() != TokenKind::Eof ==> final(self).index == old(self).index + 1,
            old(self).cur_kind() == TokenKind::Eof ==> final(self).index == old(self).index,
    {
        if !self.at(TokenKind::Eof) {
            self.index = self.index + 1;
        }
    }

    pub(crate) fn error_at_current(&mut self, code: &str, message: &str)
        requires
            old(self).wf(),
        ensures
            final(self).tokens == old(self).tokens,
            final(self).bound == old(self).bound,
            final(self).index == old(self).index,
            final(self).allow_trailing_block_call == old(self).allow_trailing_block_call,
            final(self).diagnostics@.len() == old(self).diagnostics@.len() + 1,
    {
        self.error_at_current_owned(code, String::from_str(message));
    }

    pub(crate) fn error_at_current_owned(&mut self, code: &str, message: String)
        requires
            old(self).wf(),
        ensures
            final(self).tokens == old(self).tokens,
            final(self).bound == old(self).bound,
            final(self).index == old(self).index,
            final(self).allow_trailing_block_call == old(self).allow_trailing_block_call,
            final(self).diagnostics@.len() == old(self).diagnostics@.len() + 1,
            final(self).diagnostics@.last().span == old(self).tokens@[old(self).index as int].span,
            final(self).diagnostics@.last().code@ == code@,
    {
        let span = self.current_span();
        self.diagnostics.push(Diagnostic::error(code, message, span));
    }
}

} // verus!
