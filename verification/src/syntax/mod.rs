//! Recursive-descent parser for the complete Lume grammar described in the
//! language reference: shapes and singles, `new { ... }` constructors,
//! refutable `let`/`expect` clauses, `defer`, lifted access (`.->`), shape
//! updates (`:<`) and raw strings.
use vstd::prelude::*;
use crate::diagnostic::Diagnostic;
use crate::lexer::{Keyword, Token, TokenKind};
use crate::parser::{
    eof_only_last, lemma_max_lexeme_len, lemma_newline_run, max_lexeme_len, newline_run,
    only_newlines, program_span,
};
use tree::{Item, Program};
use items::{item_in_order, item_rules};

mod expr;
pub mod items;
mod operators;
mod pattern;
mod stmt;
pub mod strings;
mod support;
mod types;
pub mod tree;

verus! {

/// What the parser hands back: a program (always present) and the problems
/// found on the way.
pub struct ParseResult {
    pub program: Option<Program>,
    pub diagnostics: Vec<Diagnostic>,
}

/// Some token of the stream is the keyword `if`: only the condition of an
/// `if` can fail without a diagnostic of its own.
pub open spec fn holds_if(tokens: Seq<Token>) -> bool {
    exists|j: int| 0 <= j < tokens.len() && (#[trigger] tokens[j]).kind == TokenKind::Keyword(Keyword::If)
}

/// Where the header (`module`, then `use` lines) ends: after the
/// newlines that open the input, and right there when the input does not
/// open with `module` or `use`.
pub open spec fn header_ends_at(tokens: Seq<Token>, header: int) -> bool {
    let first = crate::parser::newline_run(tokens, 0);
    &&& first <= header < tokens.len()
    &&& tokens[first].kind != TokenKind::Keyword(Keyword::Module)
        && tokens[first].kind != TokenKind::Keyword(Keyword::Use) ==> header == first
}

/// A token stream the parser can walk: non-empty and closed by an
/// end-of-file token.
pub open spec fn tokens_well_formed(tokens: Seq<Token>) -> bool {
    &&& 0 < tokens.len() <= usize::MAX
    &&& tokens[tokens.len() - 1].kind == TokenKind::Eof
}

/// Parses a whole token stream of the complete grammar. The result always
/// holds a program; syntax errors are reported in `diagnostics` and the parser
/// resynchronises at the next item.
pub fn parse_program(tokens: &[Token]) -> (r: ParseResult)
    requires
        tokens_well_formed(tokens@),
        forall|i: int| 0 <= i < tokens@.len() ==> #[trigger] tokens@[i].lexeme@.len() + 3 < usize::MAX,
    ensures
        r.program is Some,
        eof_only_last(tokens@) ==> (r.program matches Some(p) && p.span == Some(program_span(tokens@))),
        only_newlines(tokens@) ==> (r.program matches Some(p) && p.module is None && p.imports@.len() == 0
            && p.items@.len() == 0) && r.diagnostics@.len() == 0,
        r.program matches Some(p) ==> forall|k: int| 0 <= k < p.items@.len() ==> item_rules(#[trigger] p.items@[k]),
        r.diagnostics@.len() == 0 ==> (r.program matches Some(p) ==> forall|k: int|
            0 <= k < p.items@.len() ==> item_in_order(#[trigger] p.items@[k])),
            r.program matches Some(p) ==> exists|header: int, cuts: Seq<int>, ends: Seq<int>, slots: Seq<int>|
                header_ends_at(tokens@, header) && #[trigger] items::program_layout(tokens@, p.items@, header,
                    cuts, ends, slots, r.diagnostics@.len()),
        items::simple_decls_from(tokens@, 0) matches Some(starts) ==> r.diagnostics@.len() == 0
            && (r.program matches Some(p) && p.module is None && p.imports@.len() == 0
                && p.items@.len() == starts.len() && forall|k: int| 0 <= k < starts.len()
                    ==> items::simple_decl_item(tokens@, #[trigger] starts[k], p.items@[k])),
{
    proof {
        lemma_max_lexeme_len(tokens@);
    }
    let parser = Parser::new(tokens, Ghost(max_lexeme_len(tokens@)));
    parser.parse_program()
}

pub(crate) struct Parser<'a> {
    pub(crate) tokens: &'a [Token],
    pub(crate) index: usize,
    pub(crate) diagnostics: Vec<Diagnostic>,
    pub(crate) allow_trailing_block_call: bool,
    pub(crate) allow_shape_update_operator: bool,
    /// An upper bound on the length of every lexeme; parsing an interpolated
    /// string starts a parser with a strictly smaller bound.
    pub(crate) bound: Ghost<nat>,
    /// How many times parsing failed without a diagnostic of its own: an
    /// `if` condition whose separate parse failed, whose diagnostics are
    /// dropped with it.
    pub(crate) silent_failures: Ghost<nat>,
}

#[derive(Clone, Copy)]
pub(crate) struct Checkpoint {
    pub(crate) index: usize,
    pub(crate) diagnostics_len: usize,
    pub(crate) allow_trailing_block_call: bool,
    pub(crate) allow_shape_update_operator: bool,
}

impl<'a> Parser<'a> {
    /// The cursor is on a token of a well-formed stream whose lexemes all fit
    /// within `bound`.
    pub(crate) open spec fn wf(self) -> bool {
        &&& tokens_well_formed(self.tokens@)
        &&& self.index < self.tokens@.len()
        &&& self.bound@ + 3 < usize::MAX
        &&& forall|i: int|
            0 <= i < self.tokens@.len() ==> #[trigger] self.tokens@[i].lexeme@.len() <= self.bound@
    }

    /// How many tokens are left, counting the end-of-file token.
    pub(crate) open spec fn remaining(self) -> nat {
        (self.tokens@.len() - self.index) as nat
    }

    /// `self` is a later state of `before`: same tokens, cursor not moved back.
    pub(crate) open spec fn follows(self, before: Parser<'a>) -> bool {
        &&& self.wf()
        &&& self.tokens == before.tokens
        &&& self.bound == before.bound
        &&& self.index >= before.index
        &&& self.diagnostics@.len() >= before.diagnostics@.len()
        &&& forall|i: int|
            #![trigger self.diagnostics@[i]]
            #![trigger before.diagnostics@[i]]
            0 <= i < before.diagnostics@.len() ==> self.diagnostics@[i] == before.diagnostics@[i]
        &&& self.silent_failures@ >= before.silent_failures@
        &&& self.silent_failures@ > before.silent_failures@ ==> holds_if(self.tokens@)
    }

    pub(crate) open spec fn kind_at(self, i: int) -> TokenKind {
        self.tokens@[i].kind
    }

    pub(crate) open spec fn cur_kind(self) -> TokenKind {
        self.tokens@[self.index as int].kind
    }

    pub(crate) fn new(tokens: &'a [Token], bound: Ghost<nat>) -> (p: Parser<'a>)
        requires
            tokens_well_formed(tokens@),
            bound@ + 3 < usize::MAX,
            forall|i: int| 0 <= i < tokens@.len() ==> #[trigger] tokens@[i].lexeme@.len() <= bound@,
        ensures
            p.wf(),
            p.tokens == tokens,
            p.index == 0,
            p.bound == bound,
            p.diagnostics@.len() == 0,
    {
        Parser {
            tokens,
            index: 0,
            diagnostics: Vec::new(),
            allow_trailing_block_call: true,
            allow_shape_update_operator: true,
            bound,
            silent_failures: Ghost(0),
        }
    }

    fn parse_program(self) -> (r: ParseResult)
        requires
            self.wf(),
            self.index == 0,
            self.diagnostics@.len() == 0,
        ensures
            r.program is Some,
            eof_only_last(self.tokens@) ==> (r.program matches Some(p) && p.span == Some(program_span(self.tokens@))),
            only_newlines(self.tokens@) ==> (r.program matches Some(p) && p.module is None
                && p.imports@.len() == 0 && p.items@.len() == 0) && r.diagnostics@.len() == 0,
            r.program matches Some(p) ==> forall|k: int| 0 <= k < p.items@.len() ==> item_rules(#[trigger] p.items@[k]),
            r.diagnostics@.len() == 0 ==> (r.program matches Some(p) ==> forall|k: int|
                0 <= k < p.items@.len() ==> item_in_order(#[trigger] p.items@[k])),
            r.program matches Some(p) ==> exists|header: int, cuts: Seq<int>, ends: Seq<int>, slots: Seq<int>|
                header_ends_at(self.tokens@, header) && #[trigger] items::program_layout(self.tokens@, p.items@, header,
                    cuts, ends, slots, r.diagnostics@.len()),
            items::simple_decls_from(self.tokens@, 0) matches Some(starts) ==> r.diagnostics@.len() == 0
                && (r.program matches Some(p) && p.module is None && p.imports@.len() == 0
                    && p.items@.len() == starts.len() && forall|k: int| 0 <= k < starts.len()
                        ==> items::simple_decl_item(self.tokens@, #[trigger] starts[k], p.items@[k])),
    {
        let mut parser = self;
        parser.parse_all()
    }

    /// An optional `module` header, `use` declarations, then items up to the
    /// end of input; an item that fails to parse is skipped to the next line
    /// or declaration keyword.
    fn parse_all(&mut self) -> (r: ParseResult)
        requires
            old(self).wf(),
            old(self).index == 0,
            old(self).diagnostics@.len() == 0,
        ensures
            r.program is Some,
            eof_only_last(old(self).tokens@) ==> (r.program matches Some(p)
                && p.span == Some(program_span(old(self).tokens@))),
            only_newlines(old(self).tokens@) ==> (r.program matches Some(p) && p.module is None
                && p.imports@.len() == 0 && p.items@.len() == 0) && r.diagnostics@.len() == 0,
            r.program matches Some(p) ==> forall|k: int| 0 <= k < p.items@.len() ==> item_rules(#[trigger] p.items@[k]),
            r.diagnostics@.len() == 0 ==> (r.program matches Some(p) ==> forall|k: int|
                0 <= k < p.items@.len() ==> item_in_order(#[trigger] p.items@[k])),
            r.program matches Some(p) ==> exists|header: int, cuts: Seq<int>, ends: Seq<int>, slots: Seq<int>|
                header_ends_at(old(self).tokens@, header) && #[trigger] items::program_layout(old(self).tokens@, p.items@, header,
                    cuts, ends, slots, r.diagnostics@.len()),
            items::simple_decls_from(old(self).tokens@, 0) matches Some(starts) ==> r.diagnostics@.len() == 0
                && (r.program matches Some(p) && p.module is None && p.imports@.len() == 0
                    && p.items@.len() == starts.len() && forall|k: int| 0 <= k < starts.len()
                        ==> items::simple_decl_item(old(self).tokens@, #[trigger] starts[k], p.items@[k])),
    {
        self.skip_newlines();
        let start_span = self.current_span();
        proof {
            assert forall|j: int| 0 <= j < self.index implies self.tokens@[j].kind == TokenKind::Newline by {
                assert(old(self).kind_at(j) == TokenKind::Newline);
            }
            lemma_newline_run(self.tokens@, 0, self.index as int);
        }
        let ghost quiet = only_newlines(old(self).tokens@);
        assert(quiet ==> self.index == self.tokens@.len() - 1);
        let ghost bare = self.tokens@[self.index as int].kind != TokenKind::Keyword(Keyword::Module)
            && self.tokens@[self.index as int].kind != TokenKind::Keyword(Keyword::Use);
        let ghost total = items::simple_decls_from(old(self).tokens@, 0);
        let ghost s0 = self.index as int;
        proof {
            if total is Some {
                assert(s0 == crate::parser::newline_run(old(self).tokens@, 0));
                assert(self.tokens@[s0].kind != TokenKind::Newline);
                assert(crate::parser::newline_run(self.tokens@, s0) == s0);
                assert(items::simple_decls_from(self.tokens@, s0) == total);
                assert(total->Some_0.skip(0) =~= total->Some_0);
            }
        }

        let module = if self.match_keyword(Keyword::Module) {
            self.parse_module_decl()
        } else {
            None
        };

        self.skip_newlines();
        let mut imports = Vec::new();
        while self.match_keyword(Keyword::Use)
            invariant
                self.wf(),
                self.tokens == old(self).tokens,
                start_span == old(self).tokens@[newline_run(old(self).tokens@, 0)].span,
                quiet == only_newlines(old(self).tokens@),
                quiet ==> self.index == self.tokens@.len() - 1 && self.diagnostics@.len() == 0
                    && module is None && imports@.len() == 0,
                s0 == crate::parser::newline_run(old(self).tokens@, 0),
                s0 <= self.index,
                bare == (old(self).tokens@[s0].kind != TokenKind::Keyword(Keyword::Module)
                    && old(self).tokens@[s0].kind != TokenKind::Keyword(Keyword::Use)),
                bare ==> self.index == s0,
                total == items::simple_decls_from(old(self).tokens@, 0),
                total is Some ==> self.index == s0 && self.diagnostics@.len() == 0 && module is None
                    && imports@.len() == 0 && items::simple_decls_from(self.tokens@, s0) == total,
            decreases self.remaining(),
        {
            if let Some(import) = self.parse_import_decl() {
                imports.push(import);
            }
            self.skip_newlines();
        }

        let mut items: Vec<Item> = Vec::new();
        let ghost header: int = self.index as int;
        let ghost mut cuts: Seq<int> = Seq::empty();
        let ghost mut ends: Seq<int> = Seq::empty();
        let ghost mut slots: Seq<int> = Seq::empty();
        assert(items::items_in(slots) == 0);
        while !self.at(TokenKind::Eof)
            invariant
                items::stretches_read(self.tokens@, items@, header, cuts, ends, slots, self.diagnostics@.len()),
                header <= self.index,
                header_ends_at(old(self).tokens@, header),
                items::layout_end(header, ends) <= self.index,
                crate::parser::newline_run(self.tokens@, items::layout_end(header, ends))
                    == crate::parser::newline_run(self.tokens@, self.index as int),
                self.wf(),
                self.tokens == old(self).tokens,
                start_span == old(self).tokens@[newline_run(old(self).tokens@, 0)].span,
                quiet == only_newlines(old(self).tokens@),
                quiet ==> self.index == self.tokens@.len() - 1 && self.diagnostics@.len() == 0
                    && module is None && imports@.len() == 0 && items@.len() == 0,
                forall|k: int| 0 <= k < items@.len() ==> item_rules(#[trigger] items@[k]),
                self.diagnostics@.len() == 0 ==> forall|k: int|
                    0 <= k < items@.len() ==> item_in_order(#[trigger] items@[k]),
                total == items::simple_decls_from(old(self).tokens@, 0),
                total is Some ==> self.diagnostics@.len() == 0 && module is None
                    && imports@.len() == 0 && items@.len() <= total->Some_0.len()
                    && items::simple_decls_from(self.tokens@, self.index as int) == Some(total->Some_0.skip(items@.len() as int))
                    && forall|k: int| 0 <= k < items@.len() ==> items::simple_decl_item(self.tokens@,
                        #[trigger] total->Some_0[k], items@[k]),
            ensures
                self.wf(),
                self.tokens == old(self).tokens,
                self.cur_kind() == TokenKind::Eof,
                items::stretches_read(self.tokens@, items@, header, cuts, ends, slots, self.diagnostics@.len()),
                header <= self.index,
                header_ends_at(old(self).tokens@, header),
                items::layout_end(header, ends) <= self.index,
                crate::parser::newline_run(self.tokens@, items::layout_end(header, ends))
                    == crate::parser::newline_run(self.tokens@, self.index as int),
                quiet ==> self.index == self.tokens@.len() - 1 && self.diagnostics@.len() == 0
                    && module is None && imports@.len() == 0 && items@.len() == 0,
                forall|k: int| 0 <= k < items@.len() ==> item_rules(#[trigger] items@[k]),
                self.diagnostics@.len() == 0 ==> forall|k: int|
                    0 <= k < items@.len() ==> item_in_order(#[trigger] items@[k]),
                total is Some ==> self.diagnostics@.len() == 0 && module is None
                    && imports@.len() == 0 && items@.len() == total->Some_0.len()
                    && forall|k: int| 0 <= k < items@.len() ==> items::simple_decl_item(self.tokens@,
                        #[trigger] total->Some_0[k], items@[k]),
            decreases self.remaining(),
        {
            let ghost loop_start = self.index as int;
            self.skip_newlines();
            proof {
                if total is Some {
                    crate::parser::lemma_newline_run_bounded(self.tokens@, loop_start);
                    crate::parser::lemma_newline_run_from_inside(self.tokens@, loop_start, self.index as int);
                }
            }
            if self.at(TokenKind::Eof) {
                break;
            }
            let before = self.index;
            let ghost diags_before: nat = self.diagnostics@.len();
            let ghost toks = self.tokens@;
            let ghost left = items::simple_decls_from(toks, loop_start);
            proof {
                if total is Some {
                    assert(self.index as int == crate::parser::newline_run(toks, loop_start));
                    assert(items::simple_decl_end(toks, before as int) > before);
                    assert(items::simple_decls_from(toks, items::simple_decl_end(toks, before as int)) is Some);
                    assert(left->Some_0 == seq![before as int]
                        + items::simple_decls_from(toks, items::simple_decl_end(toks, before as int))->Some_0);
                }
            }
            proof {
                crate::parser::lemma_newline_run_bounded(toks, loop_start);
                crate::parser::lemma_newline_run_from_inside(toks, loop_start, before as int);
                assert(before as int == crate::parser::newline_run(toks, items::layout_end(header, ends)));
            }
            let ghost items_before = items@;
            let ghost mut slot: int = -2;
            let ghost mut pushed: Item = arbitrary();
            if let Some(item) = self.parse_item() {
                proof {
                    slot = items_before.len() as int;
                    pushed = item;
                }
                items.push(item);
                assert(items@ == items_before.push(pushed));
            } else {
                proof {
                    if self.diagnostics@.len() == diags_before {
                        slot = -1;
                    }
                }
                self.synchronize_item();
                if self.index == before && !self.at(TokenKind::Eof) {
                    self.advance();
                }
            }
            let ghost after_item = self.index as int;
            proof {
                let reported = self.diagnostics@.len();
                items::lemma_stretches_reported(toks, items_before, header, cuts, ends, slots, diags_before, reported);
                items::lemma_stretches_push(toks, items_before, header, cuts, ends, slots, reported,
                    before as int, after_item, slot, pushed);
                cuts = cuts.push(before as int);
                ends = ends.push(after_item);
                slots = slots.push(slot);
            }
            self.skip_newlines();
            proof {
                crate::parser::lemma_newline_run_bounded(self.tokens@, after_item);
                crate::parser::lemma_newline_run_from_inside(self.tokens@, after_item, self.index as int);
                if total is Some {
                    let e = items::simple_decl_end(toks, before as int);
                    assert(after_item == e);
                    assert(crate::parser::newline_run(toks, self.index as int) == self.index);
                    assert(items::simple_decls_from(toks, self.index as int) == items::simple_decls_from(toks, e));
                    let all = total->Some_0;
                    assert(all.skip(items@.len() - 1) == seq![before as int] + items::simple_decls_from(toks, e)->Some_0);
                    assert((seq![before as int] + items::simple_decls_from(toks, e)->Some_0)[0] == before);
                    assert(all.skip(items@.len() - 1)[0] == before);
                    assert(all[items@.len() - 1] == before);
                    assert(all.skip(items@.len() as int) =~= all.skip(items@.len() - 1).skip(1));
                    assert(seq![before as int].add(items::simple_decls_from(toks, e)->Some_0).skip(1)
                        =~= items::simple_decls_from(toks, e)->Some_0);
                }
            }
        }

        let end_span = if self.index > 0 {
            self.tokens[self.index - 1].span
        } else {
            start_span
        };

        let program = Program {
            module,
            imports,
            items,
            span: Some(start_span.cover(end_span)),
        };

        let mut diagnostics = Vec::new();
        std::mem::swap(&mut diagnostics, &mut self.diagnostics);
        proof {
            assert(crate::parser::newline_run(self.tokens@, self.index as int) == self.index);
            assert(items::program_layout(old(self).tokens@, program.items@, header, cuts, ends, slots,
                diagnostics@.len()));
        }
        let ghost layout_items = program.items@;
        let r = ParseResult { program: Some(program), diagnostics };
        proof {
            assert(r.program->Some_0.items@ == layout_items);
            assert(header_ends_at(old(self).tokens@, header));
            assert(items::program_layout(old(self).tokens@, r.program->Some_0.items@, header, cuts, ends, slots,
                r.diagnostics@.len()));
        }
        r
    }

    /// A parser over the same tokens that starts at `start`, with no
    /// diagnostics of its own; used to look ahead without moving `self`.
    pub(crate) fn lookahead_at(&self, start: usize) -> (p: Parser<'a>)
        requires
            self.wf(),
            start < self.tokens@.len(),
        ensures
            p.wf(),
            p.tokens == self.tokens,
            p.bound == self.bound,
            p.index == start,
            p.diagnostics@.len() == 0,
    {
        Parser {
            tokens: self.tokens,
            index: start,
            diagnostics: Vec::new(),
            allow_trailing_block_call: self.allow_trailing_block_call,
            allow_shape_update_operator: self.allow_shape_update_operator,
            bound: self.bound,
            silent_failures: Ghost(0),
        }
    }
}

} // verus!
