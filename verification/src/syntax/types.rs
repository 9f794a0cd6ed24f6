//! Type references, type parameters and parameter lists.
use vstd::prelude::*;
use super::tree::{Param, RecordTypeField, TupleTypeField, TypeParam, TypeRef};
use crate::lexer::{Keyword, Token, TokenKind};
use crate::parser::types::{simple_param_count, simple_type_arg_count};
use super::Parser;

verus! {

/// The parameter `name Type` at `j`.
pub open spec fn param_spelled(tokens: Seq<Token>, j: int, p: Param) -> bool {
    &&& p.name@ == tokens[j].lexeme@ && !p.variadic && p.initializer is None
    &&& p.ty matches Some(TypeRef::Named { name, args, .. }) && name@ == tokens[j + 1].lexeme@ && args@.len() == 0
}

/// The parameters a simple list that opens at `j` spells.
pub open spec fn params_spelled(tokens: Seq<Token>, j: int, params: Seq<Param>) -> bool {
    if tokens[j + 1].kind == TokenKind::RParen {
        params.len() == 0
    } else {
        params.len() == simple_param_count(tokens, j + 1)
            && forall|k: int| 0 <= k < params.len() ==> param_spelled(tokens, j + 1 + 3 * k, #[trigger] params[k])
    }
}

impl<'a> Parser<'a> {
    /// `[T, U with Bound]`, or nothing when no `[` follows.
    pub(crate) fn parse_type_params(&mut self) -> (r: Option<Vec<TypeParam>>)
        requires
            old(self).wf(),
        ensures
            r is None ==> final(self).diagnostics@.len() > old(self).diagnostics@.len()
                || final(self).silent_failures@ > old(self).silent_failures@,
            final(self).follows(*old(self)),
            old(self).cur_kind() != TokenKind::LBracket ==> (r matches Some(v) && v@.len() == 0),
            old(self).cur_kind() != TokenKind::LBracket ==> final(self).index == old(self).index,
            old(self).cur_kind() != TokenKind::LBracket ==> final(self).diagnostics == old(self).diagnostics,
    {
        if !self.match_token(TokenKind::LBracket) {
            return Some(Vec::new());
        }
        let mut params = Vec::new();
        self.skip_newlines();
        if !self.at(TokenKind::RBracket) {
            loop
                invariant
                    self.follows(*old(self)),
                    old(self).cur_kind() == TokenKind::LBracket,
                decreases self.remaining(),
            {
                let (name, start) = self.expect_identifier("expected type parameter name")?;
                let bounds = if self.match_keyword(Keyword::With) {
                    self.parse_type_ref_list()?
                } else {
                    Vec::new()
                };
                let end = if bounds.len() > 0 { bounds[bounds.len() - 1].span() } else { start };
                params.push(TypeParam { name, bounds, span: start.cover(end) });
                self.skip_newlines();
                if !self.match_token(TokenKind::Comma) {
                    break;
                }
                self.skip_newlines();
            }
        }
        self.consume(TokenKind::RBracket, "expected ']' after type parameters")?;
        Some(params)
    }

    /// `(name Type, rest Type vararg)`.
    pub(crate) fn parse_param_list(&mut self) -> (r: Option<Vec<Param>>)
        requires
            old(self).wf(),
        ensures
            r is None ==> final(self).diagnostics@.len() > old(self).diagnostics@.len()
                || final(self).silent_failures@ > old(self).silent_failures@,
            final(self).follows(*old(self)),
            r is Some ==> final(self).index > old(self).index,
            old(self).cur_kind() != TokenKind::LParen ==> r is None,
            old(self).cur_kind() == TokenKind::LParen
                && old(self).kind_at(crate::parser::newline_run(old(self).tokens@, old(self).index + 1)) == TokenKind::RParen
                ==> (r matches Some(v) && v@.len() == 0
                    && final(self).index == crate::parser::newline_run(old(self).tokens@, old(self).index + 1) + 1
                    && final(self).diagnostics == old(self).diagnostics),
            crate::parser::types::simple_params_end(old(self).tokens@, old(self).index as int) > old(self).index
                ==> (r matches Some(v) && params_spelled(old(self).tokens@, old(self).index as int, v@)
                    && final(self).index == crate::parser::types::simple_params_end(old(self).tokens@, old(self).index as int)
                    && final(self).diagnostics@ == old(self).diagnostics@),
    {
        let ghost simple = old(self).cur_kind() == TokenKind::LParen
            && simple_param_count(old(self).tokens@, old(self).index + 1) > 0;
        let ghost count = simple_param_count(old(self).tokens@, old(self).index + 1);
        self.consume(TokenKind::LParen, "expected '(' before parameter list")?;
        let mut params: Vec<Param> = Vec::new();
        self.skip_newlines();
        proof {
            if simple {
                assert(crate::parser::newline_run(old(self).tokens@, old(self).index + 1) == old(self).index + 1);
            }
        }
        if !self.at(TokenKind::RParen) {
            loop
                invariant_except_break
                    simple ==> self.index == old(self).index + 1 + 3 * params@.len()
                        && params@.len() < count
                        && simple_param_count(old(self).tokens@, self.index as int) + params@.len() == count,
                invariant
                    self.follows(*old(self)),
                    self.index > old(self).index,
                    old(self).cur_kind() == TokenKind::LParen
                        ==> old(self).kind_at(crate::parser::newline_run(old(self).tokens@, old(self).index + 1)) != TokenKind::RParen,
                    simple == (old(self).cur_kind() == TokenKind::LParen
                        && simple_param_count(old(self).tokens@, old(self).index + 1) > 0),
                    count == simple_param_count(old(self).tokens@, old(self).index + 1),
                    simple ==> self.diagnostics@ == old(self).diagnostics@ && forall|k: int| 0 <= k < params@.len()
                        ==> param_spelled(old(self).tokens@, old(self).index + 1 + 3 * k, #[trigger] params@[k]),
                ensures
                    self.follows(*old(self)),
                    simple ==> params@.len() == count && self.index == old(self).index + 3 * count
                        && self.tokens@[self.index as int].kind == TokenKind::RParen
                        && self.diagnostics@ == old(self).diagnostics@ && forall|k: int| 0 <= k < params@.len()
                        ==> param_spelled(old(self).tokens@, old(self).index + 1 + 3 * k, #[trigger] params@[k]),
                decreases self.remaining(),
            {
                let ghost j = self.index as int;
                let ghost params_before = params@;
                let (name, start) = self.expect_identifier("expected parameter name")?;
                let ty = if self.can_start_type_ref() {
                    Some(self.parse_type_ref()?)
                } else {
                    None
                };
                let variadic = self.match_keyword(Keyword::Vararg);
                let end = if variadic {
                    self.previous_span()
                } else {
                    match &ty {
                        Some(t) => t.span(),
                        None => start,
                    }
                };
                params.push(Param { name, ty, initializer: None, variadic, span: start.cover(end) });
                proof {
                    if simple {
                        assert(param_spelled(old(self).tokens@, j, params@[params_before.len() as int]));
                        assert forall|k: int| 0 <= k < params@.len() implies
                            param_spelled(old(self).tokens@, old(self).index + 1 + 3 * k, #[trigger] params@[k]) by {
                            if k < params_before.len() {
                                assert(params@[k] == params_before[k]);
                            }
                        }
                        assert(crate::parser::newline_run(old(self).tokens@, j + 2) == j + 2);
                    }
                }
                self.skip_newlines();
                if !self.match_token(TokenKind::Comma) {
                    break;
                }
                proof {
                    if simple {
                        assert(simple_param_count(old(self).tokens@, j) > 0);
                        assert(simple_param_count(old(self).tokens@, j + 3) > 0);
                        assert(self.tokens@[j + 3].kind == TokenKind::Identifier);
                        assert(crate::parser::newline_run(old(self).tokens@, j + 3) == j + 3);
                    }
                }
                self.skip_newlines();
            }
        }
        self.consume(TokenKind::RParen, "expected ')' after parameters")?;
        Some(params)
    }

    /// A return type, when one starts here; a failed attempt is rewound.
    pub(crate) fn parse_optional_return_type(&mut self) -> (r: Option<TypeRef>)
        requires
            old(self).wf(),
        ensures
            final(self).follows(*old(self)),
            ({
                let l = crate::parser::newline_run(old(self).tokens@, old(self).index as int);
                &&& r is None ==> final(self).index == l && final(self).diagnostics@.len() == old(self).diagnostics@.len()
                &&& r is Some ==> final(self).index > l
                &&& !(old(self).kind_at(l) == TokenKind::Identifier || old(self).kind_at(l) == TokenKind::LParen
                    || old(self).kind_at(l) == TokenKind::LBrace) ==> r is None
                &&& old(self).kind_at(l) == TokenKind::Identifier && old(self).kind_at(l + 1) != TokenKind::LBracket
                    && old(self).kind_at(l + 1) != TokenKind::Arrow ==> (r is Some && final(self).index == l + 1
                        && final(self).diagnostics == old(self).diagnostics)
            }),
    {
        self.skip_newlines();
        if self.can_start_type_ref() {
            let checkpoint = self.checkpoint();
            let ty = self.parse_type_ref();
            if ty.is_none() {
                self.restore(checkpoint);
            }
            ty
        } else {
            None
        }
    }

    /// `T, U, ...`.
    pub(crate) fn parse_type_ref_list(&mut self) -> (r: Option<Vec<TypeRef>>)
        requires
            old(self).wf(),
        ensures
            r is None ==> final(self).diagnostics@.len() > old(self).diagnostics@.len()
                || final(self).silent_failures@ > old(self).silent_failures@,
            final(self).follows(*old(self)),
            r is Some ==> final(self).index > old(self).index,
            ({
                let l = crate::parser::newline_run(old(self).tokens@, old(self).index as int);
                &&& old(self).kind_at(l) == TokenKind::Identifier && old(self).kind_at(l + 1) != TokenKind::LBracket
                    && old(self).kind_at(l + 1) != TokenKind::Arrow && old(self).kind_at(l + 1) != TokenKind::Comma
                    ==> (r matches Some(v) && v@.len() == 1 && final(self).index == l + 1)
                &&& !(old(self).kind_at(l) == TokenKind::Identifier || old(self).kind_at(l) == TokenKind::LParen
                    || old(self).kind_at(l) == TokenKind::LBrace) ==> r is None
            }),
    {
        let first = self.parse_type_ref()?;
        let mut refs: Vec<TypeRef> = Vec::new();
        refs.push(first);
        while self.match_token(TokenKind::Comma)
            invariant
                self.follows(*old(self)),
                self.index > old(self).index,
                old(self).kind_at(crate::parser::newline_run(old(self).tokens@, old(self).index as int)) == TokenKind::Identifier && old(self).kind_at(crate::parser::newline_run(old(self).tokens@, old(self).index as int) + 1) != TokenKind::LBracket
                    && old(self).kind_at(crate::parser::newline_run(old(self).tokens@, old(self).index as int) + 1) != TokenKind::Arrow && old(self).kind_at(crate::parser::newline_run(old(self).tokens@, old(self).index as int) + 1) != TokenKind::Comma
                    ==> self.index == crate::parser::newline_run(old(self).tokens@, old(self).index as int) + 1 && refs@.len() == 1,
            decreases self.remaining(),
        {
            refs.push(self.parse_type_ref()?);
        }
        Some(refs)
    }

    /// A type, including function types `A -> B` and `(A, B) -> C`.
    pub(crate) fn parse_type_ref(&mut self) -> (r: Option<TypeRef>)
        requires
            old(self).wf(),
        ensures
            r is None ==> final(self).diagnostics@.len() > old(self).diagnostics@.len()
                || final(self).silent_failures@ > old(self).silent_failures@,
            final(self).follows(*old(self)),
            r is Some ==> final(self).index > old(self).index,
            ({
                let l = crate::parser::newline_run(old(self).tokens@, old(self).index as int);
                &&& old(self).kind_at(l) == TokenKind::Identifier && old(self).kind_at(l + 1) != TokenKind::LBracket
                    && old(self).kind_at(l + 1) != TokenKind::Arrow
                    ==> (r matches Some(TypeRef::Named { name, args, .. }) && name@ == old(self).tokens@[l].lexeme@
                        && args@.len() == 0 && final(self).index == l + 1
                        && final(self).diagnostics == old(self).diagnostics)
                &&& !(old(self).kind_at(l) == TokenKind::Identifier || old(self).kind_at(l) == TokenKind::LParen
                    || old(self).kind_at(l) == TokenKind::LBrace) ==> r is None
            }),
            ({
                let l = crate::parser::newline_run(old(self).tokens@, old(self).index as int);
                old(self).kind_at(l) == TokenKind::Identifier && old(self).kind_at(l + 1) == TokenKind::LBracket
                    && old(self).kind_at(crate::parser::newline_run(old(self).tokens@, l + 2)) == TokenKind::Integer
                    ==> r is None
            }),
        decreases old(self).remaining(), 2nat,
    {
        let left = self.parse_primary_type_ref()?;
        if self.match_token(TokenKind::Arrow) {
            let ret = self.parse_type_ref()?;
            let params: Vec<TypeRef> = match left {
                TypeRef::Tuple { fields, .. } => {
                    let mut params = Vec::new();
                    let mut fields = fields;
                    let n = fields.len();
                    let mut i: usize = 0;
                    while i < n
                        invariant
                            i <= n,
                            fields@.len() == n - i,
                        decreases n - i,
                    {
                        let field = fields.remove(0);
                        params.push(field.ty);
                        i = i + 1;
                    }
                    params
                },
                other => {
                    let mut params = Vec::new();
                    params.push(other);
                    params
                },
            };
            let first_span = if params.len() > 0 { params[0].span() } else { ret.span() };
            let span = first_span.cover(ret.span());
            return Some(TypeRef::Function { params, ret: Box::new(ret), span });
        }
        Some(left)
    }

    /// A named type with optional `[args]`, a record type `{ f T }`, or a
    /// parenthesised tuple type.
    pub(crate) fn parse_primary_type_ref(&mut self) -> (r: Option<TypeRef>)
        requires
            old(self).wf(),
        ensures
            r is None ==> final(self).diagnostics@.len() > old(self).diagnostics@.len()
                || final(self).silent_failures@ > old(self).silent_failures@,
            final(self).follows(*old(self)),
            r is Some ==> final(self).index > old(self).index,
            ({
                let l = crate::parser::newline_run(old(self).tokens@, old(self).index as int);
                &&& old(self).kind_at(l) == TokenKind::Identifier && old(self).kind_at(l + 1) != TokenKind::LBracket
                    ==> (r matches Some(TypeRef::Named { name, args, .. }) && name@ == old(self).tokens@[l].lexeme@
                        && args@.len() == 0 && final(self).index == l + 1
                        && final(self).diagnostics == old(self).diagnostics)
                &&& !(old(self).kind_at(l) == TokenKind::Identifier || old(self).kind_at(l) == TokenKind::LParen
                    || old(self).kind_at(l) == TokenKind::LBrace) ==> r is None
            }),
            ({
                let l = crate::parser::newline_run(old(self).tokens@, old(self).index as int);
                old(self).kind_at(l) == TokenKind::Identifier && old(self).kind_at(l + 1) == TokenKind::LBracket
                    && old(self).kind_at(crate::parser::newline_run(old(self).tokens@, l + 2)) == TokenKind::Integer
                    ==> r is None
            }),
            ({
                let l = crate::parser::newline_run(old(self).tokens@, old(self).index as int);
                let n = simple_type_arg_count(old(self).tokens@, l + 2);
                old(self).kind_at(l) == TokenKind::Identifier && old(self).kind_at(l + 1) == TokenKind::LBracket && n > 0
                    ==> (r matches Some(TypeRef::Named { name, args, .. }) && name@ == old(self).tokens@[l].lexeme@
                        && args@.len() == n
                        && (forall|k: int| 0 <= k < n ==> (#[trigger] args@[k] matches TypeRef::Named { name: an, args: aa, .. }
                            && an@ == old(self).tokens@[l + 2 + 2 * k].lexeme@ && aa@.len() == 0))
                        && final(self).index == l + 2 * n + 2
                        && final(self).diagnostics == old(self).diagnostics)
            }),
        decreases old(self).remaining(), 1nat,
    {
        self.skip_newlines();
        if self.match_token(TokenKind::LBrace) {
            let start = self.previous_span();
            self.skip_newlines();
            let mut fields = Vec::new();
            if !self.at(TokenKind::RBrace) {
                loop
                    invariant
                        self.follows(*old(self)),
                        self.index > old(self).index,
                        old(self).kind_at(crate::parser::newline_run(old(self).tokens@, old(self).index as int)) == TokenKind::LBrace,
                    decreases self.remaining(),
                {
                    let (name, name_span) = self.expect_identifier("expected record field name")?;
                    let ty = self.parse_type_ref()?;
                    let span = name_span.cover(ty.span());
                    fields.push(RecordTypeField { name, ty, span });
                    self.skip_newlines();
                    if !self.match_token(TokenKind::Comma) {
                        break;
                    }
                    self.skip_newlines();
                }
            }
            let end = self.consume(TokenKind::RBrace, "expected '}' after record type")?;
            return Some(TypeRef::Record { fields, span: start.cover(end) });
        }
        if self.match_token(TokenKind::LParen) {
            let start = self.previous_span();
            self.skip_newlines();
            let mut fields: Vec<TupleTypeField> = Vec::new();
            if !self.at(TokenKind::RParen) {
                fields.push(self.parse_tuple_type_field()?);
                while self.match_token(TokenKind::Comma)
                    invariant
                        self.follows(*old(self)),
                        self.index > old(self).index,
                        old(self).kind_at(crate::parser::newline_run(old(self).tokens@, old(self).index as int)) == TokenKind::LParen,
                    decreases self.remaining(),
                {
                    self.skip_newlines();
                    if self.at(TokenKind::RParen) {
                        break;
                    }
                    fields.push(self.parse_tuple_type_field()?);
                }
            }
            let end = self.consume(TokenKind::RParen, "expected ')' after tuple type")?;
            if fields.len() == 1 && fields[0].name.is_none() {
                let field = fields.remove(0);
                return Some(field.ty);
            }
            return Some(TypeRef::Tuple { fields, span: start.cover(end) });
        }

        let ghost t = old(self).tokens@;
        let ghost l = crate::parser::newline_run(t, old(self).index as int);
        let ghost n = simple_type_arg_count(t, l + 2);
        let ghost simple = t[l].kind == TokenKind::Identifier && t[l + 1].kind == TokenKind::LBracket && n > 0;
        let (name, start) = self.expect_identifier("expected type name")?;
        let mut args: Vec<TypeRef> = Vec::new();
        if self.match_token(TokenKind::LBracket) {
            self.skip_newlines();
            proof {
                if simple {
                    assert(t[l + 2].kind == TokenKind::Identifier);
                    assert(crate::parser::newline_run(t, l + 2) == l + 2);
                }
            }
            if !self.at(TokenKind::RBracket) {
                args.push(self.parse_type_ref()?);
                proof {
                    if simple && t[l + 3].kind == TokenKind::Comma {
                        assert(simple_type_arg_count(t, l + 4) > 0);
                        assert(t[l + 4].kind == TokenKind::Identifier);
                        assert(crate::parser::newline_run(t, l + 4) == l + 4);
                    }
                }
                while self.match_token(TokenKind::Comma)
                    invariant
                        self.follows(*old(self)),
                        self.index > old(self).index,
                        old(self).kind_at(crate::parser::newline_run(old(self).tokens@, old(self).index as int) + 1) == TokenKind::LBracket,
                        t == old(self).tokens@,
                        l == crate::parser::newline_run(t, old(self).index as int),
                        n == simple_type_arg_count(t, l + 2),
                        simple == (t[l].kind == TokenKind::Identifier && t[l + 1].kind == TokenKind::LBracket && n > 0),
                        simple ==> 1 <= args@.len() <= n && self.index == l + 2 * args@.len() + 1
                            && simple_type_arg_count(t, l + 2 * args@.len()) + args@.len() - 1 == n
                            && self.diagnostics == old(self).diagnostics
                            && (forall|k: int| 0 <= k < args@.len() ==> (#[trigger] args@[k] matches TypeRef::Named { name: an, args: aa, .. }
                                && an@ == t[l + 2 + 2 * k].lexeme@ && aa@.len() == 0))
                            && (t[self.index as int].kind == TokenKind::Comma ==> t[self.index + 1].kind == TokenKind::Identifier
                                && simple_type_arg_count(t, self.index + 1) > 0
                                && crate::parser::newline_run(t, self.index + 1) == self.index + 1),
                    decreases self.remaining(),
                {
                    args.push(self.parse_type_ref()?);
                }
                proof {
                    if simple {
                        let a = l + 2 * args@.len();
                        assert(t[a + 1].kind != TokenKind::Comma);
                    }
                }
            }
            self.consume(TokenKind::RBracket, "expected ']' after type arguments")?;
        }
        let end = if args.len() > 0 { args[args.len() - 1].span() } else { start };
        Some(TypeRef::Named { name, args, span: start.cover(end) })
    }

    /// A tuple type field, optionally named: `name Type` or `Type`.
    pub(crate) fn parse_tuple_type_field(&mut self) -> (r: Option<TupleTypeField>)
        requires
            old(self).wf(),
        ensures
            r is None ==> final(self).diagnostics@.len() > old(self).diagnostics@.len()
                || final(self).silent_failures@ > old(self).silent_failures@,
            final(self).follows(*old(self)),
            r is Some ==> final(self).index > old(self).index,
        decreases old(self).remaining(), 3nat,
    {
        let checkpoint = self.checkpoint();
        if self.at(TokenKind::Identifier) && self.at_next(TokenKind::Identifier) {
            let (name, name_span) = self.expect_identifier("expected tuple field name")?;
            let ty = self.parse_type_ref()?;
            let span = name_span.cover(ty.span());
            return Some(TupleTypeField { name: Some(name), ty, span });
        }
        self.restore(checkpoint);
        let ty = self.parse_type_ref()?;
        let span = ty.span();
        Some(TupleTypeField { name: None, ty, span })
    }

    pub(crate) fn can_start_type_ref(&self) -> (b: bool)
        requires
            self.wf(),
        ensures
            b == (self.cur_kind() == TokenKind::Identifier || self.cur_kind() == TokenKind::LParen
                || self.cur_kind() == TokenKind::LBrace),
    {
        match self.current_kind() {
            TokenKind::Identifier | TokenKind::LParen | TokenKind::LBrace => true,
            _ => false,
        }
    }

    /// `a/b/c`, joined with `/`.
    pub(crate) fn parse_path_string(&mut self) -> (r: Option<String>)
        requires
            old(self).wf(),
        ensures
            r is None ==> final(self).diagnostics@.len() > old(self).diagnostics@.len()
                || final(self).silent_failures@ > old(self).silent_failures@,
            final(self).follows(*old(self)),
            r is Some ==> final(self).index > old(self).index,
            old(self).cur_kind() != TokenKind::Identifier ==> r is None,
            old(self).cur_kind() == TokenKind::Identifier && old(self).kind_at(old(self).index + 1) != TokenKind::Slash
                ==> (r matches Some(path) && path@ == old(self).tokens@[old(self).index as int].lexeme@
                    && final(self).index == old(self).index + 1),
    {
        let (first, _) = self.expect_identifier("expected path segment")?;
        let mut path = first;
        while self.match_token(TokenKind::Slash)
            invariant
                self.follows(*old(self)),
                self.index > old(self).index,
                old(self).cur_kind() == TokenKind::Identifier && old(self).kind_at(old(self).index + 1) != TokenKind::Slash
                    ==> self.index == old(self).index + 1 && path@ == old(self).tokens@[old(self).index as int].lexeme@,
            decreases self.remaining(),
        {
            let (segment, _) = self.expect_identifier("expected path segment after '/'")?;
            path = crate::text::concat_str(path, "/");
            path = crate::text::concat_strings(path, &segment);
        }
        Some(path)
    }
}

} // verus!
