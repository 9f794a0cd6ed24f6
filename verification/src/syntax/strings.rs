//! String literal tokens of the complete grammar: optional `raw` prefix,
//! regular and triple-quoted bodies, and `$name` / `${expr}` interpolation.
use vstd::prelude::*;
use crate::diagnostic::Diagnostic;
use crate::lexer::{lex, Token, TokenKind};
use crate::parser::strings::{
    decode_string_contents, encode_string_literal, escape_char, find_interpolated_expr_end,
    flush_literal, interp_parts, lemma_decode_escape, lemma_interp_close_bounds, lemma_name_end,
    name_end, parts_view, flush_parts, spec_decode, spec_escape, spec_has_interpolation,
    string_has_interpolation, InterpolatedStringPart,
};
use crate::source::SourceFile;
use crate::text::concat_strings;
use super::tree::{BinaryOp, Expr};
use super::Parser;
use crate::text::{char_is_alnum, char_is_alpha, chars_of, is_ascii_alpha, is_ascii_digit, string_from_range};

verus! {

/// A string token split into its parts: whether it carries the `raw` prefix
/// (escapes and interpolation are then left alone) and the text between its
/// quotes.
pub struct StringLiteral {
    pub is_raw: bool,
    pub body: String,
}

/// `raw` without its leading `raw` marker, and whether the marker was there.
pub open spec fn spec_strip_raw(raw: Seq<char>) -> (bool, Seq<char>) {
    if raw.len() >= 3 && raw[0] == 'r' && raw[1] == 'a' && raw[2] == 'w' {
        (true, raw.subrange(3, raw.len() as int))
    } else {
        (false, raw)
    }
}

/// The text between the quotes of `quoted`: inside `"""` when it both begins
/// and ends with three quotes and has at least six characters, otherwise
/// inside one `"` on each side; `None` when it is not quoted.
pub open spec fn spec_literal_body(quoted: Seq<char>) -> Option<Seq<char>> {
    let n = quoted.len() as int;
    if n >= 6 && quoted[0] == '"' && quoted[1] == '"' && quoted[2] == '"' && quoted[n - 1] == '"'
        && quoted[n - 2] == '"' && quoted[n - 3] == '"' {
        Some(quoted.subrange(3, n - 3))
    } else if n >= 2 && quoted[0] == '"' && quoted[n - 1] == '"' {
        Some(quoted.subrange(1, n - 1))
    } else {
        None
    }
}

/// Splits a string token into its `raw` marker and its body.
pub fn string_literal(raw: &str) -> (r: Option<StringLiteral>)
    ensures
        r is None <==> spec_literal_body(spec_strip_raw(raw@).1) is None,
        r matches Some(lit) ==> lit.is_raw == spec_strip_raw(raw@).0
            && Some(lit.body@) == spec_literal_body(spec_strip_raw(raw@).1),
{
    let chars = chars_of(raw);
    let n = chars.len();
    let is_raw = n >= 3 && chars[0] == 'r' && chars[1] == 'a' && chars[2] == 'w';
    let from: usize = if is_raw { 3 } else { 0 };
    let ghost quoted = chars@.subrange(from as int, n as int);
    proof {
        assert(chars@.subrange(0, n as int) =~= chars@);
    }
    let len = n - from;
    if len >= 6 && chars[from] == '"' && chars[from + 1] == '"' && chars[from + 2] == '"'
        && chars[n - 1] == '"' && chars[n - 2] == '"' && chars[n - 3] == '"' {
        let body = string_from_range(&chars, from + 3, n - 3);
        proof {
            assert(quoted.subrange(3, quoted.len() - 3) =~= chars@.subrange(from + 3, n - 3));
        }
        return Some(StringLiteral { is_raw, body });
    }
    if len >= 2 && chars[from] == '"' && chars[n - 1] == '"' {
        let body = string_from_range(&chars, from + 1, n - 1);
        proof {
            assert(quoted.subrange(1, quoted.len() - 1) =~= chars@.subrange(from + 1, n - 1));
        }
        return Some(StringLiteral { is_raw, body });
    }
    None
}

/// A character that may begin an interpolated name.
pub fn is_ascii_identifier_start(ch: char) -> (b: bool)
    ensures
        b == (ch == '_' || is_ascii_alpha(ch)),
{
    ch == '_' || char_is_alpha(ch)
}

/// A character that may continue an interpolated name.
pub fn is_ascii_identifier_continue(ch: char) -> (b: bool)
    ensures
        b == (ch == '_' || is_ascii_alpha(ch) || is_ascii_digit(ch)),
{
    ch == '_' || char_is_alnum(ch)
}

/// Splits the body of a string literal into literal and interpolated parts:
/// `$name` and `${expr}` start interpolations, `\$` is a literal dollar sign,
/// and a `$` at the very end is an error.
pub fn parse_interpolated_string_parts(body: &str) -> (r: Result<Vec<InterpolatedStringPart>, String>)
    requires
        body@.len() < usize::MAX - 2,
    ensures
        r is Ok <==> interp_parts(body@, 0, body@.len() as int, true, Seq::empty(), Seq::empty()) is Ok,
        r matches Ok(parts) ==> interp_parts(body@, 0, body@.len() as int, true, Seq::empty(), Seq::empty())
            == Ok::<Seq<(bool, Seq<char>)>, Seq<char>>(parts_view(parts@)),
        r matches Err(m) ==> interp_parts(body@, 0, body@.len() as int, true, Seq::empty(), Seq::empty())
            == Err::<Seq<(bool, Seq<char>)>, Seq<char>>(m@),
        r matches Ok(parts) ==> forall|k: int|
            0 <= k < parts@.len() ==> #[trigger] parts@[k].text@.len() <= body@.len(),
        r matches Ok(parts) ==> forall|k: int|
            0 <= k < parts@.len() ==> (#[trigger] parts@[k]).text@.len() > 0,
{
    let runes = chars_of(body);
    let n = runes.len();
    let mut parts: Vec<InterpolatedStringPart> = Vec::new();
    let mut literal: Vec<char> = Vec::new();
    let mut i: usize = 0;
    let ghost whole = interp_parts(runes@, 0, n as int, true, Seq::empty(), Seq::empty());
    proof {
        assert(parts_view(parts@) =~= Seq::<(bool, Seq<char>)>::empty());
    }
    while i < n
        invariant
            whole == interp_parts(runes@, 0, n as int, true, Seq::empty(), Seq::empty()),
            interp_parts(runes@, i as int, n as int, true, literal@, parts_view(parts@)) == whole,
            runes@ == body@,
            n == runes@.len(),
            n < usize::MAX - 2,
            i <= n,
            literal@.len() <= i,
            forall|k: int| 0 <= k < parts@.len() ==> #[trigger] parts@[k].text@.len() <= i,
            forall|k: int| 0 <= k < parts@.len() ==> (#[trigger] parts@[k]).text@.len() > 0,
        decreases n - i,
    {
        let ch = runes[i];
        if ch == '\\' && i + 1 < n && runes[i + 1] == '$' {
            literal.push('$');
            i = i + 2;
        } else if ch == '\\' {
            literal.push('\\');
            i = i + 1;
        } else if ch == '$' {
            if i + 1 >= n {
                return Err(String::from_str("dangling '$'"));
            }
            let ghost pending = flush_parts(parts_view(parts@), literal@);
            flush_literal(&mut parts, &mut literal);
            if runes[i + 1] == '{' {
                let start = i + 2;
                proof {
                    lemma_interp_close_bounds(runes@, start as int, n as int, 1, None);
                }
                let end = find_interpolated_expr_end(&runes, start, n)?;
                if end == start {
                    return Err(String::from_str("empty interpolation"));
                }
                let text = string_from_range(&runes, start, end);
                parts.push(InterpolatedStringPart { is_literal: false, text });
                proof {
                    assert(parts_view(parts@) =~= pending.push((false, runes@.subrange(start as int, end as int))));
                    assert(literal@ =~= Seq::<char>::empty());
                }
                i = end + 1;
            } else {
                if !is_ascii_identifier_start(runes[i + 1]) {
                    return Err(String::from_str("expected identifier or '{' after '$'"));
                }
                let start = i + 1;
                let mut end = start + 1;
                proof {
                    lemma_name_end(runes@, end as int, n as int, true);
                }
                while end < n && is_ascii_identifier_continue(runes[end])
                    invariant
                        start < end <= n,
                        n == runes@.len(),
                        name_end(runes@, end as int, n as int, true) == name_end(runes@, start + 1, n as int, true),
                    decreases n - end,
                {
                    end = end + 1;
                }
                let text = string_from_range(&runes, start, end);
                parts.push(InterpolatedStringPart { is_literal: false, text });
                proof {
                    assert(parts_view(parts@) =~= pending.push((false, runes@.subrange(start as int, end as int))));
                    assert(literal@ =~= Seq::<char>::empty());
                }
                i = end;
            }
        } else {
            literal.push(ch);
            i = i + 1;
        }
    }
    flush_literal(&mut parts, &mut literal);
    Ok(parts)
}


/// `e` joins `leaves` with `+`, nested to the left: the first leaf is
/// the innermost left operand and each later leaf is the right operand of
/// the next `+` out, so `[a, b, c]` is `(a + b) + c`.
pub open spec fn left_add_chain(e: Expr, leaves: Seq<Expr>) -> bool
    decreases leaves.len(),
{
    if leaves.len() == 0 {
        false
    } else if leaves.len() == 1 {
        e == leaves[0]
    } else {
        &&& e matches Expr::Binary { left, op, right, .. }
        &&& op == BinaryOp::Add
        &&& *right == leaves.last()
        &&& left_add_chain(*left, leaves.drop_last())
    }
}

/// The piece that part `p` of an interpolated literal gives: literal text is
/// decoded and written again as a regular literal; an embedded expression
/// may be any expression.
pub open spec fn piece_for(p: (bool, Seq<char>), e: Expr) -> bool {
    p.0 ==> (spec_decode(p.1) matches Some(d) && e matches Expr::String { raw, .. }
        && raw@ == seq!['"'] + spec_escape(d) + seq!['"'])
}

/// The pieces of an interpolated literal with parts `ps`, in the order of
/// the parts, after an empty literal `""` when the first part is not
/// literal text.
pub open spec fn pieces_of_parts(ps: Seq<(bool, Seq<char>)>, leaves: Seq<Expr>) -> bool {
    if ps.len() == 0 || !ps[0].0 {
        &&& leaves.len() == ps.len() + 1
        &&& leaves[0] matches Expr::String { raw, .. } && raw@ == seq!['"', '"']
        &&& forall|k: int| 0 <= k < ps.len() ==> #[trigger] piece_for(ps[k], leaves[k + 1])
    } else {
        &&& leaves.len() == ps.len()
        &&& forall|k: int| 0 <= k < ps.len() ==> #[trigger] piece_for(ps[k], leaves[k])
    }
}

/// `e` is what a literal with the interpolated body `body` stands for: the
/// `+` chain, nested to the left, of the pieces of its parts in their order.
pub open spec fn interpolation_built(body: Seq<char>, e: Expr) -> bool {
    &&& interp_parts(body, 0, body.len() as int, true, Seq::empty(), Seq::empty()) is Ok
    &&& exists|leaves: Seq<Expr>| left_add_chain(e, leaves) && #[trigger] pieces_of_parts(
        interp_parts(body, 0, body.len() as int, true, Seq::empty(), Seq::empty())->Ok_0, leaves)
}

impl<'a> Parser<'a> {
    /// The expression for a string literal token: the literal itself when it
    /// is raw or has no interpolation; otherwise the concatenation (`+`) of
    /// its literal pieces (re-encoded) and embedded expressions, starting with
    /// an empty literal when it begins with an interpolation. A token that is
    /// not a quoted literal is reported.
    pub(crate) fn parse_string_expr(&mut self, token: Token) -> (r: Option<Expr>)
        requires
            old(self).wf(),
            token.lexeme@.len() <= old(self).bound@,
        ensures
            r is None ==> final(self).diagnostics@.len() > old(self).diagnostics@.len()
                || final(self).silent_failures@ > old(self).silent_failures@,
            final(self).follows(*old(self)),
            spec_literal_body(spec_strip_raw(token.lexeme@).1) is None ==> r is None,
            spec_literal_body(spec_strip_raw(token.lexeme@).1) matches Some(body)
                && (spec_strip_raw(token.lexeme@).0 || !spec_has_interpolation(body))
                ==> r == Some(Expr::String { raw: token.lexeme, span: token.span }),
            spec_literal_body(spec_strip_raw(token.lexeme@).1) matches Some(body)
                && !spec_strip_raw(token.lexeme@).0 && spec_has_interpolation(body)
                && interp_parts(body, 0, body.len() as int, true, Seq::empty(), Seq::empty()) is Err
                ==> r is None,
            spec_literal_body(spec_strip_raw(token.lexeme@).1) is Some
                && !spec_strip_raw(token.lexeme@).0
                && spec_has_interpolation(spec_literal_body(spec_strip_raw(token.lexeme@).1)->Some_0)
                ==> (r matches Some(e) ==> interpolation_built(spec_literal_body(spec_strip_raw(token.lexeme@).1)->Some_0, e)),
        decreases old(self).bound@, old(self).remaining(), 1nat,
    {
        let literal = match string_literal(token.lexeme.as_str()) {
            Some(literal) => literal,
            None => {
                self.diagnostics.push(Diagnostic::error(
                    "invalid_string_literal",
                    String::from_str("invalid string literal"),
                    token.span,
                ));
                return None;
            },
        };
        if literal.is_raw {
            return Some(Expr::String { raw: token.lexeme, span: token.span });
        }
        if !string_has_interpolation(literal.body.as_str()) {
            return Some(Expr::String { raw: token.lexeme, span: token.span });
        }
        proof {
            lemma_literal_body_shorter(spec_strip_raw(token.lexeme@).1);
        }
        let parts = match parse_interpolated_string_parts(literal.body.as_str()) {
            Ok(parts) => parts,
            Err(message) => {
                let text = concat_strings(String::from_str("invalid string interpolation: "), &message);
                self.diagnostics.push(Diagnostic::error("invalid_string_interpolation", text, token.span));
                return None;
            },
        };

        let ghost pv = parts_view(parts@);
        let ghost offset: int = if parts@.len() == 0 || !parts@[0].is_literal { 1 } else { 0 };
        let ghost mut leaves: Seq<Expr> = Seq::empty();
        let mut acc: Option<Expr> = None;
        if parts.len() == 0 || !parts[0].is_literal {
            let empty = Expr::String { raw: encode_string_literal(""), span: token.span };
            proof {
                reveal_strlit("");
                assert(spec_escape(Seq::<char>::empty()) =~= Seq::<char>::empty());
                assert(seq!['"'] + spec_escape(Seq::<char>::empty()) + seq!['"'] =~= seq!['"', '"']);
                leaves = seq![empty];
            }
            acc = Some(empty);
        }
        let mut i: usize = 0;
        while i < parts.len()
            invariant
                pv == parts_view(parts@),
                pv.len() == parts@.len(),
                offset == (if pv.len() == 0 || !pv[0].0 { 1int } else { 0int }),
                leaves.len() == i + offset,
                acc matches Some(a) ==> left_add_chain(a, leaves),
                acc is None ==> leaves.len() == 0,
                offset == 1 ==> (leaves[0] matches Expr::String { raw, .. } && raw@ == seq!['"', '"']),
                forall|k: int| 0 <= k < i ==> #[trigger] piece_for(pv[k], leaves[k + offset]),
                interp_parts(literal.body@, 0, literal.body@.len() as int, true, Seq::empty(), Seq::empty())
                    == Ok::<Seq<(bool, Seq<char>)>, Seq<char>>(pv),
                self.follows(*old(self)),
                literal.body@.len() + 2 <= token.lexeme@.len() <= old(self).bound@,
                Some(literal.body@) == spec_literal_body(spec_strip_raw(token.lexeme@).1),
                literal.is_raw == spec_strip_raw(token.lexeme@).0,
                !literal.is_raw,
                spec_has_interpolation(literal.body@),
                forall|k: int| 0 <= k < parts@.len() ==> #[trigger] parts@[k].text@.len() <= literal.body@.len(),
                i <= parts@.len(),
                acc is Some || (i == 0 && parts@.len() > 0 && parts@[0].is_literal),
            decreases parts@.len() - i,
        {
            let part = &parts[i];
            let next = if part.is_literal {
                let decoded = match decode_string_contents(part.text.as_str()) {
                    Ok(decoded) => decoded,
                    Err(message) => {
                        let text = concat_strings(String::from_str("invalid string literal: "), &message);
                        self.diagnostics.push(Diagnostic::error("invalid_string_literal", text, token.span));
                        return None;
                    },
                };
                Expr::String { raw: encode_string_literal(decoded.as_str()), span: token.span }
            } else {
                match parse_embedded_expr(part.text.as_str()) {
                    Ok(expr) => expr,
                    Err(message) => {
                        let text = concat_strings(String::from_str("invalid string interpolation: "), &message);
                        self.diagnostics.push(Diagnostic::error("invalid_string_interpolation", text, token.span));
                        return None;
                    },
                }
            };
            proof {
                assert(pv[i as int] == crate::parser::strings::part_view(parts@[i as int]));
                let old_leaves = leaves;
                leaves = leaves.push(next);
                assert(leaves.drop_last() =~= old_leaves);
                assert(piece_for(pv[i as int], leaves[i + offset]));
                assert forall|k: int| 0 <= k < i + 1 implies #[trigger] piece_for(pv[k], leaves[k + offset]) by {
                    if k < i {
                        assert(leaves[k + offset] == old_leaves[k + offset]);
                    }
                }
            }
            acc = match acc {
                None => Some(next),
                Some(left) => Some(Expr::Binary {
                    left: Box::new(left),
                    op: BinaryOp::Add,
                    right: Box::new(next),
                    span: token.span,
                }),
            };
            i = i + 1;
        }
        proof {
            if offset == 1 {
                assert forall|k: int| 0 <= k < pv.len() implies #[trigger] piece_for(pv[k], leaves[k + 1]) by {
                    assert(piece_for(pv[k], leaves[k + offset]));
                }
            } else {
                assert forall|k: int| 0 <= k < pv.len() implies #[trigger] piece_for(pv[k], leaves[k]) by {
                    assert(piece_for(pv[k], leaves[k + offset]));
                }
            }
            let body = literal.body@;
            assert(pieces_of_parts(pv, leaves));
            assert(acc is Some);
            assert(interp_parts(body, 0, body.len() as int, true, Seq::empty(), Seq::empty())->Ok_0 == pv);
            assert(pieces_of_parts(interp_parts(body, 0, body.len() as int, true, Seq::empty(), Seq::empty())->Ok_0, leaves));
            assert(interpolation_built(body, acc->Some_0));
        }
        acc
    }
}

/// An escaped text never starts with a bare quote.
proof fn lemma_escape_first_not_quote(value: Seq<char>)
    ensures
        spec_escape(value).len() >= value.len(),
        spec_escape(value).len() > 0 ==> spec_escape(value)[0] != '"',
    decreases value.len(),
{
    if value.len() > 0 {
        let init = value.drop_last();
        lemma_escape_first_not_quote(init);
        let e = escape_char(value.last());
        assert(spec_escape(value) == spec_escape(init) + e);
        if spec_escape(init).len() == 0 {
            assert(spec_escape(value)[0] == e[0]);
        } else {
            assert(spec_escape(value)[0] == spec_escape(init)[0]);
        }
    }
}

/// A literal written by `encode_string_literal` is read back by
/// `string_literal` as a regular (not raw) literal whose body is the escaped
/// text, and decoding that body gives the original value.
pub proof fn lemma_encoded_literal_roundtrip(value: Seq<char>)
    ensures
        spec_strip_raw(seq!['"'] + spec_escape(value) + seq!['"'])
            == (false, seq!['"'] + spec_escape(value) + seq!['"']),
        spec_literal_body(seq!['"'] + spec_escape(value) + seq!['"']) == Some(spec_escape(value)),
        spec_decode(spec_escape(value)) == Some(value),
{
    let esc = spec_escape(value);
    let e = seq!['"'] + esc + seq!['"'];
    lemma_escape_first_not_quote(value);
    lemma_decode_escape(value);
    assert(e[0] == '"');
    assert(e[e.len() - 1] == '"');
    if esc.len() > 0 {
        assert(e[1] == esc[0]);
    }
    assert(e.subrange(1, e.len() - 1) =~= esc);
}

/// The body inside the quotes is at least two characters shorter than the
/// quoted text.
proof fn lemma_literal_body_shorter(quoted: Seq<char>)
    ensures
        spec_literal_body(quoted) matches Some(body) ==> body.len() + 2 <= quoted.len(),
{
}

/// Parses the source of one interpolation as a single expression; lexing
/// problems, leftover tokens and parse diagnostics are errors.
pub(crate) fn parse_embedded_expr(source: &str) -> (r: Result<Expr, String>)
    requires
        source@.len() + 3 < usize::MAX,
    decreases source@.len() + 1, 0nat, 0nat,
{
    let file = SourceFile::new("<interpolation>", source);
    let lexed = lex(&file);
    if lexed.diagnostics.len() > 0 {
        return Err(lexed.diagnostics[0].message.clone());
    }
    proof {
        let ts = lexed.tokens@;
        assert forall|i: int| 0 <= i < ts.len() implies #[trigger] ts[i].lexeme@.len() <= source@.len() by {
            if i < ts.len() - 1 {
                assert(ts.drop_last()[i] == ts[i]);
                assert(crate::lexer::token_matches_text(ts.drop_last()[i], source@));
            } else {
                assert(ts.last() == ts[i]);
            }
        }
        assert(ts.last() == ts[ts.len() - 1]);
        assert(lexed.tokens.len() == ts.len());
    }
    let mut parser = Parser::new(lexed.tokens.as_slice(), Ghost(source@.len()));
    let expr = match parser.parse_expr() {
        Some(expr) => expr,
        None => return Err(String::from_str("empty interpolation")),
    };
    parser.skip_newlines();
    if !parser.at(TokenKind::Eof) {
        return Err(String::from_str("unexpected trailing tokens in interpolation"));
    }
    if parser.diagnostics.len() > 0 {
        return Err(parser.diagnostics[0].message.clone());
    }
    Ok(expr)
}

} // verus!
