//! Top-level items: module and import headers, functions, type declarations,
//! impl blocks and their members.
use vstd::prelude::*;
use crate::ast::{
    Annotation, Binding, CallableBody, EnumCaseDecl, Expr, FieldDecl, FunctionDecl, ImplBlock, ImportDecl,
    ImportSymbol, Item, MethodDecl, ModuleDecl, Stmt, TypeDecl, TypeKind, TypeMember, TypeRef,
    Visibility,
};
use crate::lexer::{Keyword, Token, TokenKind};
use crate::source::{spec_cover, Span};
use crate::text::{concat_str, concat_strings, string_is};
use super::Parser;
use super::strings::starts_lower;

verus! {

/// The first `count` segments joined with `/` between them.
pub open spec fn joined(segments: Seq<String>, count: int) -> Seq<char>
    decreases count,
{
    if count <= 0 {
        Seq::empty()
    } else if count == 1 {
        segments[0]@
    } else {
        joined(segments, count - 1) + seq!['/'] + segments[count - 1]@
    }
}

/// A binding that `public` may mark: named, and not mutable.
pub open spec fn exportable(b: Binding) -> bool {
    b.name@ != "_"@ && !b.mutable
}

/// What every member of a type body obeys: it is not `public`, a method has
/// a body unless it belongs to an interface, and only enums have cases.
pub open spec fn member_rules(kind: TypeKind, member: TypeMember) -> bool {
    match member {
        TypeMember::Field(f) => f.visibility != Visibility::Public,
        TypeMember::Method(m) => m.visibility != Visibility::Public && (kind != TypeKind::Interface ==> m.body is Some),
        TypeMember::Case(_) => kind == TypeKind::Enum,
    }
}

/// What every top-level item obeys: type declarations are never `public`
/// and their members obey `member_rules`, and a `public` binding statement
/// binds only names that are immutable.
pub open spec fn item_rules(item: Item) -> bool {
    match item {
        Item::Statement(Stmt::Binding(b)) => b.visibility == Visibility::Public ==> forall|j: int|
            0 <= j < b.bindings@.len() ==> exportable(#[trigger] b.bindings@[j]),
        Item::Type(d) => d.visibility != Visibility::Public && forall|i: int|
            0 <= i < d.members@.len() ==> member_rules(d.kind, #[trigger] d.members@[i]),
        _ => true,
    }
}

/// The kind of type that a declaration opened by a token of `kind` declares.
pub open spec fn decl_kind_of(kind: TokenKind) -> Option<TypeKind> {
    match kind {
        TokenKind::Keyword(Keyword::Class) => Some(TypeKind::Class),
        TokenKind::Keyword(Keyword::Record) => Some(TypeKind::Record),
        TokenKind::Keyword(Keyword::Object) => Some(TypeKind::Object),
        TokenKind::Keyword(Keyword::Interface) => Some(TypeKind::Interface),
        TokenKind::Keyword(Keyword::Enum) => Some(TypeKind::Enum),
        _ => None,
    }
}

/// At `i`: a type keyword and a name, neither type parameters nor `with`
/// bounds, then (across newlines) `{`, and (across newlines) `}`.
pub open spec fn empty_type_body_at(tokens: Seq<Token>, i: int) -> bool {
    let open = super::newline_run(tokens, i + 2);
    &&& decl_kind_of(tokens[i].kind) is Some
    &&& tokens[i + 1].kind == TokenKind::Identifier
    &&& tokens[i + 2].kind != TokenKind::LBracket
    &&& tokens[i + 2].kind != TokenKind::Keyword(Keyword::With)
    &&& tokens[open].kind == TokenKind::LBrace
    &&& tokens[super::newline_run(tokens, open + 1)].kind == TokenKind::RBrace
}

/// At `i`: a field `name Type` (a plain type name) with no initializer.
pub open spec fn simple_field_at(tokens: Seq<Token>, i: int) -> bool {
    &&& tokens[i].kind == TokenKind::Identifier
    &&& tokens[i + 1].kind == TokenKind::Identifier
    &&& tokens[i + 2].kind != TokenKind::LBracket && tokens[i + 2].kind != TokenKind::Arrow
    &&& tokens[i + 2].kind != TokenKind::Eq && tokens[i + 2].kind != TokenKind::ColonAssign
}

/// Where the return type stands in `def name(params) Type` at `i`: just
/// past a simple parameter list (`i + 2` when none opens there).
pub open spec fn ret_at(tokens: Seq<Token>, i: int) -> int {
    super::types::simple_params_end(tokens, i + 2)
}

/// At `i`: a method `def name() Type {` with `}` after (across newlines)
/// the `{`.
pub open spec fn empty_method_at(tokens: Seq<Token>, i: int) -> bool {
    &&& tokens[i].kind == TokenKind::Keyword(Keyword::Def)
    &&& tokens[i + 1].kind == TokenKind::Identifier
    &&& ret_at(tokens, i) > i + 2
    &&& tokens[ret_at(tokens, i)].kind == TokenKind::Identifier
    &&& tokens[ret_at(tokens, i) + 1].kind == TokenKind::LBrace
    &&& tokens[super::newline_run(tokens, ret_at(tokens, i) + 2)].kind == TokenKind::RBrace
}

/// Where a simple member at `i` (a field or a method as above) ends; `i`
/// itself when there is none.
pub open spec fn simple_member_end(tokens: Seq<Token>, i: int) -> int {
    if simple_field_at(tokens, i) {
        i + 2
    } else if empty_method_at(tokens, i) {
        super::newline_run(tokens, ret_at(tokens, i) + 2) + 1
    } else {
        i
    }
}

/// The member that the simple member at `i` spells.
pub open spec fn simple_member_spelled(tokens: Seq<Token>, i: int, m: TypeMember) -> bool {
    if simple_field_at(tokens, i) {
        m matches TypeMember::Field(f) && f.name@ == tokens[i].lexeme@ && !f.mutable && f.initializer is None
            && (f.ty matches Some(TypeRef::Named { name, args, .. }) && name@ == tokens[i + 1].lexeme@
                && args@.len() == 0)
    } else if empty_method_at(tokens, i) {
        m matches TypeMember::Method(md) && md.name@ == tokens[i + 1].lexeme@ && super::types::params_spelled(tokens, i + 2, md.params@)
            && (md.body matches Some(CallableBody::Block(b)) && b.statements@.len() == 0)
    } else {
        false
    }
}

/// From `i`, across newlines: simple members up to a `}`: where each starts.
pub open spec fn simple_members_from(tokens: Seq<Token>, i: int) -> Option<Seq<int>>
    decreases tokens.len() - i,
{
    let s = super::newline_run(tokens, i);
    if i < 0 || s < i || s >= tokens.len() {
        None
    } else if tokens[s].kind == TokenKind::RBrace {
        Some(Seq::empty())
    } else {
        let e = simple_member_end(tokens, s);
        if s < e <= tokens.len() {
            match simple_members_from(tokens, e) {
                Some(rest) => Some(seq![s] + rest),
                None => None,
            }
        } else {
            None
        }
    }
}

/// Where the `}` after the simple members from `i` stands.
pub open spec fn simple_members_close(tokens: Seq<Token>, i: int) -> int
    decreases tokens.len() - i,
{
    let s = super::newline_run(tokens, i);
    if i < 0 || s < i || s >= tokens.len() || tokens[s].kind == TokenKind::RBrace {
        s
    } else {
        let e = simple_member_end(tokens, s);
        if s < e <= tokens.len() {
            simple_members_close(tokens, e)
        } else {
            s
        }
    }
}

/// A run of simple members ends at a `}`.
pub proof fn lemma_simple_members_close(tokens: Seq<Token>, i: int)
    requires
        simple_members_from(tokens, i) is Some,
    ensures
        0 <= simple_members_close(tokens, i) < tokens.len(),
        tokens[simple_members_close(tokens, i)].kind == TokenKind::RBrace,
    decreases tokens.len() - i,
{
    let s = super::newline_run(tokens, i);
    if tokens[s].kind != TokenKind::RBrace {
        lemma_simple_members_close(tokens, simple_member_end(tokens, s));
    }
}

/// At `i`: a type declaration whose body holds only simple members: where
/// the members start.
pub open spec fn simple_type_decl_at(tokens: Seq<Token>, i: int) -> Option<Seq<int>> {
    let open = super::newline_run(tokens, i + 2);
    if decl_kind_of(tokens[i].kind) is Some && tokens[i + 1].kind == TokenKind::Identifier
        && tokens[i + 2].kind != TokenKind::LBracket && tokens[i + 2].kind != TokenKind::Keyword(Keyword::With)
        && tokens[open].kind == TokenKind::LBrace {
        simple_members_from(tokens, open + 1)
    } else {
        None
    }
}

/// At `i`: `impl Name {` (a plain type name), then only simple methods up to
/// the `}`: where the methods start.
pub open spec fn simple_impl_at(tokens: Seq<Token>, i: int) -> Option<Seq<int>> {
    let open = super::newline_run(tokens, i + 2);
    if tokens[i].kind == TokenKind::Keyword(Keyword::Impl) && tokens[i + 1].kind == TokenKind::Identifier
        && tokens[i + 2].kind != TokenKind::LBracket && tokens[i + 2].kind != TokenKind::Arrow
        && tokens[i + 2].kind != TokenKind::Dot && tokens[open].kind == TokenKind::LBrace
        && simple_members_from(tokens, open + 1) is Some
        && forall|k: int| 0 <= k < simple_members_from(tokens, open + 1)->Some_0.len()
            ==> empty_method_at(tokens, #[trigger] simple_members_from(tokens, open + 1)->Some_0[k]) {
        simple_members_from(tokens, open + 1)
    } else {
        None
    }
}

/// At `i`: `def name() Type`, a plain type name, then (across newlines)
/// `{` and (across newlines) `}`.
pub open spec fn empty_function_at(tokens: Seq<Token>, i: int) -> bool {
    let open = super::newline_run(tokens, ret_at(tokens, i) + 1);
    &&& tokens[i].kind == TokenKind::Keyword(Keyword::Def)
    &&& tokens[i + 1].kind == TokenKind::Identifier
    &&& ret_at(tokens, i) > i + 2
    &&& tokens[ret_at(tokens, i)].kind == TokenKind::Identifier
    &&& tokens[ret_at(tokens, i) + 1].kind != TokenKind::LBracket
    &&& tokens[ret_at(tokens, i) + 1].kind != TokenKind::Arrow
    &&& tokens[open].kind == TokenKind::LBrace
    &&& tokens[super::newline_run(tokens, open + 1)].kind == TokenKind::RBrace
}

/// At `i`: `def name() Type = <integer>`, with a plain type name, where
/// only newlines and then a closing token (such as the end of input) follow
/// the integer.
pub open spec fn integer_function_at(tokens: Seq<Token>, i: int) -> bool {
    let eq = super::newline_run(tokens, ret_at(tokens, i) + 1);
    &&& tokens[i].kind == TokenKind::Keyword(Keyword::Def)
    &&& tokens[i + 1].kind == TokenKind::Identifier
    &&& ret_at(tokens, i) > i + 2
    &&& tokens[ret_at(tokens, i)].kind == TokenKind::Identifier
    &&& tokens[ret_at(tokens, i) + 1].kind != TokenKind::LBracket
    &&& tokens[ret_at(tokens, i) + 1].kind != TokenKind::Arrow
    &&& tokens[eq].kind == TokenKind::Eq
    &&& super::closed_lone_integer_from(tokens, eq + 1)
}

/// Where the integer of an integer-bodied function at `i` stands.
pub open spec fn body_integer_at(tokens: Seq<Token>, i: int) -> int {
    super::newline_run(tokens, super::newline_run(tokens, ret_at(tokens, i) + 1) + 1)
}

/// Where a simple declaration at `i` ends: just past the `}` of an empty
/// function or of a type body of simple members, or at the token that closes
/// an integer-bodied function; `i` itself when there is none at `i`.
pub open spec fn simple_decl_end(tokens: Seq<Token>, i: int) -> int {
    if empty_function_at(tokens, i) {
        super::newline_run(tokens, super::newline_run(tokens, ret_at(tokens, i) + 1) + 1) + 1
    } else if integer_function_at(tokens, i) {
        super::newline_run(tokens, body_integer_at(tokens, i) + 1)
    } else if simple_type_decl_at(tokens, i) is Some || simple_impl_at(tokens, i) is Some {
        simple_members_close(tokens, super::newline_run(tokens, i + 2) + 1) + 1
    } else {
        i
    }
}

/// The item that the simple declaration at `i` stands for.
pub open spec fn simple_decl_item(tokens: Seq<Token>, i: int, item: Item) -> bool {
    if empty_function_at(tokens, i) {
        item matches Item::Function(f) && f.name@ == tokens[i + 1].lexeme@ && super::types::params_spelled(tokens, i + 2, f.params@)
            && (f.body matches CallableBody::Block(b) && b.statements@.len() == 0)
    } else if integer_function_at(tokens, i) {
        item matches Item::Function(f) && f.name@ == tokens[i + 1].lexeme@ && super::types::params_spelled(tokens, i + 2, f.params@)
            && (f.body matches CallableBody::Expr(Expr::Integer { raw, .. })
                && raw@ == tokens[body_integer_at(tokens, i)].lexeme@)
    } else if simple_type_decl_at(tokens, i) is Some {
        item matches Item::Type(d) && Some(d.kind) == decl_kind_of(tokens[i].kind)
            && d.name@ == tokens[i + 1].lexeme@
            && d.members@.len() == simple_type_decl_at(tokens, i)->Some_0.len()
            && forall|k: int| 0 <= k < d.members@.len() ==> simple_member_spelled(tokens,
                #[trigger] simple_type_decl_at(tokens, i)->Some_0[k], d.members@[k])
    } else if simple_impl_at(tokens, i) is Some {
        item matches Item::Impl(b)
            && (b.target matches TypeRef::Named { name, args, .. } && name@ == tokens[i + 1].lexeme@ && args@.len() == 0)
            && b.methods@.len() == simple_impl_at(tokens, i)->Some_0.len()
            && forall|k: int| 0 <= k < b.methods@.len() ==> simple_member_spelled(tokens,
                #[trigger] simple_impl_at(tokens, i)->Some_0[k], TypeMember::Method(b.methods@[k]))
    } else {
        false
    }
}

/// The input from `i` on is, across newlines, a run of simple declarations
/// closed by the end of input: where each of them starts.
pub open spec fn simple_decls_from(tokens: Seq<Token>, i: int) -> Option<Seq<int>>
    decreases tokens.len() - i,
{
    let s = super::newline_run(tokens, i);
    if i < 0 || s < i || s >= tokens.len() {
        None
    } else if tokens[s].kind == TokenKind::Eof {
        Some(Seq::empty())
    } else {
        let e = simple_decl_end(tokens, s);
        if s < e <= tokens.len() {
            match simple_decls_from(tokens, e) {
                Some(rest) => Some(seq![s] + rest),
                None => None,
            }
        } else {
            None
        }
    }
}

/// At `i`: an identifier, after at most one `public` or `hidden`; a binding
/// is tried there, and the stretch is skipped without a diagnostic when none
/// can be read.
pub open spec fn silent_item_start(tokens: Seq<Token>, i: int) -> bool {
    let k = tokens[i].kind;
    if k == TokenKind::Keyword(Keyword::Public) || k == TokenKind::Keyword(Keyword::Hidden) {
        tokens[i + 1].kind == TokenKind::Identifier
    } else {
        k == TokenKind::Identifier
    }
}

/// What the top-level item whose first token stands at `i` is, read from
/// that token: `def` gives a function named by the next token (when that is a
/// name), a type keyword a type of that kind and name, `impl` an impl block,
/// a name a binding statement; annotations and visibility
/// modifiers (`@`, `public`, `hidden`) leave the kind to the tokens after them;
/// anything else gives a statement.
pub open spec fn item_headed_at(tokens: Seq<Token>, i: int, item: Item) -> bool {
    let k = tokens[i].kind;
    if k == TokenKind::At || k == TokenKind::Keyword(Keyword::Public) || k == TokenKind::Keyword(Keyword::Hidden) {
        true
    } else if k == TokenKind::Keyword(Keyword::Def) {
        item matches Item::Function(f) && (tokens[i + 1].kind == TokenKind::Identifier
            ==> f.name@ == tokens[i + 1].lexeme@)
    } else if decl_kind_of(k) is Some {
        item matches Item::Type(d) && Some(d.kind) == decl_kind_of(k) && d.name@ == tokens[i + 1].lexeme@
    } else if k == TokenKind::Keyword(Keyword::Impl) {
        item is Impl
    } else if k == TokenKind::Identifier {
        item matches Item::Statement(Stmt::Binding(_))
    } else {
        item is Statement
    }
}

/// How many of `slots` name an item (are not negative).
pub open spec fn items_in(slots: Seq<int>) -> nat
    decreases slots.len(),
{
    if slots.len() == 0 {
        0
    } else {
        items_in(slots.drop_last()) + if slots.last() >= 0 { 1nat } else { 0nat }
    }
}

/// What top-level stretch `k`, which starts at `cuts[k]`, gave: the next
/// item in order (`slots[k]`, its number), headed by the stretch's first
/// token; nothing and no diagnostic (`-1`), only where `silent_item_start` holds; or nothing, with a
/// diagnostic reported (`-2`).
pub open spec fn stretch_read(
    tokens: Seq<Token>,
    items: Seq<Item>,
    cuts: Seq<int>,
    slots: Seq<int>,
    k: int,
    reported: nat,
) -> bool {
    if slots[k] >= 0 {
        slots[k] == items_in(slots.take(k)) && slots[k] < items.len()
            && item_headed_at(tokens, cuts[k], items[slots[k]])
    } else if slots[k] == -1 {
        silent_item_start(tokens, cuts[k])
    } else {
        slots[k] == -2 && reported > 0
    }
}

/// The input after `header` read so far as top-level stretches: stretch `k`
/// runs from `cuts[k]` to before `ends[k]`; the first starts after the
/// newlines that follow `header`, each next one after the newlines that
/// follow the one before; each gave what `stretch_read` says, and the items
/// are exactly those the stretches gave, in order.
pub open spec fn stretches_read(
    tokens: Seq<Token>,
    items: Seq<Item>,
    header: int,
    cuts: Seq<int>,
    ends: Seq<int>,
    slots: Seq<int>,
    reported: nat,
) -> bool {
    &&& cuts.len() == ends.len() && slots.len() == cuts.len()
    &&& items.len() == items_in(slots)
    &&& forall|k: int| 0 <= k < cuts.len() ==> cuts[k] < ends[k]
    &&& forall|k: int| 0 <= k < cuts.len() ==> #[trigger] stretch_read(tokens, items, cuts, slots, k, reported)
    &&& cuts.len() > 0 ==> cuts[0] == super::newline_run(tokens, header)
    &&& forall|k: int| 0 <= k < cuts.len() - 1 ==> #[trigger] cuts[k + 1] == super::newline_run(tokens, ends[k])
}

/// Where the stretches read so far end (`header` when there are none).
pub open spec fn layout_end(header: int, ends: Seq<int>) -> int {
    if ends.len() == 0 {
        header
    } else {
        ends.last()
    }
}

/// The whole input after `header` is read as top-level stretches: only
/// newlines follow the last one up to the end-of-file token.
pub open spec fn program_layout(
    tokens: Seq<Token>,
    items: Seq<Item>,
    header: int,
    cuts: Seq<int>,
    ends: Seq<int>,
    slots: Seq<int>,
    reported: nat,
) -> bool {
    &&& stretches_read(tokens, items, header, cuts, ends, slots, reported)
    &&& tokens[super::newline_run(tokens, layout_end(header, ends))].kind == TokenKind::Eof
}

/// A count of reported problems that grows keeps what was read.
pub proof fn lemma_stretches_reported(
    tokens: Seq<Token>,
    items: Seq<Item>,
    header: int,
    cuts: Seq<int>,
    ends: Seq<int>,
    slots: Seq<int>,
    reported: nat,
    later: nat,
)
    requires
        stretches_read(tokens, items, header, cuts, ends, slots, reported),
        reported <= later,
    ensures
        stretches_read(tokens, items, header, cuts, ends, slots, later),
{
    assert forall|k: int| 0 <= k < cuts.len() implies #[trigger] stretch_read(tokens, items, cuts, slots, k, later) by {
        assert(stretch_read(tokens, items, cuts, slots, k, reported));
    }
}

/// One more stretch, starting after the newlines that follow the last one,
/// keeps what was read: `item` is pushed when `slot` numbers it.
pub proof fn lemma_stretches_push(
    tokens: Seq<Token>,
    items: Seq<Item>,
    header: int,
    cuts: Seq<int>,
    ends: Seq<int>,
    slots: Seq<int>,
    reported: nat,
    start: int,
    end: int,
    slot: int,
    item: Item,
)
    requires
        stretches_read(tokens, items, header, cuts, ends, slots, reported),
        start == super::newline_run(tokens, layout_end(header, ends)),
        start < end,
        slot >= 0 ==> slot == items.len() && item_headed_at(tokens, start, item),
        slot == -1 ==> (silent_item_start(tokens, start)),
        slot < 0 ==> slot == -1 || (slot == -2 && reported > 0),
    ensures
        stretches_read(tokens, if slot >= 0 { items.push(item) } else { items }, header,
            cuts.push(start), ends.push(end), slots.push(slot), reported),
{
    let n = cuts.len() as int;
    let items2 = if slot >= 0 { items.push(item) } else { items };
    let cuts2 = cuts.push(start);
    let ends2 = ends.push(end);
    let slots2 = slots.push(slot);
    assert(slots2.drop_last() =~= slots);
    assert(slots2.take(n) =~= slots);
    assert forall|k: int| 0 <= k < cuts2.len() implies #[trigger] stretch_read(tokens, items2, cuts2, slots2, k, reported) by {
        if k < n {
            assert(stretch_read(tokens, items, cuts, slots, k, reported));
            assert(slots2.take(k) =~= slots.take(k));
            assert(slots2[k] == slots[k] && cuts2[k] == cuts[k]);
            if slots[k] >= 0 {
                assert(items2[slots[k]] == items[slots[k]]);
            }
        }
    }
    assert forall|k: int| 0 <= k < cuts2.len() - 1 implies #[trigger] cuts2[k + 1] == super::newline_run(tokens, ends2[k]) by {
        if k + 1 < n {
            assert(cuts2[k + 1] == cuts[k + 1] && ends2[k] == ends[k]);
        }
    }
}

/// The segments joined with `/` between them.
pub(crate) fn join_segments(segments: &Vec<String>) -> (s: String)
    ensures
        s@ == joined(segments@, segments@.len() as int),
{
    let mut path = String::new();
    let mut i: usize = 0;
    while i < segments.len()
        invariant
            i <= segments@.len(),
            path@ == joined(segments@, i as int),
        decreases segments@.len() - i,
    {
        if i > 0 {
            path = concat_str(path, "/");
        }
        path = concat_strings(path, &segments[i]);
        proof {
            reveal_strlit("/");
            if i == 0 {
                assert(path@ =~= segments@[0]@);
            } else {
                assert("/"@ =~= seq!['/']);
            }
        }
        i = i + 1;
    }
    path
}

impl<'a> Parser<'a> {
    /// `module a/b`; the keyword is already consumed.
    pub(crate) fn parse_module_decl(&mut self) -> (r: Option<ModuleDecl>)
        requires
            old(self).wf(),
        ensures
            r is None ==> final(self).diagnostics@.len() > old(self).diagnostics@.len(),
            final(self).follows(*old(self)),
            r is Some ==> final(self).index > old(self).index,
            old(self).cur_kind() != TokenKind::Identifier ==> r is None,
            old(self).cur_kind() == TokenKind::Identifier && old(self).kind_at(old(self).index + 1) != TokenKind::Slash
                ==> (r matches Some(m) && m.name@ == old(self).tokens@[old(self).index as int].lexeme@),
    {
        let start = self.previous_span();
        let name = self.parse_path_string()?;
        let end = self.last_non_newline_span(start);
        Some(ModuleDecl { name, span: start.cover(end) })
    }

    /// `import a/b`, `import a/b/*`, `import a/b/{X, Y as Z}`,
    /// `import a/b/Sym as Alias` or `import a/b/Obj/{...}`; the keyword is
    /// already consumed.
    pub(crate) fn parse_import_decl(&mut self) -> (r: Option<ImportDecl>)
        requires
            old(self).wf(),
        ensures
            r is None ==> final(self).diagnostics@.len() > old(self).diagnostics@.len(),
            final(self).follows(*old(self)),
            r is Some ==> final(self).index > old(self).index,
    {
        let start = self.previous_span();
        let (segments, seg_span) = self.parse_import_segments("expected import path")?;
        let mut span = seg_span;
        let mut import = ImportDecl {
            path: String::new(),
            object_name: None,
            wildcard: false,
            symbols: Vec::new(),
            span: start,
        };

        match self.current_kind() {
            TokenKind::Slash => {
                self.advance();
                match self.current_kind() {
                    TokenKind::Star => {
                        let end = self.current_span();
                        self.advance();
                        import.path = join_segments(&segments);
                        import.wildcard = true;
                        span = span.cover(end);
                    },
                    TokenKind::LBrace => {
                        self.advance();
                        import.path = join_segments(&segments);
                        let (symbols, symbols_span) = self.parse_import_symbol_list()?;
                        import.symbols = symbols;
                        span = span.cover(symbols_span);
                    },
                    TokenKind::Identifier => {
                        let (name, name_span) = self.expect_identifier(
                            "expected import symbol, '*', or '{' after '/'",
                        )?;
                        if self.match_token(TokenKind::Slash) {
                            import.path = join_segments(&segments);
                            import.object_name = Some(name);
                            if self.match_token(TokenKind::Star) {
                                import.wildcard = true;
                                span = span.cover(self.previous_span());
                            } else if self.match_token(TokenKind::LBrace) {
                                let (symbols, symbols_span) = self.parse_import_symbol_list()?;
                                import.symbols = symbols;
                                span = span.cover(symbols_span);
                            } else {
                                self.error_at_current(
                                    "unexpected_token",
                                    "expected object member import '*', or '{'",
                                );
                                return None;
                            }
                            span = span.cover(name_span);
                        } else {
                            import.path = join_segments(&segments);
                            let mut symbol = ImportSymbol { name, alias: None, span: name_span };
                            if self.match_keyword(Keyword::As) {
                                let (alias, alias_span) = self.expect_identifier("expected alias after 'as'")?;
                                symbol.alias = Some(alias);
                                symbol.span = symbol.span.cover(alias_span);
                            }
                            span = span.cover(symbol.span);
                            import.symbols.push(symbol);
                        }
                    },
                    _ => {
                        self.error_at_current(
                            "unexpected_token",
                            "expected import symbol, '*', or '{' after '/'",
                        );
                        return None;
                    },
                }
            },
            _ => {
                import.path = join_segments(&segments);
            },
        }

        import.span = start.cover(span);
        Some(import)
    }

    /// A function, a type declaration, an impl block, a top-level binding or
    /// a statement, with its annotations and visibility.
    pub(crate) fn parse_item(&mut self) -> (r: Option<Item>)
        requires
            old(self).wf(),
        ensures
            final(self).follows(*old(self)),
            r is Some ==> final(self).index > old(self).index,
            r matches Some(item) ==> item_rules(item),
            old(self).at_closed_lone_integer() ==> (r matches Some(Item::Statement(Stmt::Expr(s)))
                && old(self).parsed_lone_integer(Some(s.expr), *final(self))),
            old(self).cur_kind() != TokenKind::Newline
                ==> (r matches Some(item) ==> item_headed_at(old(self).tokens@, old(self).index as int, item)),
            r is None && final(self).diagnostics@.len() == old(self).diagnostics@.len()
                && old(self).cur_kind() != TokenKind::Newline ==> silent_item_start(old(self).tokens@, old(self).index as int),
            simple_decl_end(old(self).tokens@, old(self).index as int) > old(self).index ==> (r matches Some(item)
                && simple_decl_item(old(self).tokens@, old(self).index as int, item)
                && old(self).index < final(self).index <= simple_decl_end(old(self).tokens@, old(self).index as int)
                && super::newline_run(old(self).tokens@, final(self).index as int)
                    == super::newline_run(old(self).tokens@, simple_decl_end(old(self).tokens@, old(self).index as int))
                && final(self).diagnostics@ == old(self).diagnostics@),
    {
        let ghost simple = simple_decl_end(old(self).tokens@, old(self).index as int) > old(self).index;
        proof {
            if simple {
                assert(old(self).cur_kind() != TokenKind::Newline);
                assert(super::newline_run(old(self).tokens@, old(self).index as int) == old(self).index);
            }
        }
        let annotations = self.parse_annotations()?;
        let visibility = self.parse_visibility();
        assert(simple ==> self.index == old(self).index && self.diagnostics@ == old(self).diagnostics@
            && visibility == Visibility::Default);
        match self.current_kind() {
            TokenKind::Keyword(Keyword::Def) => {
                let function = self.parse_function_decl(annotations, visibility)?;
                proof {
                    let t = old(self).tokens@;
                    let i = old(self).index as int;
                    if simple && integer_function_at(t, i) {
                        super::lemma_newline_run_from_inside(t, body_integer_at(t, i) + 1, self.index as int);
                    }
                }
                Some(Item::Function(function))
            },
            TokenKind::Keyword(Keyword::Class)
            | TokenKind::Keyword(Keyword::Record)
            | TokenKind::Keyword(Keyword::Object)
            | TokenKind::Keyword(Keyword::Interface)
            | TokenKind::Keyword(Keyword::Enum) => {
                if visibility == Visibility::Public {
                    self.error_at_current(
                        "unexpected_visibility",
                        "'public' is only supported for top-level functions and immutable bindings",
                    );
                    return None;
                }
                let decl = self.parse_type_decl(annotations, visibility)?;
                Some(Item::Type(decl))
            },
            TokenKind::Keyword(Keyword::Impl) => {
                if annotations.len() > 0 {
                    self.error_at_current("unexpected_annotation", "impl blocks do not accept annotations");
                    return None;
                }
                if visibility != Visibility::Default {
                    self.error_at_current(
                        "unexpected_visibility",
                        "impl blocks do not accept visibility modifiers",
                    );
                    return None;
                }
                let block = self.parse_impl_block()?;
                Some(Item::Impl(block))
            },
            _ => {
                if visibility == Visibility::Public && self.at_keyword(Keyword::Var) {
                    self.error_at_current(
                        "unexpected_visibility",
                        "'public' is only supported for immutable named top-level bindings",
                    );
                    return None;
                }
                if self.is_binding_start() {
                    if annotations.len() > 0 {
                        self.error_at_current(
                            "unexpected_annotation",
                            "annotations are not supported on bindings yet",
                        );
                        return None;
                    }
                    let mut stmt = self.try_parse_binding_stmt()?;
                    if visibility == Visibility::Public {
                        let mut i: usize = 0;
                        while i < stmt.bindings.len()
                            invariant
                                self.follows(*old(self)),
                                self.index > old(self).index,
                                i <= stmt.bindings@.len(),
                                forall|j: int| 0 <= j < i ==> exportable(#[trigger] stmt.bindings@[j]),
                                !old(self).at_closed_lone_integer(),
                                simple_decl_end(old(self).tokens@, old(self).index as int) <= old(self).index,
                            decreases stmt.bindings@.len() - i,
                        {
                            let binding = &stmt.bindings[i];
                            if string_is(&binding.name, "_") || binding.mutable {
                                self.error_at_current(
                                    "unexpected_visibility",
                                    "'public' is only supported for immutable named top-level bindings",
                                );
                                return None;
                            }
                            i = i + 1;
                        }
                    }
                    stmt.visibility = visibility;
                    return Some(Item::Statement(Stmt::Binding(stmt)));
                }
                if annotations.len() > 0 {
                    self.error_at_current(
                        "unexpected_annotation",
                        "annotations are only valid on declarations",
                    );
                    return None;
                }
                if visibility != Visibility::Default {
                    if visibility == Visibility::Public {
                        self.error_at_current(
                            "unexpected_visibility",
                            "'public' is only supported for top-level functions and immutable bindings",
                        );
                    } else {
                        self.error_at_current(
                            "unexpected_visibility",
                            "visibility modifiers are only valid on declarations",
                        );
                    }
                    return None;
                }
                match self.parse_stmt() {
                    Some(stmt) => Some(Item::Statement(stmt)),
                    None => None,
                }
            },
        }
    }

    pub(crate) fn parse_visibility(&mut self) -> (v: Visibility)
        requires
            old(self).wf(),
        ensures
            final(self).follows(*old(self)),
            v == Visibility::Public <==> old(self).cur_kind() == TokenKind::Keyword(Keyword::Public),
            v == Visibility::Hidden <==> old(self).cur_kind() == TokenKind::Keyword(Keyword::Hidden),
            v != Visibility::Default ==> final(self).index == old(self).index + 1,
            v == Visibility::Default ==> final(self).index == old(self).index,
            final(self).diagnostics == old(self).diagnostics,
    {
        if self.match_keyword(Keyword::Public) {
            Visibility::Public
        } else if self.match_keyword(Keyword::Hidden) {
            Visibility::Hidden
        } else {
            Visibility::Default
        }
    }

    /// `@expr` annotations, each possibly on its own line.
    pub(crate) fn parse_annotations(&mut self) -> (r: Option<Vec<Annotation>>)
        requires
            old(self).wf(),
        ensures
            r is None ==> final(self).diagnostics@.len() > old(self).diagnostics@.len(),
            final(self).follows(*old(self)),
            ({
                let l = super::newline_run(old(self).tokens@, old(self).index as int);
                old(self).kind_at(l) != TokenKind::At ==> (r matches Some(v) && v@.len() == 0 && final(self).index == l)
            }),
            r matches Some(v) && v@.len() > 0 ==> final(self).index > old(self).index,
            old(self).kind_at(super::newline_run(old(self).tokens@, old(self).index as int)) != TokenKind::At
                ==> final(self).diagnostics@ == old(self).diagnostics@,
            r matches Some(v) && v@.len() == 0 ==> final(self).index == super::newline_run(old(self).tokens@,
                old(self).index as int) && final(self).diagnostics@ == old(self).diagnostics@,
        decreases old(self).bound@, old(self).remaining(), 1nat,
    {
        let mut annotations: Vec<Annotation> = Vec::new();
        loop
            invariant_except_break
                annotations@.len() == 0 ==> self.index == old(self).index && self.diagnostics@ == old(self).diagnostics@,
                annotations@.len() > 0 ==> self.index > old(self).index,
            invariant
                self.follows(*old(self)),
                annotations@.len() > 0 ==> old(self).kind_at(super::newline_run(old(self).tokens@, old(self).index as int))
                    == TokenKind::At,
            ensures
                self.follows(*old(self)),
                annotations@.len() == 0 ==> self.diagnostics@ == old(self).diagnostics@,
                annotations@.len() == 0 ==> self.index == super::newline_run(old(self).tokens@, old(self).index as int)
                    && old(self).kind_at(self.index as int) != TokenKind::At,
                annotations@.len() > 0 ==> self.index > old(self).index,
            decreases self.remaining(),
        {
            self.skip_newlines();
            if !self.match_token(TokenKind::At) {
                break;
            }
            let start = self.previous_span();
            let value = self.parse_expr()?;
            let span = start.cover(value.span());
            annotations.push(Annotation { span, value });
        }
        Some(annotations)
    }

    /// The lowercase `/`-separated segments of an import path.
    pub(crate) fn parse_import_segments(&mut self, message: &str) -> (r: Option<(Vec<String>, Span)>)
        requires
            old(self).wf(),
        ensures
            r is None ==> final(self).diagnostics@.len() > old(self).diagnostics@.len(),
            final(self).follows(*old(self)),
            r is Some ==> final(self).index > old(self).index,
            r is Some <==> old(self).cur_kind() == TokenKind::Identifier,
            r matches Some((segments, _)) ==> segments@.len() >= 1
                && segments@[0]@ == old(self).tokens@[old(self).index as int].lexeme@,
    {
        let (first, start) = self.expect_identifier(message)?;
        let mut segments: Vec<String> = vec![first];
        let mut span = start;
        while self.at(TokenKind::Slash) && self.at_next(TokenKind::Identifier) && starts_lower(
            self.tokens[self.index + 1].lexeme.as_str(),
        )
            invariant
                self.follows(*old(self)),
                self.index > old(self).index,
                old(self).cur_kind() == TokenKind::Identifier,
                segments@.len() >= 1,
                segments@[0]@ == old(self).tokens@[old(self).index as int].lexeme@,
            decreases self.remaining(),
        {
            self.advance();
            let (segment, next_span) = self.expect_identifier("expected path segment after '/'")?;
            segments.push(segment);
            span = span.cover(next_span);
        }
        Some((segments, span))
    }

    /// `X, Y as Z }` after the `{`.
    pub(crate) fn parse_import_symbol_list(&mut self) -> (r: Option<(Vec<ImportSymbol>, Span)>)
        requires
            old(self).wf(),
        ensures
            r is None ==> final(self).diagnostics@.len() > old(self).diagnostics@.len(),
            final(self).follows(*old(self)),
            r is Some ==> final(self).index > old(self).index,
    {
        let open = self.previous_span();
        let mut symbols = Vec::new();
        loop
            invariant
                self.follows(*old(self)),
            decreases self.remaining(),
        {
            let (name, name_span) = self.expect_identifier("expected import symbol")?;
            let mut symbol = ImportSymbol { name, alias: None, span: name_span };
            if self.match_keyword(Keyword::As) {
                let (alias, alias_span) = self.expect_identifier("expected alias after 'as'")?;
                symbol.alias = Some(alias);
                symbol.span = symbol.span.cover(alias_span);
            }
            symbols.push(symbol);
            if !self.match_token(TokenKind::Comma) {
                break;
            }
        }
        let end = self.consume(TokenKind::RBrace, "expected '}' after import symbol list")?;
        Some((symbols, open.cover(end)))
    }

    /// `def name[T](params) Ret body`.
    pub(crate) fn parse_function_decl(
        &mut self,
        annotations: Vec<Annotation>,
        visibility: Visibility,
    ) -> (r: Option<FunctionDecl>)
        requires
            old(self).wf(),
        ensures
            r is None ==> final(self).diagnostics@.len() > old(self).diagnostics@.len(),
            final(self).follows(*old(self)),
            r is Some ==> final(self).index > old(self).index,
            old(self).cur_kind() == TokenKind::Keyword(Keyword::Def)
                && old(self).kind_at(old(self).index + 1) == TokenKind::Identifier
                ==> (r matches Some(f) ==> f.name@ == old(self).tokens@[old(self).index + 1].lexeme@),
            empty_function_at(old(self).tokens@, old(self).index as int) ==> (r matches Some(f)
                && super::types::params_spelled(old(self).tokens@, old(self).index + 2, f.params@)
                && (f.body matches CallableBody::Block(b) && b.statements@.len() == 0)
                && final(self).index == simple_decl_end(old(self).tokens@, old(self).index as int)
                && final(self).diagnostics@ == old(self).diagnostics@),
            integer_function_at(old(self).tokens@, old(self).index as int) ==> (r matches Some(f)
                && super::types::params_spelled(old(self).tokens@, old(self).index + 2, f.params@)
                && (f.body matches CallableBody::Expr(Expr::Integer { raw, .. })
                    && raw@ == old(self).tokens@[body_integer_at(old(self).tokens@, old(self).index as int)].lexeme@)
                && body_integer_at(old(self).tokens@, old(self).index as int) < final(self).index
                    <= simple_decl_end(old(self).tokens@, old(self).index as int)
                && final(self).diagnostics@ == old(self).diagnostics@),
        decreases old(self).bound@, old(self).remaining(), 1nat,
    {
        let ghost simple = empty_function_at(old(self).tokens@, old(self).index as int)
            || integer_function_at(old(self).tokens@, old(self).index as int);
        let ghost i = old(self).index as int;
        let start = self.consume_keyword(Keyword::Def, "expected 'def'")?;
        let (name, _) = self.parse_callable_name("expected function name")?;
        let type_params = self.parse_type_params()?;
        assert(simple ==> self.index == i + 2 && self.diagnostics == old(self).diagnostics);
        assert(simple ==> ret_at(old(self).tokens@, i) > i + 2);
        assert(simple ==> super::types::simple_params_end(self.tokens@, self.index as int) > self.index);
        let params = self.parse_param_list()?;
        assert(simple ==> self.index == ret_at(old(self).tokens@, i));
        assert(simple ==> self.diagnostics@ == old(self).diagnostics@);
        assert(simple ==> super::types::params_spelled(old(self).tokens@, i + 2, params@));
        let return_type = self.parse_optional_return_type();
        assert(simple ==> self.index == ret_at(old(self).tokens@, i) + 1 && self.diagnostics@ == old(self).diagnostics@);
        let body = self.parse_callable_body()?;
        let end = body.span();
        Some(FunctionDecl {
            annotations,
            visibility,
            name,
            type_params,
            params,
            return_type,
            body,
            span: start.cover(end),
        })
    }

    /// `class`, `record`, `object`, `interface` or `enum` with its members.
    pub(crate) fn parse_type_decl(
        &mut self,
        annotations: Vec<Annotation>,
        visibility: Visibility,
    ) -> (r: Option<TypeDecl>)
        requires
            old(self).wf(),
        ensures
            r is None ==> final(self).diagnostics@.len() > old(self).diagnostics@.len(),
            final(self).follows(*old(self)),
            r is Some ==> final(self).index > old(self).index,
            r matches Some(d) ==> Some(d.kind) == decl_kind_of(old(self).cur_kind())
                && old(self).kind_at(old(self).index + 1) == TokenKind::Identifier
                && d.name@ == old(self).tokens@[old(self).index + 1].lexeme@
                && d.annotations == annotations && d.visibility == visibility
                && final(self).kind_at(final(self).index - 1) == TokenKind::RBrace
                && d.span == spec_cover(old(self).tokens@[old(self).index as int].span,
                    final(self).tokens@[final(self).index - 1].span),
            decl_kind_of(old(self).cur_kind()) is None ==> r is None,
            r matches Some(d) ==> forall|i: int| 0 <= i < d.members@.len() ==> member_rules(d.kind, #[trigger] d.members@[i]),
            empty_type_body_at(old(self).tokens@, old(self).index as int) ==> (r matches Some(d)
                && d.members@.len() == 0 && final(self).diagnostics == old(self).diagnostics),
            simple_type_decl_at(old(self).tokens@, old(self).index as int) matches Some(ps) ==> (r matches Some(d)
                && d.members@.len() == ps.len()
                && (forall|k: int| 0 <= k < ps.len() ==> simple_member_spelled(old(self).tokens@, #[trigger] ps[k], d.members@[k]))
                && final(self).diagnostics@ == old(self).diagnostics@
                && final(self).index == simple_members_close(old(self).tokens@,
                    super::newline_run(old(self).tokens@, old(self).index + 2) + 1) + 1),
    {
        let ghost empty_body = empty_type_body_at(old(self).tokens@, old(self).index as int);
        let ghost close = super::newline_run(old(self).tokens@,
            super::newline_run(old(self).tokens@, old(self).index + 2) + 1);
        let kind = match self.current_kind() {
            TokenKind::Keyword(Keyword::Class) => TypeKind::Class,
            TokenKind::Keyword(Keyword::Record) => TypeKind::Record,
            TokenKind::Keyword(Keyword::Object) => TypeKind::Object,
            TokenKind::Keyword(Keyword::Interface) => TypeKind::Interface,
            TokenKind::Keyword(Keyword::Enum) => TypeKind::Enum,
            _ => {
                self.error_at_current(
                    "expected_type_decl",
                    "expected class, record, object, interface, or enum",
                );
                return None;
            },
        };
        let start = self.current_span();
        self.advance();

        let (name, _) = self.expect_identifier("expected type name")?;
        let type_params = self.parse_type_params()?;
        let with_bounds = if self.match_keyword(Keyword::With) {
            self.parse_type_ref_list()?
        } else {
            Vec::new()
        };
        self.skip_newlines();
        self.consume(TokenKind::LBrace, "expected '{' after type declaration")?;
        self.skip_newlines();

        let mut members: Vec<TypeMember> = Vec::new();
        let ghost sp = simple_type_decl_at(old(self).tokens@, old(self).index as int);
        let ghost all = sp->Some_0;
        let ghost open = super::newline_run(old(self).tokens@, old(self).index + 2);
        let ghost close_s = simple_members_close(old(self).tokens@, open + 1);
        proof {
            if sp is Some {
                lemma_simple_members_close(old(self).tokens@, open + 1);
                super::lemma_newline_run_from_inside(old(self).tokens@, open + 1, self.index as int);
                assert(all.skip(0) =~= all);
            }
        }
        while !self.at(TokenKind::RBrace) && !self.at(TokenKind::Eof)
            invariant
                self.follows(*old(self)),
                self.index > old(self).index,
                forall|i: int| 0 <= i < members@.len() ==> member_rules(kind, #[trigger] members@[i]),
                empty_body == empty_type_body_at(old(self).tokens@, old(self).index as int),
                close == super::newline_run(old(self).tokens@,
                    super::newline_run(old(self).tokens@, old(self).index + 2) + 1),
                empty_body ==> self.index == close && members@.len() == 0
                    && self.diagnostics == old(self).diagnostics,
                sp == simple_type_decl_at(old(self).tokens@, old(self).index as int),
                all == sp->Some_0,
                open == super::newline_run(old(self).tokens@, old(self).index + 2),
                close_s == simple_members_close(old(self).tokens@, open + 1),
                sp is Some ==> {
                    &&& members@.len() <= all.len()
                    &&& simple_members_from(old(self).tokens@, self.index as int) == Some(all.skip(members@.len() as int))
                    &&& simple_members_close(old(self).tokens@, self.index as int) == close_s
                    &&& forall|k: int| 0 <= k < members@.len()
                        ==> simple_member_spelled(old(self).tokens@, #[trigger] all[k], members@[k])
                    &&& self.diagnostics@ == old(self).diagnostics@
                    &&& 0 <= close_s < old(self).tokens@.len() && old(self).tokens@[close_s].kind == TokenKind::RBrace
                },
            ensures
                self.follows(*old(self)),
                forall|i: int| 0 <= i < members@.len() ==> member_rules(kind, #[trigger] members@[i]),
                empty_body ==> self.index == close && members@.len() == 0
                    && self.diagnostics == old(self).diagnostics,
                sp is Some ==> members@.len() == all.len() && self.index == close_s
                    && self.diagnostics@ == old(self).diagnostics@
                    && forall|k: int| 0 <= k < members@.len()
                        ==> simple_member_spelled(old(self).tokens@, #[trigger] all[k], members@[k]),
            decreases self.remaining(),
        {
            let ghost before = self.index;
            self.skip_newlines();
            if self.at(TokenKind::RBrace) {
                proof {
                    if sp is Some {
                        assert(self.index == super::newline_run(old(self).tokens@, before as int));
                        assert(all.skip(members@.len() as int).len() == 0);
                    }
                }
                break;
            }
            let ghost at = self.index as int;
            let ghost n = members@.len() as int;
            let ghost rest = simple_members_from(old(self).tokens@, simple_member_end(old(self).tokens@, at));
            proof {
                if sp is Some {
                    assert(at == super::newline_run(old(self).tokens@, before as int));
                    assert(simple_member_end(old(self).tokens@, at) > at);
                    assert(simple_field_at(old(self).tokens@, at) || empty_method_at(old(self).tokens@, at));
                    assert(rest is Some);
                    assert(all.skip(n) == seq![at] + rest->Some_0);
                    assert((seq![at] + rest->Some_0)[0] == at);
                    assert(all.skip(n)[0] == at);
                    assert(all.skip(n).len() == all.len() - n);
                    assert(n < all.len());
                    assert(all.skip(n)[0] == all[n]);
                    assert(all[n] == at);
                    assert(old(self).tokens@[at].kind != TokenKind::At);
                    assert(super::newline_run(old(self).tokens@, at) == at);
                }
            }
            let member_annotations = self.parse_annotations()?;

            if kind == TypeKind::Enum && self.match_keyword(Keyword::Case) {
                let case_span = self.previous_span();
                if let Some(case_decl) = self.parse_enum_case(member_annotations, case_span) {
                    members.push(TypeMember::Case(case_decl));
                } else {
                    self.synchronize_member();
                }
                self.skip_newlines();
                continue;
            }

            let member_visibility = self.parse_visibility();
            if member_visibility == Visibility::Public {
                let message = match kind {
                    TypeKind::Interface => "public is not allowed inside interfaces",
                    TypeKind::Enum => "public is not allowed on enum members",
                    TypeKind::Class => "public is not allowed on class members",
                    TypeKind::Record => "public is not allowed on record members",
                    TypeKind::Object => "public is not allowed on object members",
                };
                self.error_at_current("unexpected_visibility", message);
                return None;
            }
            match self.current_kind() {
                TokenKind::Keyword(Keyword::Def) => {
                    let method = self.parse_method_decl(
                        member_annotations,
                        member_visibility,
                        kind == TypeKind::Interface,
                    )?;
                    members.push(TypeMember::Method(method));
                },
                _ => {
                    let field = self.parse_field_decl(member_annotations, member_visibility)?;
                    members.push(TypeMember::Field(field));
                },
            }
            let ghost e = self.index as int;
            self.skip_newlines();
            proof {
                if sp is Some {
                    let t = old(self).tokens@;
                    assert(e == simple_member_end(t, at));
                    super::lemma_newline_run_bounded(t, e);
                    super::lemma_newline_run_from_inside(t, e, self.index as int);
                    assert(simple_members_from(t, self.index as int) == rest);
                    assert(simple_members_close(t, self.index as int) == simple_members_close(t, e));
                    assert(all.skip(n + 1) =~= all.skip(n).skip(1));
                    assert((seq![at] + rest->Some_0).skip(1) =~= rest->Some_0);
                    assert(simple_member_spelled(t, all[n], members@[n]));
                }
            }
        }

        let end = self.consume(TokenKind::RBrace, "expected '}' after type body")?;
        Some(TypeDecl {
            annotations,
            visibility,
            kind,
            name,
            type_params,
            with_bounds,
            members,
            span: start.cover(end),
        })
    }

    /// `Name` or `Name { fields }` after `case`.
    pub(crate) fn parse_enum_case(&mut self, annotations: Vec<Annotation>, case_span: Span) -> (r: Option<EnumCaseDecl>)
        requires
            old(self).wf(),
        ensures
            r is None ==> final(self).diagnostics@.len() > old(self).diagnostics@.len(),
            final(self).follows(*old(self)),
            r is Some ==> final(self).index > old(self).index,
    {
        let (name, name_span) = self.expect_identifier("expected enum case name")?;
        let mut fields = Vec::new();
        self.skip_newlines();
        if self.match_token(TokenKind::LBrace) {
            self.skip_newlines();
            while !self.at(TokenKind::RBrace) && !self.at(TokenKind::Eof)
                invariant
                    self.follows(*old(self)),
                    self.index > old(self).index,
                decreases self.remaining(),
            {
                let field_annotations = self.parse_annotations()?;
                let field_visibility = self.parse_visibility();
                let field = self.parse_field_decl(field_annotations, field_visibility)?;
                fields.push(field);
                self.skip_newlines();
            }
            let end = self.consume(TokenKind::RBrace, "expected '}' after enum case body")?;
            return Some(EnumCaseDecl { annotations, name, fields, span: case_span.cover(end) });
        }
        Some(EnumCaseDecl { annotations, name, fields, span: case_span.cover(name_span) })
    }

    /// `impl Type { methods }`.
    pub(crate) fn parse_impl_block(&mut self) -> (r: Option<ImplBlock>)
        requires
            old(self).wf(),
        ensures
            r is None ==> final(self).diagnostics@.len() > old(self).diagnostics@.len(),
            final(self).follows(*old(self)),
            r is Some ==> final(self).index > old(self).index,
            simple_impl_at(old(self).tokens@, old(self).index as int) matches Some(ps) ==> (r matches Some(b)
                && (b.target matches TypeRef::Named { name, args, .. } && name@ == old(self).tokens@[old(self).index + 1].lexeme@
                    && args@.len() == 0)
                && b.methods@.len() == ps.len()
                && (forall|k: int| 0 <= k < ps.len() ==> simple_member_spelled(old(self).tokens@, #[trigger] ps[k],
                    TypeMember::Method(b.methods@[k])))
                && final(self).diagnostics@ == old(self).diagnostics@
                && final(self).index == simple_members_close(old(self).tokens@,
                    super::newline_run(old(self).tokens@, old(self).index + 2) + 1) + 1),
    {
        let ghost sp = simple_impl_at(old(self).tokens@, old(self).index as int);
        let ghost all = sp->Some_0;
        let ghost open = super::newline_run(old(self).tokens@, old(self).index + 2);
        let ghost close_s = simple_members_close(old(self).tokens@, open + 1);
        let start = self.consume_keyword(Keyword::Impl, "expected 'impl'")?;
        let target = self.parse_type_ref()?;
        if self.match_token(TokenKind::Dot) {
            let _ = self.expect_identifier("expected enum case name after '.'")?;
            let mut message = String::from_str("enum cases cannot declare methods; move methods to enum '");
            match &target {
                TypeRef::Named { name, .. } => {
                    message = concat_strings(message, name);
                },
                _ => {
                    message = concat_str(message, "enum");
                },
            }
            message = concat_str(message, "'");
            self.error_at_current_owned("unexpected_impl_target", message);
            return None;
        }
        self.skip_newlines();
        self.consume(TokenKind::LBrace, "expected '{' after impl target")?;
        self.skip_newlines();

        let mut methods: Vec<MethodDecl> = Vec::new();
        proof {
            if sp is Some {
                lemma_simple_members_close(old(self).tokens@, open + 1);
                super::lemma_newline_run_from_inside(old(self).tokens@, open + 1, self.index as int);
                assert(all.skip(0) =~= all);
            }
        }
        while !self.at(TokenKind::RBrace) && !self.at(TokenKind::Eof)
            invariant
                self.follows(*old(self)),
                self.index > old(self).index,
                sp == simple_impl_at(old(self).tokens@, old(self).index as int),
                all == sp->Some_0,
                open == super::newline_run(old(self).tokens@, old(self).index + 2),
                close_s == simple_members_close(old(self).tokens@, open + 1),
                sp is Some ==> {
                    &&& methods@.len() <= all.len()
                    &&& simple_members_from(old(self).tokens@, self.index as int) == Some(all.skip(methods@.len() as int))
                    &&& simple_members_close(old(self).tokens@, self.index as int) == close_s
                    &&& forall|k: int| 0 <= k < methods@.len()
                        ==> simple_member_spelled(old(self).tokens@, #[trigger] all[k], TypeMember::Method(methods@[k]))
                    &&& self.diagnostics@ == old(self).diagnostics@
                    &&& 0 <= close_s < old(self).tokens@.len() && old(self).tokens@[close_s].kind == TokenKind::RBrace
                    &&& forall|k: int| 0 <= k < all.len() ==> empty_method_at(old(self).tokens@, #[trigger] all[k])
                },
            ensures
                self.follows(*old(self)),
                sp is Some ==> methods@.len() == all.len() && self.index == close_s
                    && self.diagnostics@ == old(self).diagnostics@
                    && forall|k: int| 0 <= k < methods@.len()
                        ==> simple_member_spelled(old(self).tokens@, #[trigger] all[k], TypeMember::Method(methods@[k])),
            decreases self.remaining(),
        {
            let ghost before = self.index;
            self.skip_newlines();
            if self.at(TokenKind::RBrace) {
                proof {
                    if sp is Some {
                        assert(self.index == super::newline_run(old(self).tokens@, before as int));
                        assert(all.skip(methods@.len() as int).len() == 0);
                    }
                }
                break;
            }
            let ghost at = self.index as int;
            let ghost n = methods@.len() as int;
            let ghost rest = simple_members_from(old(self).tokens@, simple_member_end(old(self).tokens@, at));
            proof {
                if sp is Some {
                    assert(at == super::newline_run(old(self).tokens@, before as int));
                    assert(simple_member_end(old(self).tokens@, at) > at);
                    assert(rest is Some);
                    assert(all.skip(n) == seq![at] + rest->Some_0);
                    assert((seq![at] + rest->Some_0)[0] == at);
                    assert(all.skip(n)[0] == at);
                    assert(all.skip(n).len() == all.len() - n);
                    assert(n < all.len());
                    assert(all.skip(n)[0] == all[n]);
                    assert(all[n] == at);
                    assert(empty_method_at(old(self).tokens@, at));
                    assert(old(self).tokens@[at].kind != TokenKind::At);
                    assert(super::newline_run(old(self).tokens@, at) == at);
                }
            }
            let annotations = self.parse_annotations()?;
            let visibility = self.parse_visibility();
            let method = self.parse_method_decl(annotations, visibility, false)?;
            methods.push(method);
            let ghost e = self.index as int;
            self.skip_newlines();
            proof {
                if sp is Some {
                    let t = old(self).tokens@;
                    assert(e == simple_member_end(t, at));
                    super::lemma_newline_run_bounded(t, e);
                    super::lemma_newline_run_from_inside(t, e, self.index as int);
                    assert(simple_members_from(t, self.index as int) == rest);
                    assert(simple_members_close(t, self.index as int) == simple_members_close(t, e));
                    assert(all.skip(n + 1) =~= all.skip(n).skip(1));
                    assert((seq![at] + rest->Some_0).skip(1) =~= rest->Some_0);
                    assert(simple_member_spelled(t, all[n], TypeMember::Method(methods@[n])));
                }
            }
        }
        let end = self.consume(TokenKind::RBrace, "expected '}' after impl body")?;
        Some(ImplBlock { target, methods, span: start.cover(end) })
    }

    /// `def name[T](params) Ret body`; interfaces may leave out the body.
    pub(crate) fn parse_method_decl(
        &mut self,
        annotations: Vec<Annotation>,
        visibility: Visibility,
        allow_signature_only: bool,
    ) -> (r: Option<MethodDecl>)
        requires
            old(self).wf(),
        ensures
            r is None ==> final(self).diagnostics@.len() > old(self).diagnostics@.len(),
            final(self).follows(*old(self)),
            r is Some ==> final(self).index > old(self).index,
            r matches Some(m) ==> m.visibility == visibility && (!allow_signature_only ==> m.body is Some),
            empty_method_at(old(self).tokens@, old(self).index as int) ==> (r matches Some(m)
                && simple_member_spelled(old(self).tokens@, old(self).index as int, TypeMember::Method(m))
                && final(self).index == simple_member_end(old(self).tokens@, old(self).index as int)
                && final(self).diagnostics@ == old(self).diagnostics@),
        decreases old(self).bound@, old(self).remaining(), 1nat,
    {
        let ghost simple = empty_method_at(old(self).tokens@, old(self).index as int);
        let ghost i = old(self).index as int;
        let start = self.consume_keyword(Keyword::Def, "expected 'def'")?;
        let (name, _) = self.parse_callable_name("expected method name")?;
        let type_params = self.parse_type_params()?;
        assert(simple ==> self.index == i + 2 && self.diagnostics@ == old(self).diagnostics@);
        let params = self.parse_param_list()?;
        assert(simple ==> self.index == ret_at(old(self).tokens@, i) && self.diagnostics@ == old(self).diagnostics@
            && super::types::params_spelled(old(self).tokens@, i + 2, params@));
        let return_type = self.parse_optional_return_type();
        assert(simple ==> self.index == ret_at(old(self).tokens@, i) + 1 && self.diagnostics@ == old(self).diagnostics@);
        let body = if self.at(TokenKind::LBrace) || self.at(TokenKind::Eq) {
            Some(self.parse_callable_body()?)
        } else if allow_signature_only {
            None
        } else {
            self.error_at_current("expected_method_body", "expected method body");
            return None;
        };
        let end = match &body {
            Some(b) => b.span(),
            None => match &return_type {
                Some(t) => t.span(),
                None => start,
            },
        };
        Some(MethodDecl {
            annotations,
            visibility,
            name,
            type_params,
            params,
            return_type,
            body,
            span: start.cover(end),
        })
    }

    /// `var name Type = value`, `name Type := ?`, or a bare `name Type`.
    pub(crate) fn parse_field_decl(&mut self, annotations: Vec<Annotation>, visibility: Visibility) -> (r: Option<FieldDecl>)
        requires
            old(self).wf(),
        ensures
            r is None ==> final(self).diagnostics@.len() > old(self).diagnostics@.len(),
            final(self).follows(*old(self)),
            r is Some ==> final(self).index > old(self).index,
            r matches Some(f) ==> f.visibility == visibility,
            simple_field_at(old(self).tokens@, old(self).index as int) ==> (r matches Some(f)
                && simple_member_spelled(old(self).tokens@, old(self).index as int, TypeMember::Field(f))
                && final(self).index == old(self).index + 2 && final(self).diagnostics@ == old(self).diagnostics@),
    {
        let start = self.current_span();
        let mutable = self.match_keyword(Keyword::Var);
        let (name, _) = self.expect_binding_name("expected field name")?;

        let ty = if self.can_start_type_ref() {
            Some(self.parse_type_ref()?)
        } else {
            None
        };

        let mut initializer = None;
        let mut deferred = false;
        let end;
        if self.match_token(TokenKind::Eq) || self.match_token(TokenKind::ColonAssign) {
            let assign_span = self.previous_span();
            if self.match_token(TokenKind::Question) {
                deferred = true;
                end = self.previous_span();
            } else {
                let expr = self.parse_expr()?;
                end = assign_span.cover(expr.span());
                initializer = Some(expr);
            }
        } else {
            end = match &ty {
                Some(t) => t.span(),
                None => start,
            };
        }

        Some(FieldDecl {
            annotations,
            visibility,
            mutable,
            name,
            ty,
            initializer,
            deferred,
            span: start.cover(end),
        })
    }

    /// `{ ... }` or `= expr`.
    pub(crate) fn parse_callable_body(&mut self) -> (r: Option<CallableBody>)
        requires
            old(self).wf(),
        ensures
            r is None ==> final(self).diagnostics@.len() > old(self).diagnostics@.len(),
            final(self).follows(*old(self)),
            r is Some ==> final(self).index > old(self).index,
            ({
                let open = super::newline_run(old(self).tokens@, old(self).index as int);
                old(self).kind_at(open) == TokenKind::LBrace
                    && old(self).kind_at(super::newline_run(old(self).tokens@, open + 1)) == TokenKind::RBrace
                    ==> (r matches Some(CallableBody::Block(b)) && b.statements@.len() == 0
                        && final(self).index == super::newline_run(old(self).tokens@, open + 1) + 1
                        && final(self).diagnostics == old(self).diagnostics)
            }),
            ({
                let open = super::newline_run(old(self).tokens@, old(self).index as int);
                let j = super::newline_run(old(self).tokens@, open + 1);
                old(self).kind_at(open) == TokenKind::Eq && super::closed_lone_integer_from(old(self).tokens@, open + 1)
                    ==> (r matches Some(CallableBody::Expr(Expr::Integer { raw, .. })) && raw@ == old(self).tokens@[j].lexeme@
                        && j < final(self).index <= super::newline_run(old(self).tokens@, j + 1)
                        && final(self).diagnostics@ == old(self).diagnostics@)
            }),
        decreases old(self).bound@, old(self).remaining(), 29nat,
    {
        self.skip_newlines();
        if self.at(TokenKind::LBrace) {
            return match self.parse_block() {
                Some(block) => Some(CallableBody::Block(block)),
                None => None,
            };
        }
        self.consume(TokenKind::Eq, "expected '=' or '{' before callable body")?;
        let expr = self.parse_expr()?;
        Some(CallableBody::Expr(expr))
    }
}

} // verus!
