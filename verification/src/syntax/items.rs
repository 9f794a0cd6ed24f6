//! Top-level items: module and `use` headers, functions, type declarations
//! with their member-order rules, impl blocks, constructors, methods and
//! fields.
use vstd::prelude::*;
use super::tree::{
    Annotation, Binding, CallableBody, EnumCaseDecl, FieldDecl, FunctionDecl, ImplBlock, ImplTargetKind,
    ImportDecl, ImportSymbol, Item, MethodDecl, ModuleDecl, Param, Stmt, TypeDecl, TypeKind,
    TypeMember, TypeRef, Visibility,
};
use crate::diagnostic::Diagnostic;
use crate::lexer::{Keyword, Token, TokenKind};
use crate::parser::items::join_segments;
use crate::parser::strings::starts_lower;
use crate::source::{spec_cover, Span};
use crate::text::{concat_str, concat_strings, string_is};
use super::Parser;

verus! {

/// Where a type body has got to: storage fields come first, then
/// constructors, then methods.
#[derive(Clone, Copy, PartialEq, Eq, Structural)]
pub(crate) enum TypeBodyOrder {
    Storage,
    Constructor,
    Method,
}

/// Where an impl body has got to: constructors come before methods.
#[derive(Clone, Copy, PartialEq, Eq, Structural)]
pub(crate) enum ImplBodyOrder {
    Constructor,
    Method,
}

/// A binding that `public` may mark: named, and not mutable.
pub open spec fn exportable(b: Binding) -> bool {
    b.name@ != "_"@ && !b.mutable
}

/// What every top-level item obeys: executable statements other than
/// bindings are not items, type declarations are never `public` and their
/// members obey `member_rules`, and a `public` binding statement binds only
/// names that are immutable.
pub open spec fn item_rules(item: Item) -> bool {
    match item {
        Item::Statement(stmt) => match stmt {
            Stmt::Binding(b) => b.visibility == Visibility::Public ==> forall|j: int|
                0 <= j < b.bindings@.len() ==> exportable(#[trigger] b.bindings@[j]),
            _ => false,
        },
        Item::Type(d) => d.visibility != Visibility::Public && forall|i: int|
            0 <= i < d.members@.len() ==> member_rules(d.kind, #[trigger] d.members@[i]),
        _ => true,
    }
}

/// What every member of a type body obeys: it is not `public`; a method
/// has a body unless it belongs to an interface; annotations and shapes
/// declare no methods but constructors (`new`); only enums have cases.
pub open spec fn member_rules(kind: TypeKind, member: TypeMember) -> bool {
    match member {
        TypeMember::Field(f) => f.visibility != Visibility::Public,
        TypeMember::Method(m) => {
            &&& m.visibility != Visibility::Public
            &&& kind != TypeKind::Interface ==> m.body is Some
            &&& (kind == TypeKind::Annotation || kind == TypeKind::Record) ==> m.name@ == "new"@
        },
        TypeMember::Case(_) => kind == TypeKind::Enum,
    }
}

/// Kinds of type whose bodies hold storage fields.
pub open spec fn holds_storage(kind: TypeKind) -> bool {
    kind == TypeKind::Class || kind == TypeKind::Record || kind == TypeKind::Enum || kind == TypeKind::Single
}

/// No method comes before an enum case, nor, in a type that holds storage,
/// before a field.
pub open spec fn members_in_order(kind: TypeKind, members: Seq<TypeMember>) -> bool {
    forall|i: int, j: int|
        0 <= i < j < members.len() && (#[trigger] members[i]) is Method ==> !((#[trigger] members[j]) is Case)
            && !(holds_storage(kind) && members[j] is Field)
}

/// Some diagnostic from position `from` on has the code `code`.
pub open spec fn reported_since(diagnostics: Seq<Diagnostic>, from: int, code: Seq<char>) -> bool {
    exists|j: int| from <= j < diagnostics.len() && (#[trigger] diagnostics[j]).code@ == code
}

/// At `i`: a type keyword and a name, neither type parameters nor `with`
/// bounds, then (across newlines) `{`, and (across newlines) `}`.
pub open spec fn empty_type_body_at(tokens: Seq<Token>, i: int) -> bool {
    let open = crate::parser::newline_run(tokens, i + 2);
    &&& decl_kind_of(tokens[i].kind) is Some
    &&& tokens[i + 1].kind == TokenKind::Identifier
    &&& tokens[i + 2].kind != TokenKind::LBracket
    &&& tokens[i + 2].kind != TokenKind::Keyword(Keyword::With)
    &&& tokens[open].kind == TokenKind::LBrace
    &&& tokens[crate::parser::newline_run(tokens, open + 1)].kind == TokenKind::RBrace
}

/// For a `def` at `i`: where its return type stands, past a parameter list
/// that is `()` or simple parameters (`i + 2` when there is none such).
pub open spec fn ret_at(tokens: Seq<Token>, i: int) -> int {
    crate::parser::types::simple_params_end(tokens, i + 2)
}

/// At `i`: `def name(<simple parameters>) Type`, a plain type name, then
/// (across newlines) `{` and (across newlines) `}`.
pub open spec fn empty_function_at(tokens: Seq<Token>, i: int) -> bool {
    let open = crate::parser::newline_run(tokens, ret_at(tokens, i) + 1);
    &&& tokens[i].kind == TokenKind::Keyword(Keyword::Def)
    &&& tokens[i + 1].kind == TokenKind::Identifier
    &&& ret_at(tokens, i) > i + 2
    &&& tokens[ret_at(tokens, i)].kind == TokenKind::Identifier
    &&& tokens[ret_at(tokens, i) + 1].kind != TokenKind::LBracket
    &&& tokens[ret_at(tokens, i) + 1].kind != TokenKind::Arrow
    &&& tokens[open].kind == TokenKind::LBrace
    &&& tokens[crate::parser::newline_run(tokens, open + 1)].kind == TokenKind::RBrace
}

/// At `i`: a type declaration of simple members with no field after a
/// method where the kind holds storage (so nothing is reported of it).
pub open spec fn clean_type_decl_at(tokens: Seq<Token>, i: int) -> bool {
    simple_type_decl_at(tokens, i) is Some && (!holds_storage(decl_kind_of(tokens[i].kind)->Some_0)
        || late_fields(tokens, simple_type_decl_at(tokens, i)->Some_0) == 0)
}

/// Where a simple declaration at `i` ends (just past its `}`): an empty
/// function as above, or a clean type declaration of simple members; `i`
/// itself when there is none at `i`.
pub open spec fn simple_decl_end(tokens: Seq<Token>, i: int) -> int {
    if empty_function_at(tokens, i) {
        crate::parser::newline_run(tokens, crate::parser::newline_run(tokens, ret_at(tokens, i) + 1) + 1) + 1
    } else if clean_type_decl_at(tokens, i) {
        simple_members_close(tokens, crate::parser::newline_run(tokens, i + 2) + 1) + 1
    } else {
        i
    }
}

/// The item that the simple declaration at `i` stands for.
pub open spec fn simple_decl_item(tokens: Seq<Token>, i: int, item: Item) -> bool {
    if empty_function_at(tokens, i) {
        item matches Item::Function(f) && f.name@ == tokens[i + 1].lexeme@
            && super::types::params_spelled(tokens, i + 2, f.params@)
            && (f.body matches CallableBody::Block(b) && b.statements@.len() == 0)
    } else if clean_type_decl_at(tokens, i) {
        item matches Item::Type(d) && Some(d.kind) == decl_kind_of(tokens[i].kind)
            && d.name@ == tokens[i + 1].lexeme@
            && d.members@.len() == simple_type_decl_at(tokens, i)->Some_0.len()
            && forall|k: int| 0 <= k < d.members@.len() ==> simple_member_spelled(tokens,
                #[trigger] simple_type_decl_at(tokens, i)->Some_0[k], d.members@[k])
    } else {
        false
    }
}

/// The input from `i` on is, across newlines, a run of simple declarations
/// closed by the end of input: where each of them starts.
pub open spec fn simple_decls_from(tokens: Seq<Token>, i: int) -> Option<Seq<int>>
    decreases tokens.len() - i,
{
    let s = crate::parser::newline_run(tokens, i);
    if i < 0 || s < i || s >= tokens.len() {
        None
    } else if tokens[s].kind == TokenKind::Eof {
        Some(Seq::empty())
    } else {
        let e = simple_decl_end(tokens, s);
        if s < e <= tokens.len() {
            match simple_decls_from(tokens, e) {
                Some(rest) => Some(seq![s] + rest),
                None => None,
            }
        } else {
            None
        }
    }
}

/// At `i`: a field `name Type` (a name other than `new`, then a plain type
/// name) with no initializer.
pub open spec fn simple_field_at(tokens: Seq<Token>, i: int) -> bool {
    &&& tokens[i].kind == TokenKind::Identifier && tokens[i].lexeme@ != "new"@
    &&& tokens[i + 1].kind == TokenKind::Identifier
    &&& tokens[i + 2].kind != TokenKind::LBracket && tokens[i + 2].kind != TokenKind::Arrow
    &&& tokens[i + 2].kind != TokenKind::Eq && tokens[i + 2].kind != TokenKind::ColonAssign
}

/// At `i`: a method `def name(<simple parameters>) Type {` with `}` after
/// (across newlines) the `{`.
pub open spec fn empty_method_at(tokens: Seq<Token>, i: int) -> bool {
    &&& tokens[i].kind == TokenKind::Keyword(Keyword::Def)
    &&& tokens[i + 1].kind == TokenKind::Identifier
    &&& ret_at(tokens, i) > i + 2
    &&& tokens[ret_at(tokens, i)].kind == TokenKind::Identifier
    &&& tokens[ret_at(tokens, i) + 1].kind == TokenKind::LBrace
    &&& tokens[crate::parser::newline_run(tokens, ret_at(tokens, i) + 2)].kind == TokenKind::RBrace
}

/// Where a simple member at `i` (a field or a method as above) ends; `i`
/// itself when there is none.
pub open spec fn simple_member_end(tokens: Seq<Token>, i: int) -> int {
    if simple_field_at(tokens, i) {
        i + 2
    } else if empty_method_at(tokens, i) {
        crate::parser::newline_run(tokens, ret_at(tokens, i) + 2) + 1
    } else {
        i
    }
}

/// The member that the simple member at `i` spells.
pub open spec fn simple_member_spelled(tokens: Seq<Token>, i: int, m: TypeMember) -> bool {
    if simple_field_at(tokens, i) {
        m matches TypeMember::Field(f) && f.name@ == tokens[i].lexeme@ && !f.mutable && f.initializer is None
            && (f.ty matches Some(TypeRef::Named { name, args, .. }) && name@ == tokens[i + 1].lexeme@
                && args@.len() == 0)
    } else if empty_method_at(tokens, i) {
        m matches TypeMember::Method(md) && md.name@ == tokens[i + 1].lexeme@
            && super::types::params_spelled(tokens, i + 2, md.params@)
            && (md.body matches Some(CallableBody::Block(b)) && b.statements@.len() == 0)
    } else {
        false
    }
}

/// From `i`, across newlines: simple members up to a `}`: where each starts.
pub open spec fn simple_members_from(tokens: Seq<Token>, i: int) -> Option<Seq<int>>
    decreases tokens.len() - i,
{
    let s = crate::parser::newline_run(tokens, i);
    if i < 0 || s < i || s >= tokens.len() {
        None
    } else if tokens[s].kind == TokenKind::RBrace {
        Some(Seq::empty())
    } else {
        let e = simple_member_end(tokens, s);
        if s < e <= tokens.len() {
            match simple_members_from(tokens, e) {
                Some(rest) => Some(seq![s] + rest),
                None => None,
            }
        } else {
            None
        }
    }
}

/// Where the `}` after the simple members from `i` stands.
pub open spec fn simple_members_close(tokens: Seq<Token>, i: int) -> int
    decreases tokens.len() - i,
{
    let s = crate::parser::newline_run(tokens, i);
    if i < 0 || s < i || s >= tokens.len() || tokens[s].kind == TokenKind::RBrace {
        s
    } else {
        let e = simple_member_end(tokens, s);
        if s < e <= tokens.len() {
            simple_members_close(tokens, e)
        } else {
            s
        }
    }
}

/// Some member at `ps` is a method.
pub open spec fn method_among(tokens: Seq<Token>, ps: Seq<int>) -> bool
    decreases ps.len(),
{
    ps.len() > 0 && (method_among(tokens, ps.drop_last()) || empty_method_at(tokens, ps.last()))
}

/// How many members at `ps` are fields that come after a method.
pub open spec fn late_fields(tokens: Seq<Token>, ps: Seq<int>) -> nat
    decreases ps.len(),
{
    if ps.len() == 0 {
        0
    } else {
        late_fields(tokens, ps.drop_last()) + if simple_field_at(tokens, ps.last())
            && method_among(tokens, ps.drop_last()) { 1nat } else { 0nat }
    }
}

/// A run of simple members ends at a `}`.
pub proof fn lemma_simple_members_close(tokens: Seq<Token>, i: int)
    requires
        simple_members_from(tokens, i) is Some,
    ensures
        0 <= simple_members_close(tokens, i) < tokens.len(),
        tokens[simple_members_close(tokens, i)].kind == TokenKind::RBrace,
    decreases tokens.len() - i,
{
    let s = crate::parser::newline_run(tokens, i);
    if tokens[s].kind != TokenKind::RBrace {
        lemma_simple_members_close(tokens, simple_member_end(tokens, s));
    }
}

/// A method at one position of `ps` puts a method among `ps`.
pub proof fn lemma_method_among(tokens: Seq<Token>, ps: Seq<int>, n: int)
    requires
        0 <= n < ps.len(),
        empty_method_at(tokens, ps[n]),
    ensures
        method_among(tokens, ps),
    decreases ps.len(),
{
    if n < ps.len() - 1 {
        lemma_method_among(tokens, ps.drop_last(), n);
    }
}

/// At `i`: a type declaration whose body holds only simple members (and no
/// method where the kind allows none): where the members start.
pub open spec fn simple_type_decl_at(tokens: Seq<Token>, i: int) -> Option<Seq<int>> {
    let open = crate::parser::newline_run(tokens, i + 2);
    let kind = decl_kind_of(tokens[i].kind);
    if kind is Some && tokens[i + 1].kind == TokenKind::Identifier
        && tokens[i + 2].kind != TokenKind::LBracket && tokens[i + 2].kind != TokenKind::Keyword(Keyword::With)
        && tokens[open].kind == TokenKind::LBrace && simple_members_from(tokens, open + 1) is Some
        && (kind == Some(TypeKind::Class) || kind == Some(TypeKind::Single) || kind == Some(TypeKind::Interface)
            || kind == Some(TypeKind::Enum) || !method_among(tokens, simple_members_from(tokens, open + 1)->Some_0)) {
        simple_members_from(tokens, open + 1)
    } else {
        None
    }
}

/// Every constructor (`new`) comes before every other method.
pub open spec fn constructors_first(methods: Seq<MethodDecl>) -> bool {
    forall|i: int, j: int|
        0 <= i < j < methods.len() && (#[trigger] methods[j]).name@ == "new"@ ==> (#[trigger] methods[i]).name@
            == "new"@
}

/// A type declaration whose members are in order, an impl block whose
/// constructors come first; any other item.
pub open spec fn item_in_order(item: Item) -> bool {
    match item {
        Item::Type(d) => members_in_order(d.kind, d.members@),
        Item::Impl(b) => constructors_first(b.methods@),
        _ => true,
    }
}

/// The kind of type that a declaration opened by a token of `kind` declares.
pub open spec fn decl_kind_of(kind: TokenKind) -> Option<TypeKind> {
    match kind {
        TokenKind::Keyword(Keyword::Annotation) => Some(TypeKind::Annotation),
        TokenKind::Keyword(Keyword::Class) => Some(TypeKind::Class),
        TokenKind::Keyword(Keyword::Shape) => Some(TypeKind::Record),
        TokenKind::Keyword(Keyword::Single) => Some(TypeKind::Single),
        TokenKind::Keyword(Keyword::Interface) => Some(TypeKind::Interface),
        TokenKind::Keyword(Keyword::Enum) => Some(TypeKind::Enum),
        _ => None,
    }
}

/// What the top-level item whose first token stands at `i` is, read from
/// that token: `def` gives a function named by the next token (when that is a
/// name), a type keyword a type of that kind and name, `impl` an impl block,
/// `var` or a name a binding statement; annotations and visibility
/// modifiers (`@`, `public`, `hidden`) leave the kind to the tokens after them;
/// anything else gives no item (top-level statements are refused).
pub open spec fn item_headed_at(tokens: Seq<Token>, i: int, item: Item) -> bool {
    let k = tokens[i].kind;
    if k == TokenKind::At || k == TokenKind::Keyword(Keyword::Public) || k == TokenKind::Keyword(Keyword::Hidden) {
        true
    } else if k == TokenKind::Keyword(Keyword::Def) {
        item matches Item::Function(f) && (tokens[i + 1].kind == TokenKind::Identifier
            ==> f.name@ == tokens[i + 1].lexeme@)
    } else if decl_kind_of(k) is Some {
        item matches Item::Type(d) && Some(d.kind) == decl_kind_of(k) && d.name@ == tokens[i + 1].lexeme@
    } else if k == TokenKind::Keyword(Keyword::Impl) {
        item is Impl
    } else if k == TokenKind::Keyword(Keyword::Var) || k == TokenKind::Identifier {
        item matches Item::Statement(Stmt::Binding(_))
    } else {
        false
    }
}

/// How many of `slots` name an item (are not negative).
pub open spec fn items_in(slots: Seq<int>) -> nat
    decreases slots.len(),
{
    if slots.len() == 0 {
        0
    } else {
        items_in(slots.drop_last()) + if slots.last() >= 0 { 1nat } else { 0nat }
    }
}

/// What top-level stretch `k`, which starts at `cuts[k]`, gave: the next
/// item in order (`slots[k]`, its number), headed by the stretch's first
/// token; nothing and no diagnostic (`-1`), which only an input holding an `if` allows; or nothing, with a
/// diagnostic reported (`-2`).
pub open spec fn stretch_read(
    tokens: Seq<Token>,
    items: Seq<Item>,
    cuts: Seq<int>,
    slots: Seq<int>,
    k: int,
    reported: nat,
) -> bool {
    if slots[k] >= 0 {
        slots[k] == items_in(slots.take(k)) && slots[k] < items.len()
            && item_headed_at(tokens, cuts[k], items[slots[k]])
    } else if slots[k] == -1 {
        super::holds_if(tokens)
    } else {
        slots[k] == -2 && reported > 0
    }
}

/// The input after `header` read so far as top-level stretches: stretch `k`
/// runs from `cuts[k]` to before `ends[k]`; the first starts after the
/// newlines that follow `header`, each next one after the newlines that
/// follow the one before; each gave what `stretch_read` says, and the items
/// are exactly those the stretches gave, in order.
pub open spec fn stretches_read(
    tokens: Seq<Token>,
    items: Seq<Item>,
    header: int,
    cuts: Seq<int>,
    ends: Seq<int>,
    slots: Seq<int>,
    reported: nat,
) -> bool {
    &&& cuts.len() == ends.len() && slots.len() == cuts.len()
    &&& items.len() == items_in(slots)
    &&& forall|k: int| 0 <= k < cuts.len() ==> cuts[k] < ends[k]
    &&& forall|k: int| 0 <= k < cuts.len() ==> #[trigger] stretch_read(tokens, items, cuts, slots, k, reported)
    &&& cuts.len() > 0 ==> cuts[0] == crate::parser::newline_run(tokens, header)
    &&& forall|k: int| 0 <= k < cuts.len() - 1 ==> #[trigger] cuts[k + 1] == crate::parser::newline_run(tokens, ends[k])
}

/// Where the stretches read so far end (`header` when there are none).
pub open spec fn layout_end(header: int, ends: Seq<int>) -> int {
    if ends.len() == 0 {
        header
    } else {
        ends.last()
    }
}

/// The whole input after `header` is read as top-level stretches: only
/// newlines follow the last one up to the end-of-file token.
pub open spec fn program_layout(
    tokens: Seq<Token>,
    items: Seq<Item>,
    header: int,
    cuts: Seq<int>,
    ends: Seq<int>,
    slots: Seq<int>,
    reported: nat,
) -> bool {
    &&& stretches_read(tokens, items, header, cuts, ends, slots, reported)
    &&& tokens[crate::parser::newline_run(tokens, layout_end(header, ends))].kind == TokenKind::Eof
}

/// A count of reported problems that grows keeps what was read.
pub proof fn lemma_stretches_reported(
    tokens: Seq<Token>,
    items: Seq<Item>,
    header: int,
    cuts: Seq<int>,
    ends: Seq<int>,
    slots: Seq<int>,
    reported: nat,
    later: nat,
)
    requires
        stretches_read(tokens, items, header, cuts, ends, slots, reported),
        reported <= later,
    ensures
        stretches_read(tokens, items, header, cuts, ends, slots, later),
{
    assert forall|k: int| 0 <= k < cuts.len() implies #[trigger] stretch_read(tokens, items, cuts, slots, k, later) by {
        assert(stretch_read(tokens, items, cuts, slots, k, reported));
    }
}

/// One more stretch, starting after the newlines that follow the last one,
/// keeps what was read: `item` is pushed when `slot` numbers it.
pub proof fn lemma_stretches_push(
    tokens: Seq<Token>,
    items: Seq<Item>,
    header: int,
    cuts: Seq<int>,
    ends: Seq<int>,
    slots: Seq<int>,
    reported: nat,
    start: int,
    end: int,
    slot: int,
    item: Item,
)
    requires
        stretches_read(tokens, items, header, cuts, ends, slots, reported),
        start == crate::parser::newline_run(tokens, layout_end(header, ends)),
        start < end,
        slot >= 0 ==> slot == items.len() && item_headed_at(tokens, start, item),
        slot == -1 ==> (super::holds_if(tokens)),
        slot < 0 ==> slot == -1 || (slot == -2 && reported > 0),
    ensures
        stretches_read(tokens, if slot >= 0 { items.push(item) } else { items }, header,
            cuts.push(start), ends.push(end), slots.push(slot), reported),
{
    let n = cuts.len() as int;
    let items2 = if slot >= 0 { items.push(item) } else { items };
    let cuts2 = cuts.push(start);
    let ends2 = ends.push(end);
    let slots2 = slots.push(slot);
    assert(slots2.drop_last() =~= slots);
    assert(slots2.take(n) =~= slots);
    assert forall|k: int| 0 <= k < cuts2.len() implies #[trigger] stretch_read(tokens, items2, cuts2, slots2, k, reported) by {
        if k < n {
            assert(stretch_read(tokens, items, cuts, slots, k, reported));
            assert(slots2.take(k) =~= slots.take(k));
            assert(slots2[k] == slots[k] && cuts2[k] == cuts[k]);
            if slots[k] >= 0 {
                assert(items2[slots[k]] == items[slots[k]]);
            }
        }
    }
    assert forall|k: int| 0 <= k < cuts2.len() - 1 implies #[trigger] cuts2[k + 1] == crate::parser::newline_run(tokens, ends2[k]) by {
        if k + 1 < n {
            assert(cuts2[k + 1] == cuts[k + 1] && ends2[k] == ends[k]);
        }
    }
}

/// The keyword that declares a type of `kind`.
pub fn type_kind_name(kind: TypeKind) -> (s: &'static str)
    ensures
        kind == TypeKind::Annotation ==> s@ == "annotation"@,
        kind == TypeKind::Class ==> s@ == "class"@,
        kind == TypeKind::Record ==> s@ == "shape"@,
        kind == TypeKind::Single ==> s@ == "single"@,
        kind == TypeKind::Interface ==> s@ == "interface"@,
        kind == TypeKind::Enum ==> s@ == "enum"@,
{
    proof {
        reveal_strlit("annotation");
        reveal_strlit("class");
        reveal_strlit("shape");
        reveal_strlit("single");
        reveal_strlit("interface");
        reveal_strlit("enum");
    }
    match kind {
        TypeKind::Annotation => "annotation",
        TypeKind::Class => "class",
        TypeKind::Record => "shape",
        TypeKind::Single => "single",
        TypeKind::Interface => "interface",
        TypeKind::Enum => "enum",
    }
}

/// The name an impl block targets, or `target` when it is not a named type.
pub fn impl_target_name(target: &TypeRef) -> (s: String)
    ensures
        target is Named ==> s@ == target->Named_name@,
        !(target is Named) ==> s@ == "target"@,
{
    match target {
        TypeRef::Named { name, .. } => name.clone(),
        _ => String::from_str("target"),
    }
}

/// Why a type body of `kind` named `name` cannot declare `new`.
pub fn type_body_constructor_message(kind: TypeKind, name: &String) -> (s: String)
    ensures
        kind == TypeKind::Annotation ==> s@ == "annotation '"@ + name@
            + "' cannot declare constructors; annotations are data-only metadata shapes"@,
        kind == TypeKind::Class ==> s@ == "class '"@ + name@
            + "' constructors are declared in impl blocks; move 'new' into impl "@ + name@,
        kind == TypeKind::Record ==> s@ == "shape '"@ + name@
            + "' cannot declare custom constructors; use structural brace construction"@,
        kind == TypeKind::Single ==> s@ == "single '"@ + name@
            + "' cannot declare custom constructors; reference '"@ + name@ + "' directly"@,
        kind == TypeKind::Interface ==> s@ == "interface '"@ + name@ + "' cannot declare constructors"@,
        kind == TypeKind::Enum ==> s@ == "enum '"@ + name@
            + "' cannot declare constructors; enum cases define values"@,
{
    match kind {
        TypeKind::Annotation => {
            let s = concat_strings(String::from_str("annotation '"), name);
            concat_str(s, "' cannot declare constructors; annotations are data-only metadata shapes")
        },
        TypeKind::Class => {
            let s = concat_strings(String::from_str("class '"), name);
            let s = concat_str(s, "' constructors are declared in impl blocks; move 'new' into impl ");
            concat_strings(s, name)
        },
        TypeKind::Record => {
            let s = concat_strings(String::from_str("shape '"), name);
            concat_str(s, "' cannot declare custom constructors; use structural brace construction")
        },
        TypeKind::Single => {
            let s = concat_strings(String::from_str("single '"), name);
            let s = concat_str(s, "' cannot declare custom constructors; reference '");
            let s = concat_strings(s, name);
            concat_str(s, "' directly")
        },
        TypeKind::Interface => {
            let s = concat_strings(String::from_str("interface '"), name);
            concat_str(s, "' cannot declare constructors")
        },
        TypeKind::Enum => {
            let s = concat_strings(String::from_str("enum '"), name);
            concat_str(s, "' cannot declare constructors; enum cases define values")
        },
    }
}

/// `prefix` + `a` + `middle` + `b` + `suffix`, for the member-order reports.
fn order_message(prefix: &str, a: &String, middle: &str, b: &String, suffix: &str) -> (s: String)
    ensures
        s@ == prefix@ + a@ + middle@ + b@ + suffix@,
{
    let s = concat_strings(String::from_str(prefix), a);
    let s = concat_str(s, middle);
    let s = concat_strings(s, b);
    concat_str(s, suffix)
}

impl<'a> Parser<'a> {
    /// `module a/b`; the keyword is already consumed.
    pub(crate) fn parse_module_decl(&mut self) -> (r: Option<ModuleDecl>)
        requires
            old(self).wf(),
        ensures
            r is None ==> final(self).diagnostics@.len() > old(self).diagnostics@.len()
                || final(self).silent_failures@ > old(self).silent_failures@,
            final(self).follows(*old(self)),
            r is Some ==> final(self).index > old(self).index,
            old(self).cur_kind() != TokenKind::Identifier ==> r is None,
            old(self).cur_kind() == TokenKind::Identifier && old(self).kind_at(old(self).index + 1) != TokenKind::Slash
                ==> (r matches Some(m) && m.name@ == old(self).tokens@[old(self).index as int].lexeme@),
    {
        let start = self.previous_span();
        let name = self.parse_path_string()?;
        let end = self.last_non_newline_span(start);
        Some(ModuleDecl { name, span: start.cover(end) })
    }

    /// `use a/b`, `use a/b/*`, `use a/b/{X, Y as Z}`, `use a/b/Sym as Alias`
    /// or `use a/b/Single/{...}`; the keyword is already consumed.
    pub(crate) fn parse_import_decl(&mut self) -> (r: Option<ImportDecl>)
        requires
            old(self).wf(),
        ensures
            r is None ==> final(self).diagnostics@.len() > old(self).diagnostics@.len()
                || final(self).silent_failures@ > old(self).silent_failures@,
            final(self).follows(*old(self)),
            r is Some ==> final(self).index > old(self).index,
    {
        let start = self.previous_span();
        let (segments, seg_span) = self.parse_import_segments("expected use path")?;
        let mut span = seg_span;
        let mut import = ImportDecl {
            path: String::new(),
            single_name: None,
            wildcard: false,
            symbols: Vec::new(),
            span: start,
        };

        match self.current_kind() {
            TokenKind::Slash => {
                self.advance();
                match self.current_kind() {
                    TokenKind::Star => {
                        let end = self.current_span();
                        self.advance();
                        import.path = join_segments(&segments);
                        import.wildcard = true;
                        span = span.cover(end);
                    },
                    TokenKind::LBrace => {
                        self.advance();
                        import.path = join_segments(&segments);
                        let (symbols, symbols_span) = self.parse_import_symbol_list()?;
                        import.symbols = symbols;
                        span = span.cover(symbols_span);
                    },
                    TokenKind::Identifier => {
                        let (name, name_span) = self.expect_identifier(
                            "expected use symbol, '*', or '{' after '/'",
                        )?;
                        if self.match_token(TokenKind::Slash) {
                            import.path = join_segments(&segments);
                            import.single_name = Some(name);
                            if self.match_token(TokenKind::Star) {
                                import.wildcard = true;
                                span = span.cover(self.previous_span());
                            } else if self.match_token(TokenKind::LBrace) {
                                let (symbols, symbols_span) = self.parse_import_symbol_list()?;
                                import.symbols = symbols;
                                span = span.cover(symbols_span);
                            } else {
                                self.error_at_current(
                                    "unexpected_token",
                                    "expected single member use '*', or '{'",
                                );
                                return None;
                            }
                            span = span.cover(name_span);
                        } else {
                            import.path = join_segments(&segments);
                            let mut symbol = ImportSymbol { name, alias: None, span: name_span };
                            if self.match_keyword(Keyword::As) {
                                let (alias, alias_span) = self.expect_identifier("expected alias after 'as'")?;
                                symbol.alias = Some(alias);
                                symbol.span = symbol.span.cover(alias_span);
                            }
                            span = span.cover(symbol.span);
                            import.symbols.push(symbol);
                        }
                    },
                    _ => {
                        self.error_at_current(
                            "unexpected_token",
                            "expected use symbol, '*', or '{' after '/'",
                        );
                        return None;
                    },
                }
            },
            _ => {
                import.path = join_segments(&segments);
            },
        }

        import.span = start.cover(span);
        Some(import)
    }

    /// A function, a type declaration, an impl block or a top-level binding,
    /// with its annotations and visibility; anything else is reported as a
    /// top-level statement.
    pub(crate) fn parse_item(&mut self) -> (r: Option<Item>)
        requires
            old(self).wf(),
        ensures
            r is None ==> final(self).diagnostics@.len() > old(self).diagnostics@.len()
                || final(self).silent_failures@ > old(self).silent_failures@,
            final(self).follows(*old(self)),
            r is Some ==> final(self).index > old(self).index,
            r matches Some(item) ==> item_rules(item),
            final(self).diagnostics@.len() == old(self).diagnostics@.len() ==> (r matches Some(item)
                ==> item_in_order(item)),
            old(self).at_lone_integer() ==> r is None && final(self).diagnostics@.len() > old(self).diagnostics@.len(),
            old(self).cur_kind() != TokenKind::Newline
                ==> (r matches Some(item) ==> item_headed_at(old(self).tokens@, old(self).index as int, item)),
            simple_decl_end(old(self).tokens@, old(self).index as int) > old(self).index ==> (r matches Some(item)
                && simple_decl_item(old(self).tokens@, old(self).index as int, item)
                && final(self).index == simple_decl_end(old(self).tokens@, old(self).index as int)
                && final(self).diagnostics@ == old(self).diagnostics@),
    {
        let ghost simple = simple_decl_end(old(self).tokens@, old(self).index as int) > old(self).index;
        proof {
            if simple {
                assert(old(self).cur_kind() != TokenKind::Newline);
                assert(crate::parser::newline_run(old(self).tokens@, old(self).index as int) == old(self).index);
            }
        }
        let annotations = self.parse_annotations()?;
        let visibility = self.parse_visibility();
        assert(simple ==> self.index == old(self).index && self.diagnostics@ == old(self).diagnostics@
            && visibility == Visibility::Default);
        match self.current_kind() {
            TokenKind::Keyword(Keyword::Def) => {
                let function = self.parse_function_decl(annotations, visibility)?;
                Some(Item::Function(function))
            },
            TokenKind::Keyword(Keyword::Annotation)
            | TokenKind::Keyword(Keyword::Class)
            | TokenKind::Keyword(Keyword::Shape)
            | TokenKind::Keyword(Keyword::Single)
            | TokenKind::Keyword(Keyword::Interface)
            | TokenKind::Keyword(Keyword::Enum) => {
                if visibility == Visibility::Public {
                    self.error_at_current(
                        "unexpected_visibility",
                        "'public' is only supported for top-level functions and immutable bindings",
                    );
                    return None;
                }
                let decl = self.parse_type_decl(annotations, visibility)?;
                Some(Item::Type(decl))
            },
            TokenKind::Keyword(Keyword::Impl) => {
                if annotations.len() > 0 {
                    self.error_at_current("unexpected_annotation", "impl blocks do not accept annotations");
                    return None;
                }
                if visibility != Visibility::Default {
                    self.error_at_current(
                        "unexpected_visibility",
                        "impl blocks do not accept visibility modifiers",
                    );
                    return None;
                }
                let block = self.parse_impl_block()?;
                Some(Item::Impl(block))
            },
            _ => {
                if visibility == Visibility::Public && self.at_keyword(Keyword::Var) {
                    self.error_at_current(
                        "unexpected_visibility",
                        "'public' is only supported for immutable named top-level bindings",
                    );
                    return None;
                }
                if self.at_keyword(Keyword::Var) {
                    if annotations.len() > 0 {
                        self.error_at_current(
                            "unexpected_annotation",
                            "annotations are not supported on bindings yet",
                        );
                        return None;
                    }
                    if visibility != Visibility::Default {
                        self.error_at_current(
                            "unexpected_visibility",
                            "visibility modifiers are only valid on declarations",
                        );
                        return None;
                    }
                    let stmt = self.parse_binding_stmt_after_var()?;
                    return Some(Item::Statement(Stmt::Binding(stmt)));
                }
                if self.is_binding_start() {
                    if annotations.len() > 0 {
                        self.error_at_current(
                            "unexpected_annotation",
                            "annotations are not supported on bindings yet",
                        );
                        return None;
                    }
                    if let Some(stmt) = self.try_parse_binding_stmt() {
                        let mut stmt = stmt;
                        if visibility == Visibility::Public {
                            let mut rejected = false;
                            let mut k: usize = 0;
                            while k < stmt.bindings.len()
                                invariant
                                    k <= stmt.bindings@.len(),
                                    !rejected ==> forall|j: int| 0 <= j < k ==> exportable(#[trigger] stmt.bindings@[j]),
                                decreases stmt.bindings@.len() - k,
                            {
                                if string_is(&stmt.bindings[k].name, "_") || stmt.bindings[k].mutable {
                                    rejected = true;
                                }
                                k = k + 1;
                            }
                            if rejected {
                                self.error_at_current(
                                    "unexpected_visibility",
                                    "'public' is only supported for immutable named top-level bindings",
                                );
                                return None;
                            }
                        }
                        stmt.visibility = visibility;
                        return Some(Item::Statement(Stmt::Binding(stmt)));
                    }
                }
                if annotations.len() > 0 {
                    self.error_at_current(
                        "unexpected_annotation",
                        "annotations are only valid on declarations",
                    );
                    return None;
                }
                if visibility != Visibility::Default {
                    let message = if visibility == Visibility::Public {
                        "'public' is only supported for top-level functions and immutable bindings"
                    } else {
                        "visibility modifiers are only valid on declarations"
                    };
                    self.error_at_current("unexpected_visibility", message);
                    return None;
                }
                self.error_at_current(
                    "unexpected_top_level_statement",
                    "top-level statements are not allowed; move executable code into a function such as 'def main() { ... }'",
                );
                None
            },
        }
    }

    /// `public`, `hidden`, or nothing.
    pub(crate) fn parse_visibility(&mut self) -> (v: Visibility)
        requires
            old(self).wf(),
        ensures
            final(self).follows(*old(self)),
            old(self).cur_kind() == TokenKind::Keyword(Keyword::Public) ==> v == Visibility::Public,
            old(self).cur_kind() == TokenKind::Keyword(Keyword::Hidden) ==> v == Visibility::Hidden,
            v == Visibility::Default ==> final(self).index == old(self).index,
            old(self).cur_kind() != TokenKind::Keyword(Keyword::Public)
                && old(self).cur_kind() != TokenKind::Keyword(Keyword::Hidden) ==> v == Visibility::Default,
            final(self).diagnostics == old(self).diagnostics,
    {
        if self.match_keyword(Keyword::Public) {
            Visibility::Public
        } else if self.match_keyword(Keyword::Hidden) {
            Visibility::Hidden
        } else {
            Visibility::Default
        }
    }

    /// `@expr` annotations, each on its own line or before the declaration.
    pub(crate) fn parse_annotations(&mut self) -> (r: Option<Vec<Annotation>>)
        requires
            old(self).wf(),
        ensures
            r is None ==> final(self).diagnostics@.len() > old(self).diagnostics@.len()
                || final(self).silent_failures@ > old(self).silent_failures@,
            final(self).follows(*old(self)),
            ({
                let l = crate::parser::newline_run(old(self).tokens@, old(self).index as int);
                old(self).kind_at(l) != TokenKind::At ==> (r matches Some(v) && v@.len() == 0 && final(self).index == l)
            }),
            r matches Some(v) && v@.len() > 0 ==> final(self).index > old(self).index,
            old(self).kind_at(crate::parser::newline_run(old(self).tokens@, old(self).index as int)) != TokenKind::At
                ==> final(self).diagnostics@ == old(self).diagnostics@,
        decreases old(self).bound@, old(self).remaining(), 1nat,
    {
        let mut annotations: Vec<Annotation> = Vec::new();
        loop
            invariant_except_break
                annotations@.len() == 0 ==> self.index == old(self).index && self.diagnostics@ == old(self).diagnostics@,
                annotations@.len() > 0 ==> self.index > old(self).index,
            invariant
                self.follows(*old(self)),
                annotations@.len() > 0 ==> old(self).kind_at(crate::parser::newline_run(old(self).tokens@, old(self).index as int))
                    == TokenKind::At,
            ensures
                self.follows(*old(self)),
                annotations@.len() == 0 ==> self.diagnostics@ == old(self).diagnostics@,
                annotations@.len() == 0 ==> self.index == crate::parser::newline_run(old(self).tokens@, old(self).index as int)
                    && old(self).kind_at(self.index as int) != TokenKind::At,
                annotations@.len() > 0 ==> self.index > old(self).index,
            decreases self.remaining(),
        {
            self.skip_newlines();
            if !self.match_token(TokenKind::At) {
                break;
            }
            let start = self.previous_span();
            let value = self.parse_expr()?;
            annotations.push(Annotation { span: start.cover(value.span()), value });
        }
        Some(annotations)
    }

    /// The lowercase segments of a `use` path: `a/b/c`, stopping before a
    /// capitalised segment.
    pub(crate) fn parse_import_segments(&mut self, message: &str) -> (r: Option<(Vec<String>, Span)>)
        requires
            old(self).wf(),
        ensures
            r is None ==> final(self).diagnostics@.len() > old(self).diagnostics@.len()
                || final(self).silent_failures@ > old(self).silent_failures@,
            final(self).follows(*old(self)),
            r is Some ==> final(self).index > old(self).index,
            r is Some <==> old(self).cur_kind() == TokenKind::Identifier,
            r matches Some((segments, _)) ==> segments@.len() >= 1
                && segments@[0]@ == old(self).tokens@[old(self).index as int].lexeme@,
    {
        let (first, start) = self.expect_identifier(message)?;
        let mut segments: Vec<String> = vec![first];
        let mut span = start;
        while self.at(TokenKind::Slash) && self.index + 1 < self.tokens.len()
            && self.tokens[self.index + 1].kind == TokenKind::Identifier
            && starts_lower(self.tokens[self.index + 1].lexeme.as_str())
            invariant
                self.follows(*old(self)),
                self.index > old(self).index,
                old(self).cur_kind() == TokenKind::Identifier,
                segments@.len() >= 1,
                segments@[0]@ == old(self).tokens@[old(self).index as int].lexeme@,
            decreases self.remaining(),
        {
            self.advance();
            let (segment, next_span) = self.expect_identifier("expected path segment after '/'")?;
            segments.push(segment);
            span = span.cover(next_span);
        }
        Some((segments, span))
    }

    /// `X, Y as Z }` after the `{` of a `use` symbol list.
    pub(crate) fn parse_import_symbol_list(&mut self) -> (r: Option<(Vec<ImportSymbol>, Span)>)
        requires
            old(self).wf(),
        ensures
            r is None ==> final(self).diagnostics@.len() > old(self).diagnostics@.len()
                || final(self).silent_failures@ > old(self).silent_failures@,
            final(self).follows(*old(self)),
            r matches Some((v, _)) ==> v@.len() >= 1 && final(self).index > old(self).index
                && final(self).kind_at(final(self).index - 1) == TokenKind::RBrace,
    {
        let open = self.previous_span();
        let mut symbols: Vec<ImportSymbol> = Vec::new();
        loop
            invariant
                self.follows(*old(self)),
            ensures
                self.follows(*old(self)),
                symbols@.len() >= 1,
            decreases self.remaining(),
        {
            let (name, name_span) = self.expect_identifier("expected use symbol")?;
            let mut symbol = ImportSymbol { name, alias: None, span: name_span };
            if self.match_keyword(Keyword::As) {
                let (alias, alias_span) = self.expect_identifier("expected alias after 'as'")?;
                symbol.alias = Some(alias);
                symbol.span = symbol.span.cover(alias_span);
            }
            symbols.push(symbol);
            if !self.match_token(TokenKind::Comma) {
                break;
            }
        }
        let end = self.consume(TokenKind::RBrace, "expected '}' after use symbol list")?;
        Some((symbols, open.cover(end)))
    }

    /// `def name[T](params) ReturnType body`.
    pub(crate) fn parse_function_decl(&mut self, annotations: Vec<Annotation>, visibility: Visibility) -> (r: Option<FunctionDecl>)
        requires
            old(self).wf(),
        ensures
            r is None ==> final(self).diagnostics@.len() > old(self).diagnostics@.len()
                || final(self).silent_failures@ > old(self).silent_failures@,
            final(self).follows(*old(self)),
            r is Some ==> final(self).index > old(self).index,
            old(self).cur_kind() == TokenKind::Keyword(Keyword::Def)
                && old(self).kind_at(old(self).index + 1) == TokenKind::Identifier
                ==> (r matches Some(f) ==> f.name@ == old(self).tokens@[old(self).index + 1].lexeme@),
            empty_function_at(old(self).tokens@, old(self).index as int) ==> (r matches Some(f)
                && super::types::params_spelled(old(self).tokens@, old(self).index + 2, f.params@)
                && (f.body matches CallableBody::Block(b) && b.statements@.len() == 0)
                && final(self).index == simple_decl_end(old(self).tokens@, old(self).index as int)
                && final(self).diagnostics@ == old(self).diagnostics@),
        decreases old(self).bound@, old(self).remaining(), 1nat,
    {
        let ghost simple = empty_function_at(old(self).tokens@, old(self).index as int);
        let ghost i = old(self).index as int;
        let start = self.consume_keyword(Keyword::Def, "expected 'def'")?;
        let (name, _) = self.parse_callable_name("expected function name")?;
        let type_params = self.parse_type_params()?;
        assert(simple ==> self.index == i + 2 && self.diagnostics == old(self).diagnostics);
        let params = self.parse_param_list()?;
        assert(simple ==> self.index == ret_at(old(self).tokens@, i) && self.diagnostics@ == old(self).diagnostics@
            && super::types::params_spelled(old(self).tokens@, i + 2, params@));
        let return_type = if self.callable_body_starts_here() {
            None
        } else {
            self.parse_optional_return_type()
        };
        assert(simple ==> self.index == ret_at(old(self).tokens@, i) + 1 && self.diagnostics@ == old(self).diagnostics@);
        let body = self.parse_callable_body()?;
        let end = body.span();
        Some(FunctionDecl { annotations, visibility, name, type_params, params, return_type, body, span: start.cover(end) })
    }

    /// `annotation|class|shape|single|interface|enum Name[T] with Bounds { ... }`:
    /// fields before constructors before methods (reported otherwise);
    /// `case` entries in enums; constructors in a type body are reported.
    #[verifier::rlimit(60)]
    pub(crate) fn parse_type_decl(&mut self, annotations: Vec<Annotation>, visibility: Visibility) -> (r: Option<TypeDecl>)
        requires
            old(self).wf(),
        ensures
            r is None ==> final(self).diagnostics@.len() > old(self).diagnostics@.len()
                || final(self).silent_failures@ > old(self).silent_failures@,
            final(self).follows(*old(self)),
            r is Some ==> final(self).index > old(self).index,
            r matches Some(d) ==> Some(d.kind) == decl_kind_of(old(self).cur_kind())
                && old(self).kind_at(old(self).index + 1) == TokenKind::Identifier
                && d.name@ == old(self).tokens@[old(self).index + 1].lexeme@
                && d.annotations == annotations && d.visibility == visibility
                && final(self).kind_at(final(self).index - 1) == TokenKind::RBrace
                && d.span == spec_cover(old(self).tokens@[old(self).index as int].span,
                    final(self).tokens@[final(self).index - 1].span),
            decl_kind_of(old(self).cur_kind()) is None ==> r is None,
            final(self).diagnostics@.len() == old(self).diagnostics@.len() ==> (r matches Some(d)
                ==> members_in_order(d.kind, d.members@)),
            r matches Some(d) ==> forall|i: int| 0 <= i < d.members@.len() ==> member_rules(d.kind, #[trigger] d.members@[i]),
            r matches Some(d) && !members_in_order(d.kind, d.members@) ==> reported_since(final(self).diagnostics@,
                old(self).diagnostics@.len() as int, "invalid_member_order"@),
            empty_type_body_at(old(self).tokens@, old(self).index as int) ==> (r matches Some(d)
                && d.members@.len() == 0 && final(self).diagnostics == old(self).diagnostics
                && final(self).index == crate::parser::newline_run(old(self).tokens@,
                    crate::parser::newline_run(old(self).tokens@, old(self).index + 2) + 1) + 1),
            simple_type_decl_at(old(self).tokens@, old(self).index as int) matches Some(ps) ==> (r matches Some(d)
                && d.members@.len() == ps.len()
                && (forall|k: int| 0 <= k < ps.len() ==> simple_member_spelled(old(self).tokens@, #[trigger] ps[k], d.members@[k]))
                && final(self).diagnostics@.len() == old(self).diagnostics@.len()
                    + (if holds_storage(d.kind) { late_fields(old(self).tokens@, ps) } else { 0 })
                && (forall|j: int| old(self).diagnostics@.len() <= j < final(self).diagnostics@.len()
                    ==> (#[trigger] final(self).diagnostics@[j]).code@ == "invalid_member_order"@)
                && final(self).index == simple_members_close(old(self).tokens@,
                    crate::parser::newline_run(old(self).tokens@, old(self).index + 2) + 1) + 1),
        decreases old(self).bound@, old(self).remaining(), 1nat,
    {
        let kind = match self.current_kind() {
            TokenKind::Keyword(Keyword::Annotation) => TypeKind::Annotation,
            TokenKind::Keyword(Keyword::Class) => TypeKind::Class,
            TokenKind::Keyword(Keyword::Shape) => TypeKind::Record,
            TokenKind::Keyword(Keyword::Single) => TypeKind::Single,
            TokenKind::Keyword(Keyword::Interface) => TypeKind::Interface,
            TokenKind::Keyword(Keyword::Enum) => TypeKind::Enum,
            _ => {
                self.error_at_current(
                    "expected_type_decl",
                    "expected annotation, class, shape, single, interface, or enum",
                );
                return None;
            },
        };
        let start = self.current_span();
        self.advance();

        let (name, _) = self.expect_identifier("expected type name")?;
        let type_params = self.parse_type_params()?;
        let with_bounds = if self.match_keyword(Keyword::With) {
            self.parse_type_ref_list()?
        } else {
            Vec::new()
        };
        self.skip_newlines();
        self.consume(TokenKind::LBrace, "expected '{' after type declaration")?;
        self.skip_newlines();

        let kind_name = type_kind_name(kind);
        let mut members: Vec<TypeMember> = Vec::new();
        let mut body_order = TypeBodyOrder::Storage;
        let mut misplaced_constructors: Vec<Span> = Vec::new();
        let ghost mut witness: int = -1;
        let ghost empty_body = empty_type_body_at(old(self).tokens@, old(self).index as int);
        let ghost close = crate::parser::newline_run(old(self).tokens@,
            crate::parser::newline_run(old(self).tokens@, old(self).index + 2) + 1);
        let ghost sp = simple_type_decl_at(old(self).tokens@, old(self).index as int);
        let ghost all = sp->Some_0;
        let ghost open = crate::parser::newline_run(old(self).tokens@, old(self).index + 2);
        let ghost close_s = simple_members_close(old(self).tokens@, open + 1);
        proof {
            if sp is Some {
                lemma_simple_members_close(old(self).tokens@, open + 1);
                crate::parser::lemma_newline_run_from_inside(old(self).tokens@, open + 1, self.index as int);
                assert(all.skip(0) =~= all);
                assert(all.take(0) =~= Seq::<int>::empty());
                assert(late_fields(old(self).tokens@, all.take(0)) == 0);
                assert(!method_among(old(self).tokens@, all.take(0)));
            }
        }
        while !self.at(TokenKind::RBrace) && !self.at(TokenKind::Eof)
            invariant
                self.follows(*old(self)),
                self.index > old(self).index,
                forall|i: int| 0 <= i < members@.len() ==> member_rules(kind, #[trigger] members@[i]),
                self.diagnostics@.len() == old(self).diagnostics@.len() && misplaced_constructors@.len() == 0
                    ==> members_in_order(kind, members@) && body_order != TypeBodyOrder::Constructor,
                body_order == TypeBodyOrder::Storage ==> forall|i: int|
                    0 <= i < members@.len() ==> !((#[trigger] members@[i]) is Method),
                witness >= 0 ==> old(self).diagnostics@.len() <= witness < self.diagnostics@.len()
                    && self.diagnostics@[witness].code@ == "invalid_member_order"@,
                !members_in_order(kind, members@) ==> witness >= 0,
                empty_body == empty_type_body_at(old(self).tokens@, old(self).index as int),
                close == crate::parser::newline_run(old(self).tokens@,
                    crate::parser::newline_run(old(self).tokens@, old(self).index + 2) + 1),
                empty_body ==> self.index == close && members@.len() == 0 && misplaced_constructors@.len() == 0
                    && self.diagnostics == old(self).diagnostics,
                sp == simple_type_decl_at(old(self).tokens@, old(self).index as int),
                all == sp->Some_0,
                open == crate::parser::newline_run(old(self).tokens@, old(self).index + 2),
                close_s == simple_members_close(old(self).tokens@, open + 1),
                sp is Some ==> {
                    &&& members@.len() <= all.len()
                    &&& simple_members_from(old(self).tokens@, self.index as int) == Some(all.skip(members@.len() as int))
                    &&& simple_members_close(old(self).tokens@, self.index as int) == close_s
                    &&& misplaced_constructors@.len() == 0
                    &&& forall|k: int| 0 <= k < members@.len()
                        ==> simple_member_spelled(old(self).tokens@, #[trigger] all[k], members@[k])
                    &&& self.diagnostics@.len() == old(self).diagnostics@.len() + (if holds_storage(kind) {
                        late_fields(old(self).tokens@, all.take(members@.len() as int)) } else { 0 })
                    &&& forall|j: int| old(self).diagnostics@.len() <= j < self.diagnostics@.len()
                        ==> (#[trigger] self.diagnostics@[j]).code@ == "invalid_member_order"@
                    &&& (body_order == TypeBodyOrder::Method) == method_among(old(self).tokens@, all.take(members@.len() as int))
                    &&& body_order != TypeBodyOrder::Constructor
                    &&& Some(kind) == decl_kind_of(old(self).tokens@[old(self).index as int].kind)
                    &&& kind == TypeKind::Class || kind == TypeKind::Single || kind == TypeKind::Interface
                        || kind == TypeKind::Enum || !method_among(old(self).tokens@, all)
                    &&& 0 <= close_s < old(self).tokens@.len() && old(self).tokens@[close_s].kind == TokenKind::RBrace
                },
            ensures
                sp is Some ==> members@.len() == all.len() && self.index == close_s,
            decreases self.remaining(),
        {
            let ghost before = self.index;
            self.skip_newlines();
            if self.at(TokenKind::RBrace) {
                proof {
                    if sp is Some {
                        assert(self.index == crate::parser::newline_run(old(self).tokens@, before as int));
                        assert(all.skip(members@.len() as int).len() == 0);
                    }
                }
                break;
            }
            let ghost at = self.index as int;
            let ghost n = members@.len() as int;
            let ghost rest = simple_members_from(old(self).tokens@, simple_member_end(old(self).tokens@, at));
            proof {
                if sp is Some {
                    assert(at == crate::parser::newline_run(old(self).tokens@, before as int));
                    assert(simple_member_end(old(self).tokens@, at) > at);
                    assert(simple_field_at(old(self).tokens@, at) || empty_method_at(old(self).tokens@, at));
                    assert(rest is Some);
                    assert(all.skip(n) == seq![at] + rest->Some_0);
                    assert((seq![at] + rest->Some_0)[0] == at);
                    assert(all.skip(n)[0] == at);
                    assert(all.skip(n).len() == all.len() - n);
                    assert(n < all.len());
                    assert(all.skip(n)[0] == all[n]);
                    assert(all[n] == at);
                    assert(old(self).tokens@[at].kind != TokenKind::At);
                    if empty_method_at(old(self).tokens@, at) {
                        lemma_method_among(old(self).tokens@, all, n);
                    }
                }
            }

            let member_annotations = self.parse_annotations()?;

            if kind == TypeKind::Enum && self.match_keyword(Keyword::Case) {
                let case_span = self.previous_span();
                if let Some(case_decl) = self.parse_enum_case(member_annotations, case_span, &name) {
                    match body_order {
                        TypeBodyOrder::Storage => {},
                        TypeBodyOrder::Constructor => {
                            self.diagnostics.push(Diagnostic::error(
                                "invalid_member_order",
                                order_message(
                                    "enum cases must appear before constructors in enum '",
                                    &name,
                                    "'; move case '",
                                    &case_decl.name,
                                    "' above constructor declarations",
                                ),
                                case_decl.span,
                            ));
                            proof {
                                witness = self.diagnostics@.len() - 1;
                            }
                        },
                        TypeBodyOrder::Method => {
                            self.diagnostics.push(Diagnostic::error(
                                "invalid_member_order",
                                order_message(
                                    "enum cases must appear before methods in enum '",
                                    &name,
                                    "'; move case '",
                                    &case_decl.name,
                                    "' above method declarations",
                                ),
                                case_decl.span,
                            ));
                            proof {
                                witness = self.diagnostics@.len() - 1;
                            }
                        },
                    }
                    members.push(TypeMember::Case(case_decl));
                } else {
                    self.synchronize_member();
                }
                self.skip_newlines();
                continue;
            }

            let member_visibility = self.parse_visibility();
            if member_visibility == Visibility::Public {
                let message = match kind {
                    TypeKind::Annotation => {
                        "public is not allowed on annotation fields; annotation fields are public by default"
                    },
                    TypeKind::Interface => "public is not allowed inside interfaces",
                    TypeKind::Enum => "public is not allowed on enum members",
                    TypeKind::Class => "public is not allowed on class members",
                    TypeKind::Single => "public is not allowed on single members",
                    TypeKind::Record => "public is not allowed on shape members",
                };
                self.error_at_current("unexpected_visibility", message);
                return None;
            }
            let is_new = self.at(TokenKind::Identifier) && string_is(&self.current().lexeme, "new");
            if is_new {
                let constructor = self.parse_constructor_decl(member_annotations, member_visibility)?;
                if body_order == TypeBodyOrder::Method {
                    let s = concat_str(String::from_str("constructors must appear before methods in "), kind_name);
                    let s = concat_str(s, " '");
                    let s = concat_strings(s, &name);
                    let s = concat_str(s, "'; move 'new' above method declarations");
                    self.diagnostics.push(Diagnostic::error("invalid_member_order", s, constructor.span));
                    proof {
                        witness = self.diagnostics@.len() - 1;
                    }
                }
                misplaced_constructors.push(constructor.span);
                if body_order != TypeBodyOrder::Method {
                    body_order = TypeBodyOrder::Constructor;
                }
                members.push(TypeMember::Method(constructor));
            } else if self.at_keyword(Keyword::Def) {
                let body_method_error = match kind {
                    TypeKind::Annotation => {
                        let s = concat_strings(String::from_str("annotation '"), &name);
                        Some(concat_str(s, "' cannot declare methods; annotations are data-only metadata shapes"))
                    },
                    TypeKind::Record => {
                        let s = concat_strings(String::from_str("shape '"), &name);
                        let s = concat_str(s, "' cannot declare methods in its body; use 'impl ");
                        let s = concat_strings(s, &name);
                        Some(concat_str(s, "'"))
                    },
                    _ => None,
                };
                if let Some(message) = body_method_error {
                    self.error_at_current_owned("unexpected_method_decl", message);
                    return None;
                }
                let method = self.parse_method_decl(
                    member_annotations,
                    member_visibility,
                    kind == TypeKind::Interface,
                )?;
                body_order = TypeBodyOrder::Method;
                members.push(TypeMember::Method(method));
            } else {
                let field = self.parse_field_decl(member_annotations, member_visibility)?;
                if kind == TypeKind::Class || kind == TypeKind::Record || kind == TypeKind::Enum
                    || kind == TypeKind::Single {
                    match body_order {
                        TypeBodyOrder::Storage => {},
                        TypeBodyOrder::Constructor => {
                            let s = concat_str(String::from_str("storage fields must appear before constructors in "), kind_name);
                            let s = concat_str(s, " '");
                            let s = order_message("", &s, "", &name, "'; move field '");
                            let s = concat_strings(s, &field.name);
                            let s = concat_str(s, "' above constructor declarations");
                            self.diagnostics.push(Diagnostic::error("invalid_member_order", s, field.span));
                            proof {
                                witness = self.diagnostics@.len() - 1;
                            }
                        },
                        TypeBodyOrder::Method => {
                            let s = concat_str(String::from_str("storage fields must appear before methods in "), kind_name);
                            let s = concat_str(s, " '");
                            let s = order_message("", &s, "", &name, "'; move field '");
                            let s = concat_strings(s, &field.name);
                            let s = concat_str(s, "' above method declarations");
                            self.diagnostics.push(Diagnostic::error("invalid_member_order", s, field.span));
                            proof {
                                witness = self.diagnostics@.len() - 1;
                            }
                        },
                    }
                }
                members.push(TypeMember::Field(field));
            }
            let ghost e = self.index as int;
            self.skip_newlines();
            assert(self.index > before);
            proof {
                if sp is Some {
                    let t = old(self).tokens@;
                    assert(e == simple_member_end(t, at));
                    crate::parser::lemma_newline_run_bounded(t, e);
                    crate::parser::lemma_newline_run_from_inside(t, e, self.index as int);
                    assert(simple_members_from(t, self.index as int) == rest);
                    assert(simple_members_close(t, self.index as int) == simple_members_close(t, e));
                    assert(all.skip(n + 1) =~= all.skip(n).skip(1));
                    assert((seq![at] + rest->Some_0).skip(1) =~= rest->Some_0);
                    assert(all.take(n + 1).drop_last() =~= all.take(n));
                    assert(all.take(n + 1).last() == at);
                    assert(simple_member_spelled(t, all[n], members@[n]));
                }
            }
        }

        let ghost after_members = self.diagnostics@.len();
        let mut k: usize = 0;
        while k < misplaced_constructors.len()
            invariant
                self.follows(*old(self)),
                self.index > old(self).index,
                k <= misplaced_constructors@.len(),
                self.diagnostics@.len() == after_members + k,
                witness >= 0 ==> old(self).diagnostics@.len() <= witness < self.diagnostics@.len()
                    && self.diagnostics@[witness].code@ == "invalid_member_order"@,
                !members_in_order(kind, members@) ==> witness >= 0,
                empty_body ==> self.index == close && members@.len() == 0 && misplaced_constructors@.len() == 0
                    && self.diagnostics == old(self).diagnostics,
                sp is Some ==> {
                    &&& members@.len() == all.len() && misplaced_constructors@.len() == 0
                    &&& self.index == close_s
                    &&& forall|q: int| 0 <= q < members@.len()
                        ==> simple_member_spelled(old(self).tokens@, #[trigger] all[q], members@[q])
                    &&& self.diagnostics@.len() == old(self).diagnostics@.len() + (if holds_storage(kind) {
                        late_fields(old(self).tokens@, all) } else { 0 })
                    &&& forall|j: int| old(self).diagnostics@.len() <= j < self.diagnostics@.len()
                        ==> (#[trigger] self.diagnostics@[j]).code@ == "invalid_member_order"@
                    &&& Some(kind) == decl_kind_of(old(self).tokens@[old(self).index as int].kind)
                    &&& 0 <= close_s < old(self).tokens@.len() && old(self).tokens@[close_s].kind == TokenKind::RBrace
                },
            decreases misplaced_constructors@.len() - k,
        {
            let span = misplaced_constructors[k];
            self.diagnostics.push(Diagnostic::error(
                "unexpected_constructor_decl",
                type_body_constructor_message(kind, &name),
                span,
            ));
            k = k + 1;
        }

        let end = self.consume(TokenKind::RBrace, "expected '}' after type body")?;
        Some(TypeDecl {
            annotations,
            visibility,
            kind,
            name,
            type_params,
            with_bounds,
            members,
            span: start.cover(end),
        })
    }

    /// One `case Name { fields }` of an enum, after `case`; interfaces on a
    /// case are reported.
    pub(crate) fn parse_enum_case(&mut self, annotations: Vec<Annotation>, case_span: Span, enum_name: &String) -> (r: Option<EnumCaseDecl>)
        requires
            old(self).wf(),
        ensures
            r is None ==> final(self).diagnostics@.len() > old(self).diagnostics@.len()
                || final(self).silent_failures@ > old(self).silent_failures@,
            final(self).follows(*old(self)),
            r is Some ==> final(self).index > old(self).index,
        decreases old(self).bound@, old(self).remaining(), 1nat,
    {
        let (name, name_span) = self.expect_identifier("expected enum case name")?;
        let mut fields = Vec::new();
        self.skip_newlines();
        let mut end = name_span;
        if self.match_keyword(Keyword::With) {
            end = self.report_enum_case_interface_bound(enum_name, &name)?;
            self.skip_newlines();
        }
        if self.match_token(TokenKind::LBrace) {
            self.skip_newlines();
            while !self.at(TokenKind::RBrace) && !self.at(TokenKind::Eof)
                invariant
                    self.follows(*old(self)),
                    self.index > old(self).index,
                decreases self.remaining(),
            {
                let field_annotations = self.parse_annotations()?;
                let field_visibility = self.parse_visibility();
                let field = self.parse_field_decl(field_annotations, field_visibility)?;
                fields.push(field);
                self.skip_newlines();
            }
            let close = self.consume(TokenKind::RBrace, "expected '}' after enum case body")?;
            return Some(EnumCaseDecl { annotations, name, fields, span: case_span.cover(close) });
        }
        Some(EnumCaseDecl { annotations, name, fields, span: case_span.cover(end) })
    }

    /// Reports `case C with Iface`: enum cases cannot implement interfaces.
    pub(crate) fn report_enum_case_interface_bound(&mut self, enum_name: &String, case_name: &String) -> (r: Option<Span>)
        requires
            old(self).wf(),
        ensures
            r is None ==> final(self).diagnostics@.len() > old(self).diagnostics@.len()
                || final(self).silent_failures@ > old(self).silent_failures@,
            final(self).follows(*old(self)),
            r is Some ==> final(self).index > old(self).index,
    {
        let with_span = self.previous_span();
        let bounds = self.parse_type_ref_list()?;
        let end = if bounds.len() > 0 { bounds[bounds.len() - 1].span() } else { with_span };
        let s = order_message("enum case '", enum_name, ".", case_name, "' cannot implement interfaces; put 'with ...' on enum '");
        let s = concat_strings(s, enum_name);
        let s = concat_str(s, "'");
        self.diagnostics.push(Diagnostic::error("invalid_enum_case_interface", s, with_span.cover(end)));
        Some(end)
    }

    /// `impl [single] Target { new ... def ... }`: constructors before
    /// methods (reported otherwise); `def new(...)` is reported as old
    /// constructor syntax; enum cases cannot be targets.
    pub(crate) fn parse_impl_block(&mut self) -> (r: Option<ImplBlock>)
        requires
            old(self).wf(),
        ensures
            r is None ==> final(self).diagnostics@.len() > old(self).diagnostics@.len()
                || final(self).silent_failures@ > old(self).silent_failures@,
            final(self).follows(*old(self)),
            r is Some ==> final(self).index > old(self).index,
            final(self).diagnostics@.len() == old(self).diagnostics@.len() ==> (r matches Some(b)
                ==> constructors_first(b.methods@)),
        decreases old(self).bound@, old(self).remaining(), 1nat,
    {
        let start = self.consume_keyword(Keyword::Impl, "expected 'impl'")?;
        let target_kind = if self.match_keyword(Keyword::Single) {
            ImplTargetKind::Single
        } else {
            ImplTargetKind::Instance
        };
        let target = self.parse_type_ref()?;
        if self.match_token(TokenKind::Dot) {
            self.expect_identifier("expected enum case name after '.'")?;
            let owner = match &target {
                TypeRef::Named { name, .. } => name.clone(),
                _ => String::from_str("enum"),
            };
            let s = concat_strings(String::from_str("enum cases cannot declare methods; move methods to enum '"), &owner);
            let s = concat_str(s, "'");
            self.error_at_current_owned("unexpected_impl_target", s);
            return None;
        }
        self.skip_newlines();
        self.consume(TokenKind::LBrace, "expected '{' after impl target")?;
        self.skip_newlines();

        let mut methods: Vec<MethodDecl> = Vec::new();
        let mut body_order = ImplBodyOrder::Constructor;
        while !self.at(TokenKind::RBrace) && !self.at(TokenKind::Eof)
            invariant
                self.follows(*old(self)),
                self.index > old(self).index,
                self.diagnostics@.len() == old(self).diagnostics@.len() ==> constructors_first(methods@)
                    && (body_order == ImplBodyOrder::Constructor ==> forall|i: int|
                        0 <= i < methods@.len() ==> (#[trigger] methods@[i]).name@ == "new"@),
            decreases self.remaining(),
        {
            let ghost before = self.index;
            self.skip_newlines();
            if self.at(TokenKind::RBrace) {
                break;
            }
            let annotations = self.parse_annotations()?;
            let visibility = self.parse_visibility();
            let is_new = self.at(TokenKind::Identifier) && string_is(&self.current().lexeme, "new");
            let method = if is_new {
                let constructor = self.parse_constructor_decl(annotations, visibility)?;
                if body_order == ImplBodyOrder::Method {
                    let s = concat_strings(
                        String::from_str("constructors must appear before methods in impl '"),
                        &impl_target_name(&target),
                    );
                    let s = concat_str(s, "'; move 'new' above method declarations");
                    self.diagnostics.push(Diagnostic::error("invalid_member_order", s, constructor.span));
                }
                constructor
            } else {
                let method = self.parse_method_decl(annotations, visibility, false)?;
                if string_is(&method.name, "new") {
                    self.diagnostics.push(Diagnostic::error(
                        "old_constructor_syntax",
                        String::from_str(
                            "constructors use `new { params } { body }`; replace `def new(...)` with `new { ... } { ... }`",
                        ),
                        method.span,
                    ));
                }
                body_order = ImplBodyOrder::Method;
                method
            };
            methods.push(method);
            self.skip_newlines();
            assert(self.index > before);
        }
        let end = self.consume(TokenKind::RBrace, "expected '}' after impl body")?;
        Some(ImplBlock { target_kind, target, methods, span: start.cover(end) })
    }

    /// `new { params } body`: a constructor.
    pub(crate) fn parse_constructor_decl(&mut self, annotations: Vec<Annotation>, visibility: Visibility) -> (r: Option<MethodDecl>)
        requires
            old(self).wf(),
        ensures
            r is None ==> final(self).diagnostics@.len() > old(self).diagnostics@.len()
                || final(self).silent_failures@ > old(self).silent_failures@,
            final(self).follows(*old(self)),
            r is Some ==> final(self).index > old(self).index,
            r matches Some(m) ==> m.name@ == "new"@ && m.visibility == visibility && m.body is Some,
        decreases old(self).bound@, old(self).remaining(), 1nat,
    {
        let (name, start) = self.expect_identifier("expected constructor name")?;
        if !string_is(&name, "new") {
            self.error_at_current("expected_constructor", "expected 'new'");
            return None;
        }
        let params = self.parse_constructor_param_block()?;
        let body = self.parse_callable_body()?;
        let end = body.span();
        Some(MethodDecl {
            annotations,
            visibility,
            name,
            type_params: Vec::new(),
            params,
            return_type: None,
            body: Some(body),
            span: start.cover(end),
        })
    }

    /// `{ name Type [vararg] [= default], ... }`: constructor parameters, each
    /// with a type.
    pub(crate) fn parse_constructor_param_block(&mut self) -> (r: Option<Vec<Param>>)
        requires
            old(self).wf(),
        ensures
            r is None ==> final(self).diagnostics@.len() > old(self).diagnostics@.len()
                || final(self).silent_failures@ > old(self).silent_failures@,
            final(self).follows(*old(self)),
            r is Some ==> final(self).index > old(self).index,
        decreases old(self).bound@, old(self).remaining(), 1nat,
    {
        self.consume(TokenKind::LBrace, "expected '{' before constructor parameters")?;
        let mut params = Vec::new();
        self.skip_newlines();
        while !self.at(TokenKind::RBrace) && !self.at(TokenKind::Eof)
            invariant
                self.follows(*old(self)),
                self.index > old(self).index,
            decreases self.remaining(),
        {
            let (name, start) = self.expect_identifier("expected constructor parameter name")?;
            if !self.can_start_type_ref() {
                self.error_at_current("expected_type", "expected constructor parameter type");
                return None;
            }
            let ty = self.parse_type_ref()?;
            let variadic = self.match_keyword(Keyword::Vararg);
            let variadic_span = self.previous_span();
            let initializer = if self.match_token(TokenKind::Eq) {
                Some(self.parse_expr()?)
            } else {
                None
            };
            let end = match &initializer {
                Some(value) => value.span(),
                None => if variadic { variadic_span } else { ty.span() },
            };
            params.push(Param { name, ty: Some(ty), initializer, variadic, span: start.cover(end) });
            self.skip_newlines();
            if self.match_token(TokenKind::Comma) {
                self.skip_newlines();
            }
        }
        self.consume(TokenKind::RBrace, "expected '}' after constructor parameters")?;
        Some(params)
    }

    /// `def name[T](params) ReturnType body`; `def expect(...)` is allowed as
    /// a method name, and interfaces may leave out the body.
    pub(crate) fn parse_method_decl(&mut self, annotations: Vec<Annotation>, visibility: Visibility, allow_signature_only: bool) -> (r: Option<MethodDecl>)
        requires
            old(self).wf(),
        ensures
            r is None ==> final(self).diagnostics@.len() > old(self).diagnostics@.len()
                || final(self).silent_failures@ > old(self).silent_failures@,
            final(self).follows(*old(self)),
            r is Some ==> final(self).index > old(self).index,
            r matches Some(m) ==> m.visibility == visibility && (!allow_signature_only ==> m.body is Some),
            empty_method_at(old(self).tokens@, old(self).index as int) ==> (r matches Some(m)
                && simple_member_spelled(old(self).tokens@, old(self).index as int, TypeMember::Method(m))
                && final(self).index == simple_member_end(old(self).tokens@, old(self).index as int)
                && final(self).diagnostics@ == old(self).diagnostics@),
        decreases old(self).bound@, old(self).remaining(), 1nat,
    {
        let ghost simple = empty_method_at(old(self).tokens@, old(self).index as int);
        let ghost i = old(self).index as int;
        let start = self.consume_keyword(Keyword::Def, "expected 'def'")?;
        let name = if self.at(TokenKind::Keyword(Keyword::Expect)) {
            let token = self.current_token();
            self.advance();
            token.lexeme
        } else {
            let (name, _) = self.parse_callable_name("expected method name")?;
            name
        };
        let type_params = self.parse_type_params()?;
        assert(simple ==> self.index == i + 2 && self.diagnostics@ == old(self).diagnostics@);
        let params = self.parse_param_list()?;
        assert(simple ==> self.index == ret_at(old(self).tokens@, i) && self.diagnostics@ == old(self).diagnostics@
            && super::types::params_spelled(old(self).tokens@, i + 2, params@));
        let return_type = if self.callable_body_starts_here() {
            None
        } else {
            self.parse_optional_return_type()
        };
        assert(simple ==> self.index == ret_at(old(self).tokens@, i) + 1 && self.diagnostics@ == old(self).diagnostics@);
        let body = if self.at(TokenKind::LBrace) || self.at(TokenKind::Eq) {
            Some(self.parse_callable_body()?)
        } else if allow_signature_only {
            None
        } else {
            self.error_at_current("expected_method_body", "expected method body");
            return None;
        };
        let end = match &body {
            Some(b) => b.span(),
            None => match &return_type {
                Some(t) => t.span(),
                None => start,
            },
        };
        Some(MethodDecl {
            annotations,
            visibility,
            name,
            type_params,
            params,
            return_type,
            body,
            span: start.cover(end),
        })
    }

    /// `[var] name [Type] [= value]`; `:=` as an initializer is reported.
    pub(crate) fn parse_field_decl(&mut self, annotations: Vec<Annotation>, visibility: Visibility) -> (r: Option<FieldDecl>)
        requires
            old(self).wf(),
        ensures
            r is None ==> final(self).diagnostics@.len() > old(self).diagnostics@.len()
                || final(self).silent_failures@ > old(self).silent_failures@,
            final(self).follows(*old(self)),
            r is Some ==> final(self).index > old(self).index,
            r matches Some(f) ==> f.visibility == visibility,
            simple_field_at(old(self).tokens@, old(self).index as int) ==> (r matches Some(f)
                && simple_member_spelled(old(self).tokens@, old(self).index as int, TypeMember::Field(f))
                && final(self).index == old(self).index + 2 && final(self).diagnostics@ == old(self).diagnostics@),
        decreases old(self).bound@, old(self).remaining(), 1nat,
    {
        let start = self.current_span();
        let mutable = self.match_keyword(Keyword::Var);
        let (name, _) = self.expect_binding_name("expected field name")?;
        let ty = if self.can_start_type_ref() {
            Some(self.parse_type_ref()?)
        } else {
            None
        };
        let (initializer, end) = if self.match_token(TokenKind::Eq) {
            let assign_span = self.previous_span();
            let expr = self.parse_expr()?;
            let end = expr.span();
            (Some(expr), assign_span.cover(end))
        } else if self.match_token(TokenKind::ColonAssign) {
            let assign_span = self.previous_span();
            let _ = self.parse_expr();
            self.diagnostics.push(Diagnostic::error(
                "unexpected_token",
                String::from_str("use '=' for field initializers; ':=' is only for reassignment statements"),
                assign_span,
            ));
            return None;
        } else {
            let end = match &ty {
                Some(t) => t.span(),
                None => start,
            };
            (None, end)
        };
        Some(FieldDecl { annotations, visibility, mutable, name, ty, initializer, span: start.cover(end) })
    }

    /// A `{ ... }` body, or `= expr`; `= { ... }` that is a block (not a
    /// brace payload) is reported but kept.
    pub(crate) fn parse_callable_body(&mut self) -> (r: Option<CallableBody>)
        requires
            old(self).wf(),
        ensures
            r is None ==> final(self).diagnostics@.len() > old(self).diagnostics@.len()
                || final(self).silent_failures@ > old(self).silent_failures@,
            final(self).follows(*old(self)),
            r is Some ==> final(self).index > old(self).index,
            ({
                let open = crate::parser::newline_run(old(self).tokens@, old(self).index as int);
                old(self).kind_at(open) == TokenKind::LBrace
                    && old(self).kind_at(crate::parser::newline_run(old(self).tokens@, open + 1)) == TokenKind::RBrace
                    ==> (r matches Some(CallableBody::Block(b)) && b.statements@.len() == 0
                        && final(self).index == crate::parser::newline_run(old(self).tokens@, open + 1) + 1
                        && final(self).diagnostics == old(self).diagnostics)
            }),
        decreases old(self).bound@, old(self).remaining(), 2nat,
    {
        self.skip_newlines();
        if self.at(TokenKind::LBrace) {
            return match self.parse_block() {
                Some(block) => Some(CallableBody::Block(block)),
                None => None,
            };
        }
        self.consume(TokenKind::Eq, "expected '=' or '{' before callable body")?;
        self.skip_newlines();
        if self.at(TokenKind::LBrace) && !self.looks_like_brace_record_literal(false) {
            let block = self.parse_block()?;
            self.diagnostics.push(Diagnostic::error(
                "invalid_callable_body",
                String::from_str("block callable bodies omit '='; use 'def name(...) { ... }'"),
                block.span,
            ));
            return Some(CallableBody::Block(block));
        }
        let expr = self.parse_expr()?;
        Some(CallableBody::Expr(expr))
    }

    /// Whether the body starts at the cursor, so that no return type comes
    /// first: `=` next, or a `{` that does not begin a return type followed
    /// by `=` or `{`.
    pub(crate) fn callable_body_starts_here(&self) -> (b: bool)
        requires
            self.wf(),
        ensures
            self.kind_at(crate::parser::newline_run(self.tokens@, self.index as int)) == TokenKind::Eq ==> b,
            self.kind_at(crate::parser::newline_run(self.tokens@, self.index as int)) != TokenKind::Eq
                && self.kind_at(crate::parser::newline_run(self.tokens@, self.index as int)) != TokenKind::LBrace ==> !b,
    {
        match self.next_significant_token().kind {
            TokenKind::Eq => true,
            TokenKind::LBrace => {
                let mut parser = self.lookahead_at(self.index);
                if parser.parse_type_ref().is_some() {
                    parser.skip_newlines();
                    return !(parser.at(TokenKind::Eq) || parser.at(TokenKind::LBrace));
                }
                true
            },
            _ => false,
        }
    }
}

} // verus!
